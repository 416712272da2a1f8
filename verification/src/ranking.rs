//! The ranking of a process table, as mathematics.
//!
//! Processes are ranked from the busiest down. An entry goes in front of
//! another only where its sample is strictly above the other's; entries
//! whose samples are equal or cannot be compared (a NaN) tie and keep the
//! order in which the table lists them. For a table without NaN this is the
//! stable sort by falling CPU usage, and the laws below say so; with NaN in
//! the table the ranking is still one definite arrangement, in which a NaN
//! stays where the entries before it left it.

use crate::process::ProcessInfo;
use vstd::prelude::*;

verus! {

/// How many processes a listing holds at most.
pub const TOP_PROCESSES: usize = 10;

/// Where `entry` goes into `ranking`: behind the last entry that is not
/// strictly below it, so in front of the run of lower entries at the tail.
pub open spec fn insertion_point(ranking: Seq<ProcessInfo>, entry: ProcessInfo) -> int
    decreases ranking.len(),
{
    if ranking.len() > 0 && ranking.last().cpu_usage.below(entry.cpu_usage) {
        insertion_point(ranking.drop_last(), entry)
    } else {
        ranking.len() as int
    }
}

/// The ranking of `table`: its entries taken one by one in table order,
/// each put at its insertion point among those ranked before it.
pub open spec fn ranked(table: Seq<ProcessInfo>) -> Seq<ProcessInfo>
    decreases table.len(),
{
    if table.len() == 0 {
        Seq::empty()
    } else {
        let earlier = ranked(table.drop_last());
        earlier.insert(insertion_point(earlier, table.last()), table.last())
    }
}

/// The listing of `table`: the first `TOP_PROCESSES` entries of its
/// ranking, or the whole ranking where the table is shorter.
pub open spec fn top_ranked(table: Seq<ProcessInfo>) -> Seq<ProcessInfo> {
    if table.len() <= TOP_PROCESSES {
        ranked(table)
    } else {
        ranked(table).take(TOP_PROCESSES as int)
    }
}

/// No entry is directly followed by one that is strictly above it.
pub open spec fn never_rises(listing: Seq<ProcessInfo>) -> bool {
    forall|i: int|
        0 <= i && i + 1 < listing.len() ==> !(#[trigger] listing[i]).cpu_usage.below(
            listing[i + 1].cpu_usage,
        )
}

/// No sample in the table is a NaN.
pub open spec fn all_numbers(table: Seq<ProcessInfo>) -> bool {
    forall|i: int| 0 <= i < table.len() ==> !(#[trigger] table[i]).cpu_usage.is_nan()
}

/// Every entry is at least as busy as every later one.
pub open spec fn descends(listing: Seq<ProcessInfo>) -> bool {
    forall|i: int, j: int|
        0 <= i <= j < listing.len() ==> (#[trigger] listing[i]).cpu_usage.rank() >= (
        #[trigger] listing[j]).cpu_usage.rank()
}

/// The class of the entries whose sample is the number with rank `rank`.
pub open spec fn has_rank(rank: int) -> spec_fn(ProcessInfo) -> bool {
    |entry: ProcessInfo| !entry.cpu_usage.is_nan() && entry.cpu_usage.rank() == rank
}

/// Whether `listing` is a stable sort of `table` by falling CPU usage: it
/// descends, and for every number it lists the entries with that number as
/// the table does, the same ones in the same order. This speaks of tables
/// and listings without NaN.
pub open spec fn is_stable_sort_of(listing: Seq<ProcessInfo>, table: Seq<ProcessInfo>) -> bool {
    &&& all_numbers(listing)
    &&& descends(listing)
    &&& forall|rank: int| #[trigger]
        listing.filter(has_rank(rank)) == table.filter(has_rank(rank))
}

/// The insertion point is a position of the ranking or its end; everything
/// from there on is strictly below the entry, and what stands just before
/// it is not.
pub proof fn law_insertion_point(ranking: Seq<ProcessInfo>, entry: ProcessInfo)
    ensures
        0 <= insertion_point(ranking, entry) <= ranking.len(),
        forall|i: int|
            insertion_point(ranking, entry) <= i < ranking.len() ==> (
            #[trigger] ranking[i]).cpu_usage.below(entry.cpu_usage),
        insertion_point(ranking, entry) > 0 ==> !ranking[insertion_point(ranking, entry)
            - 1].cpu_usage.below(entry.cpu_usage),
    decreases ranking.len(),
{
    if ranking.len() > 0 && ranking.last().cpu_usage.below(entry.cpu_usage) {
        let shorter = ranking.drop_last();
        law_insertion_point(shorter, entry);
        assert forall|i: int| insertion_point(ranking, entry) <= i < ranking.len() implies (
        #[trigger] ranking[i]).cpu_usage.below(entry.cpu_usage) by {
            if i < shorter.len() {
                assert(ranking[i] == shorter[i]);
            }
        }
        if insertion_point(ranking, entry) > 0 {
            assert(ranking[insertion_point(ranking, entry) - 1] == shorter[insertion_point(
                shorter,
                entry,
            ) - 1]);
        }
    }
}

/// The insertion point is found by walking back from the tail: while the
/// tail beyond `at` is strictly below the entry, the answer lies in the
/// first `at` entries.
pub(crate) proof fn lemma_insertion_point_in_prefix(ranking: Seq<ProcessInfo>, entry: ProcessInfo, at: int)
    requires
        0 <= at <= ranking.len(),
        forall|i: int| at <= i < ranking.len() ==> (#[trigger] ranking[i]).cpu_usage.below(
            entry.cpu_usage,
        ),
    ensures
        insertion_point(ranking, entry) == insertion_point(ranking.take(at), entry),
    decreases ranking.len() - at,
{
    if at == ranking.len() {
        assert(ranking.take(at) == ranking);
    } else {
        lemma_insertion_point_in_prefix(ranking.drop_last(), entry, at);
        assert(ranking.drop_last().take(at) == ranking.take(at));
    }
}

/// A ranking has as many entries as its table.
pub proof fn law_ranked_length(table: Seq<ProcessInfo>)
    ensures
        ranked(table).len() == table.len(),
        top_ranked(table).len() <= TOP_PROCESSES,
        top_ranked(table).len() == if table.len() <= TOP_PROCESSES {
            table.len()
        } else {
            TOP_PROCESSES as nat
        },
    decreases table.len(),
{
    if table.len() > 0 {
        let earlier = ranked(table.drop_last());
        law_ranked_length(table.drop_last());
        law_insertion_point(earlier, table.last());
    }
}

/// A ranking holds exactly the entries of its table, each as often as the
/// table does.
pub proof fn law_ranked_is_permutation(table: Seq<ProcessInfo>)
    ensures
        ranked(table).to_multiset() == table.to_multiset(),
    decreases table.len(),
{
    if table.len() == 0 {
        assert(ranked(table) == table);
    } else {
        let earlier = ranked(table.drop_last());
        law_ranked_is_permutation(table.drop_last());
        law_ranked_length(table.drop_last());
        law_insertion_point(earlier, table.last());
        vstd::seq_lib::to_multiset_insert(
            earlier,
            insertion_point(earlier, table.last()),
            table.last(),
        );
        vstd::seq_lib::to_multiset_build(table.drop_last(), table.last());
        assert(table.drop_last().push(table.last()) == table);
    }
}

/// A listing shows entries of its table and nothing else.
pub proof fn law_listing_is_from_table(table: Seq<ProcessInfo>)
    ensures
        forall|i: int|
            0 <= i < ranked(table).len() ==> table.contains(#[trigger] ranked(table)[i]),
        forall|i: int| 0 <= i < table.len() ==> ranked(table).contains(#[trigger] table[i]),
        forall|i: int|
            0 <= i < top_ranked(table).len() ==> table.contains(#[trigger] top_ranked(table)[i]),
{
    law_ranked_is_permutation(table);
    law_ranked_length(table);
    let whole = ranked(table);
    assert forall|i: int| 0 <= i < whole.len() implies table.contains(#[trigger] whole[i]) by {
        vstd::seq_lib::to_multiset_contains(whole, whole[i]);
        vstd::seq_lib::to_multiset_contains(table, whole[i]);
    }
    assert forall|i: int| 0 <= i < table.len() implies whole.contains(#[trigger] table[i]) by {
        vstd::seq_lib::to_multiset_contains(whole, table[i]);
        vstd::seq_lib::to_multiset_contains(table, table[i]);
    }
}

/// In a ranking no entry is directly followed by a busier one, whatever the
/// samples are.
pub proof fn law_ranked_never_rises(table: Seq<ProcessInfo>)
    ensures
        never_rises(ranked(table)),
        never_rises(top_ranked(table)),
    decreases table.len(),
{
    if table.len() > 0 {
        let earlier = ranked(table.drop_last());
        let entry = table.last();
        let at = insertion_point(earlier, entry);
        law_ranked_never_rises(table.drop_last());
        law_ranked_length(table.drop_last());
        law_insertion_point(earlier, entry);
        // The entry stands behind one that is not below it and in front of
        // one that is below it; all other neighbours were neighbours before.
        assert(never_rises(earlier.insert(at, entry)));
    }
    law_ranked_length(table);
}

/// Where no sample is a NaN, the ranking is sorted: every entry is at least
/// as busy as all that follow it.
pub proof fn law_ranked_descends(table: Seq<ProcessInfo>)
    requires
        all_numbers(table),
    ensures
        all_numbers(ranked(table)),
        descends(ranked(table)),
        descends(top_ranked(table)),
    decreases table.len(),
{
    if table.len() > 0 {
        let shorter = table.drop_last();
        let earlier = ranked(shorter);
        let entry = table.last();
        let at = insertion_point(earlier, entry);
        assert(all_numbers(shorter));
        law_ranked_descends(shorter);
        law_ranked_length(shorter);
        law_insertion_point(earlier, entry);
        let later = earlier.insert(at, entry);
        assert(all_numbers(later));
        // Everything in front of the insertion point is at least as busy as
        // the entry: the one just before it is, and the ranking descends.
        assert forall|i: int| 0 <= i < at implies earlier[i].cpu_usage.rank()
            >= entry.cpu_usage.rank() by {}
        assert(descends(later));
    }
    law_ranked_length(table);
}

/// Entries that tie keep their table order. For any class of entries of
/// which none is strictly below another (all with the same sample, or all
/// NaN), the ranking lists the members of the class as the table does.
pub proof fn law_ranked_is_stable(table: Seq<ProcessInfo>, class: spec_fn(ProcessInfo) -> bool)
    requires
        forall|a: ProcessInfo, b: ProcessInfo|
            #![trigger class(a), class(b)]
            class(a) && class(b) ==> !a.cpu_usage.below(b.cpu_usage),
    ensures
        ranked(table).filter(class) == table.filter(class),
    decreases table.len(),
{
    reveal(Seq::filter);
    if table.len() > 0 {
        let shorter = table.drop_last();
        let earlier = ranked(shorter);
        let entry = table.last();
        let at = insertion_point(earlier, entry);
        law_ranked_is_stable(shorter, class);
        law_ranked_length(shorter);
        law_insertion_point(earlier, entry);
        let head = earlier.subrange(0, at);
        let tail = earlier.subrange(at, earlier.len() as int);
        assert(earlier == head + tail);
        Seq::filter_distributes_over_add(head, tail, class);
        Seq::filter_distributes_over_add(head.push(entry), tail, class);
        assert(head.push(entry).drop_last() == head);
        if class(entry) {
            // Behind the insertion point all is below the entry, so nothing
            // there is of its class.
            assert(tail.all(|p: ProcessInfo| !class(p)));
            tail.lemma_all_neg_filter_empty(class);
            assert(head.push(entry).filter(class) + tail.filter(class) == head.push(entry).filter(
                class,
            ));
        }
    }
}

/// Two listings without NaN that both descend and that list the entries of
/// every number alike are the same listing.
pub proof fn law_stable_sort_is_unique(x: Seq<ProcessInfo>, y: Seq<ProcessInfo>)
    requires
        all_numbers(x),
        all_numbers(y),
        descends(x),
        descends(y),
        forall|rank: int| #[trigger] x.filter(has_rank(rank)) == y.filter(has_rank(rank)),
    ensures
        x == y,
    decreases x.len(),
{
    reveal(Seq::filter);
    if x.len() == 0 {
        if y.len() > 0 {
            // The class of the first entry of `y` would be empty in `x`.
            let r = y[0].cpu_usage.rank();
            y.lemma_filter_contains(has_rank(r), 0);
            assert(x.filter(has_rank(r)).len() == 0);
        }
    } else {
        // Both listings end with the same entry; without it they are equal
        // by induction.
        let a = x.last();
        let r = a.cpu_usage.rank();
        let fx = x.filter(has_rank(r));
        let fy = y.filter(has_rank(r));
        let b = y.last();
        let q = b.cpu_usage.rank();
        // The last entry of a listing that descends is its least busy one,
        // and each listing holds an entry as idle as the other's last: the
        // two last entries have the same rank.
        assert(q <= r) by {
            y.lemma_filter_contains_rev(has_rank(r), a);
        }
        assert(r <= q) by {
            y.lemma_filter_contains(has_rank(q), y.len() - 1);
            x.lemma_filter_contains_rev(has_rank(q), b);
        }
        // Each is the last of its class, and the classes are equal.
        assert(a == b) by {
            assert(fx[fx.len() - 1] == fy[fy.len() - 1]);
        }
        let xs = x.drop_last();
        let ys = y.drop_last();
        assert forall|rank: int| #[trigger]
            xs.filter(has_rank(rank)) == ys.filter(has_rank(rank)) by {
            if rank == r {
                assert(fy.drop_last() == ys.filter(has_rank(r)));
            } else {
                assert(x.filter(has_rank(rank)) == y.filter(has_rank(rank)));
            }
        }
        assert(all_numbers(xs) && descends(xs));
        assert(all_numbers(ys) && descends(ys));
        law_stable_sort_is_unique(xs, ys);
        assert(y == ys.push(b));
    }
}

/// For a table without NaN the ranking is the stable sort by falling CPU
/// usage, and nothing else is.
pub proof fn law_ranked_is_the_stable_sort(table: Seq<ProcessInfo>, listing: Seq<ProcessInfo>)
    requires
        all_numbers(table),
    ensures
        is_stable_sort_of(ranked(table), table),
        is_stable_sort_of(listing, table) ==> listing == ranked(table),
{
    law_ranked_descends(table);
    assert forall|rank: int| #[trigger]
        ranked(table).filter(has_rank(rank)) == table.filter(has_rank(rank)) by {
        law_ranked_is_stable(table, has_rank(rank));
    }
    if is_stable_sort_of(listing, table) {
        law_stable_sort_is_unique(listing, ranked(table));
    }
}

} // verus!
