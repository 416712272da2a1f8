//! The process table: its entries, and the listing of the busiest.

use crate::cpu::CpuUsage;
use crate::ranking::{
    all_numbers, descends, insertion_point, law_listing_is_from_table, law_ranked_descends,
    law_ranked_length, law_ranked_never_rises, lemma_insertion_point_in_prefix, never_rises,
    ranked, top_ranked, TOP_PROCESSES,
};
use crate::state::{AppState, SystemSnapshot};
use vstd::prelude::*;

verus! {

/// One live process as the table shows it.
#[derive(Debug, PartialEq, Eq)]
pub struct ProcessInfo {
    pub pid: u32,
    pub name: String,
    pub cpu_usage: CpuUsage,
    pub memory_usage: u64,
}

impl Clone for ProcessInfo {
    fn clone(&self) -> (copy: Self)
        ensures
            copy == *self,
    {
        ProcessInfo {
            pid: self.pid,
            name: self.name.clone(),
            cpu_usage: self.cpu_usage,
            memory_usage: self.memory_usage,
        }
    }
}

/// The entries of `table` that `order` names, in the order of `order`.
spec fn entries_at(table: Seq<ProcessInfo>, order: Seq<usize>) -> Seq<ProcessInfo> {
    Seq::new(order.len(), |k: int| table[order[k] as int])
}

/// The order in which the entries of `table` are ranked, as indices into
/// the table.
fn ranking_order(table: &Vec<ProcessInfo>) -> (order: Vec<usize>)
    ensures
        order.len() == table.len(),
        forall|k: int| 0 <= k < order.len() ==> (#[trigger] order[k]) < table.len(),
        entries_at(table@, order@) == ranked(table@),
{
    let mut order: Vec<usize> = Vec::new();
    let mut next: usize = 0;
    while next < table.len()
        invariant
            next <= table.len(),
            order.len() == next,
            forall|k: int| 0 <= k < order.len() ==> (#[trigger] order[k]) < table.len(),
            entries_at(table@, order@) == ranked(table@.take(next as int)),
        decreases table.len() - next,
    {
        let ghost earlier = ranked(table@.take(next as int));
        let ghost entry = table@[next as int];
        let mut at: usize = order.len();
        while at > 0 && table[order[at - 1]].cpu_usage.below(table[next].cpu_usage)
            invariant
                next < table.len(),
                at <= order.len(),
                entry == table@[next as int],
                earlier == entries_at(table@, order@),
                forall|k: int| 0 <= k < order.len() ==> (#[trigger] order[k]) < table.len(),
                forall|i: int|
                    at <= i < earlier.len() ==> (#[trigger] earlier[i]).cpu_usage.below(
                        entry.cpu_usage,
                    ),
            decreases at,
        {
            at -= 1;
        }
        proof {
            // The walk stopped at the insertion point of the entry among
            // those ranked so far, and the order with the entry put in
            // there names the ranking of one entry more.
            lemma_insertion_point_in_prefix(earlier, entry, at as int);
            assert(insertion_point(earlier, entry) == at);
            assert(table@.take(next + 1).drop_last() == table@.take(next as int));
            assert(entries_at(table@, order@.insert(at as int, next)) == earlier.insert(
                at as int,
                entry,
            ));
        }
        order.insert(at, next);
        next += 1;
    }
    proof {
        assert(table@.take(next as int) == table@);
    }
    order
}

/// The listing of `table`: its `TOP_PROCESSES` busiest entries, busiest
/// first; entries that tie stand in table order. An empty table gives an
/// empty listing.
pub fn top_processes(table: &Vec<ProcessInfo>) -> (listing: Vec<ProcessInfo>)
    ensures
        listing@ == top_ranked(table@),
        listing.len() <= TOP_PROCESSES,
        listing.len() == if table.len() <= TOP_PROCESSES {
            table.len()
        } else {
            TOP_PROCESSES
        },
        never_rises(listing@),
        all_numbers(table@) ==> descends(listing@),
        forall|i: int| 0 <= i < listing.len() ==> table@.contains(#[trigger] listing@[i]),
{
    let order = ranking_order(table);
    let mut listing: Vec<ProcessInfo> = Vec::new();
    let mut taken: usize = 0;
    proof {
        law_ranked_length(table@);
    }
    while taken < order.len() && taken < TOP_PROCESSES
        invariant
            order.len() == table.len(),
            ranked(table@).len() == table.len(),
            taken <= order.len(),
            taken <= TOP_PROCESSES,
            forall|k: int| 0 <= k < order.len() ==> (#[trigger] order[k]) < table.len(),
            entries_at(table@, order@) == ranked(table@),
            listing@ == ranked(table@).take(taken as int),
        decreases order.len() - taken,
    {
        let entry = table[order[taken]].clone();
        proof {
            assert(ranked(table@).take(taken as int).push(entry) == ranked(table@).take(
                taken + 1,
            ));
        }
        listing.push(entry);
        taken += 1;
    }
    proof {
        if table.len() <= TOP_PROCESSES {
        }
        law_ranked_never_rises(table@);
        law_listing_is_from_table(table@);
        if all_numbers(table@) {
            law_ranked_descends(table@);
        }
    }
    listing
}

/// Answers a request for the process listing.
///
/// `refreshed` is the snapshot as it reads once the process table was read
/// anew in full: the table, and the counters, of which such a read can
/// renew the CPU reading. It replaces the snapshot of the state, so that
/// the next statistics take their sample from it and a later termination
/// request is held against its table. The history is left alone. The
/// answer is the listing of the new table.
pub fn get_processes(state: &mut AppState, refreshed: SystemSnapshot) -> (listing: Vec<
    ProcessInfo,
>)
    ensures
        final(state).sys == refreshed,
        final(state).cpu_history == old(state).cpu_history,
        listing@ == top_ranked(refreshed.processes@),
        listing.len() <= TOP_PROCESSES,
        listing.len() == if refreshed.processes.len() <= TOP_PROCESSES {
            refreshed.processes.len()
        } else {
            TOP_PROCESSES
        },
        never_rises(listing@),
        all_numbers(refreshed.processes@) ==> descends(listing@),
        forall|i: int|
            0 <= i < listing.len() ==> refreshed.processes@.contains(#[trigger] listing@[i]),
{
    let listing = top_processes(&refreshed.processes);
    state.sys = refreshed;
    listing
}

} // verus!
