//! The rolling history of CPU samples: a queue of fixed length that is
//! filled with zeros at the start and forgets its oldest sample whenever a
//! new one arrives.

use crate::cpu::CpuUsage;
use vstd::prelude::*;

verus! {

/// The number of samples the history holds.
pub const HISTORY_CAPACITY: usize = 60;

/// The last `count` items of `items`, or all of them where there are fewer.
pub open spec fn most_recent(items: Seq<CpuUsage>, count: nat) -> Seq<CpuUsage> {
    if items.len() <= count {
        items
    } else {
        items.subrange(items.len() - count, items.len() as int)
    }
}

/// What a new history holds: `HISTORY_CAPACITY` zeros.
pub open spec fn initial_history() -> Seq<CpuUsage> {
    Seq::new(HISTORY_CAPACITY as nat, |i: int| CpuUsage::zero())
}

/// The history after one more sample: the sample goes to the tail, and the
/// head leaves once there are more than `HISTORY_CAPACITY` samples.
pub open spec fn record(history: Seq<CpuUsage>, sample: CpuUsage) -> Seq<CpuUsage> {
    most_recent(history.push(sample), HISTORY_CAPACITY as nat)
}

/// The history after the samples of `samples` were recorded one by one,
/// first to last.
pub open spec fn record_all(history: Seq<CpuUsage>, samples: Seq<CpuUsage>) -> Seq<CpuUsage>
    decreases samples.len(),
{
    if samples.len() == 0 {
        history
    } else {
        record(record_all(history, samples.drop_last()), samples.last())
    }
}

/// The most recent CPU samples: a ring of `HISTORY_CAPACITY` slots, of
/// which one is marked as holding the oldest sample. A new sample takes
/// that slot, and the mark moves on to the next.
#[derive(Debug)]
pub struct CpuHistoryBuffer {
    slots: [CpuUsage; HISTORY_CAPACITY],
    oldest: usize,
}

impl View for CpuHistoryBuffer {
    type V = Seq<CpuUsage>;

    /// The samples, oldest first.
    closed spec fn view(&self) -> Seq<CpuUsage> {
        Seq::new(
            HISTORY_CAPACITY as nat,
            |i: int| self.slots@[(self.oldest + i) % (HISTORY_CAPACITY as int)],
        )
    }
}

impl CpuHistoryBuffer {
    #[verifier::type_invariant]
    spec fn mark_is_a_slot(self) -> bool {
        self.oldest < HISTORY_CAPACITY
    }

    /// A history of `HISTORY_CAPACITY` zeros.
    pub fn new() -> (history: CpuHistoryBuffer)
        ensures
            history@ == initial_history(),
    {
        CpuHistoryBuffer { slots: [CpuUsage::zero();HISTORY_CAPACITY], oldest: 0 }
    }

    /// Appends `sample` and evicts the oldest sample.
    pub fn push(&mut self, sample: CpuUsage)
        ensures
            final(self)@ == record(old(self)@, sample),
            final(self)@ == old(self)@.drop_first().push(sample),
            final(self)@.len() == HISTORY_CAPACITY,
    {
        proof {
            use_type_invariant(&*self);
        }
        self.slots[self.oldest] = sample;
        self.oldest = if self.oldest + 1 == HISTORY_CAPACITY {
            0
        } else {
            self.oldest + 1
        };
    }

    /// The number of samples held: always `HISTORY_CAPACITY`.
    pub fn len(&self) -> (n: usize)
        ensures
            n == self@.len(),
            n == HISTORY_CAPACITY,
    {
        HISTORY_CAPACITY
    }

    /// The sample at `index`, counted from the oldest.
    pub fn get(&self, index: usize) -> (sample: Option<CpuUsage>)
        ensures
            index < HISTORY_CAPACITY ==> sample == Some(self@[index as int]),
            index >= HISTORY_CAPACITY ==> sample is None,
    {
        proof {
            use_type_invariant(self);
        }
        if index < HISTORY_CAPACITY {
            Some(self.slots[(self.oldest + index) % HISTORY_CAPACITY])
        } else {
            None
        }
    }

    /// A copy of the samples, oldest first.
    pub fn to_vec(&self) -> (samples: Vec<CpuUsage>)
        ensures
            samples@ == self@,
            samples.len() == HISTORY_CAPACITY,
    {
        proof {
            use_type_invariant(self);
        }
        let mut samples: Vec<CpuUsage> = Vec::new();
        let mut index: usize = 0;
        while index < HISTORY_CAPACITY
            invariant
                index <= HISTORY_CAPACITY,
                self.oldest < HISTORY_CAPACITY,
                samples@ == self@.subrange(0, index as int),
            decreases HISTORY_CAPACITY - index,
        {
            samples.push(self.slots[(self.oldest + index) % HISTORY_CAPACITY]);
            index += 1;
        }
        samples
    }
}

/// A history always holds `HISTORY_CAPACITY` samples.
pub proof fn law_history_length(history: CpuHistoryBuffer)
    ensures
        history@.len() == HISTORY_CAPACITY,
{
}

/// Recording keeps a full history full.
pub proof fn law_record_keeps_length(history: Seq<CpuUsage>, sample: CpuUsage)
    requires
        history.len() == HISTORY_CAPACITY,
    ensures
        record(history, sample).len() == HISTORY_CAPACITY,
        record(history, sample) == history.drop_first().push(sample),
{
}

/// Recording any run of samples into a history that is not over its
/// capacity leaves the most recent `HISTORY_CAPACITY` of the old history
/// followed by the samples.
pub proof fn law_record_all_is_most_recent(history: Seq<CpuUsage>, samples: Seq<CpuUsage>)
    requires
        history.len() <= HISTORY_CAPACITY,
    ensures
        record_all(history, samples) == most_recent(history + samples, HISTORY_CAPACITY as nat),
    decreases samples.len(),
{
    if samples.len() > 0 {
        law_record_all_is_most_recent(history, samples.drop_last());
    }
}

/// Whatever was recorded since the start, the history holds exactly
/// `HISTORY_CAPACITY` samples.
pub proof fn law_history_is_always_full(samples: Seq<CpuUsage>)
    ensures
        record_all(initial_history(), samples).len() == HISTORY_CAPACITY,
{
    law_record_all_is_most_recent(initial_history(), samples);
}

/// After fewer samples than the capacity, the history is the initial zeros
/// with its last entries replaced by the samples, in the order they came.
pub proof fn law_history_while_filling(samples: Seq<CpuUsage>)
    requires
        samples.len() < HISTORY_CAPACITY,
    ensures
        record_all(initial_history(), samples) == initial_history().subrange(
            0,
            HISTORY_CAPACITY - samples.len(),
        ) + samples,
        forall|i: int|
            0 <= i < HISTORY_CAPACITY - samples.len() ==> record_all(initial_history(), samples)[i]
                == CpuUsage::zero(),
        forall|i: int|
            0 <= i < samples.len() ==> record_all(initial_history(), samples)[HISTORY_CAPACITY
                - samples.len() + i] == samples[i],
{
    law_record_all_is_most_recent(initial_history(), samples);
}

/// Once at least as many samples as the capacity were recorded, the history
/// is exactly the last `HISTORY_CAPACITY` of them, in the order they came:
/// the oldest sample is the first to leave.
pub proof fn law_history_once_full(samples: Seq<CpuUsage>)
    requires
        samples.len() >= HISTORY_CAPACITY,
    ensures
        record_all(initial_history(), samples) == samples.subrange(
            samples.len() - HISTORY_CAPACITY,
            samples.len() as int,
        ),
{
    law_record_all_is_most_recent(initial_history(), samples);
}

} // verus!
