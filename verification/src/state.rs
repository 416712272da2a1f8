//! The shared state of the monitor: the snapshot of the system as it was
//! last read, and the CPU history.
//!
//! The counters themselves live with the caller, who refreshes them and
//! tells the monitor what they read afterwards. Every operation takes the
//! state by reference and runs to its end without failing, so a caller who
//! shares the state among threads holds it exclusively for one operation at
//! a time, and no operation leaves it half updated.

use crate::cpu::CpuUsage;
use crate::history::{initial_history, CpuHistoryBuffer};
use crate::process::ProcessInfo;
use vstd::prelude::*;

verus! {

/// What the system's counters read when they were last refreshed.
#[derive(Debug, PartialEq, Eq)]
pub struct SystemSnapshot {
    /// The system-wide CPU utilisation.
    pub global_cpu_usage: CpuUsage,
    /// Installed memory in bytes.
    pub total_memory: u64,
    /// Memory in use in bytes. It is taken as read, not held against
    /// `total_memory`.
    pub used_memory: u64,
    /// The process table, in the order in which it was read.
    pub processes: Vec<ProcessInfo>,
}

/// What a refresh of the memory and CPU counters brings.
#[derive(Clone, Copy, Debug, PartialEq, Eq)]
pub struct CounterReadings {
    pub global_cpu_usage: CpuUsage,
    pub total_memory: u64,
    pub used_memory: u64,
}

/// The state that all operations share.
#[derive(Debug)]
pub struct AppState {
    pub sys: SystemSnapshot,
    pub cpu_history: CpuHistoryBuffer,
}

impl SystemSnapshot {
    /// Whether the process table lists a process with identifier `pid`.
    pub open spec fn spec_has_process(&self, pid: u32) -> bool {
        exists|i: int| 0 <= i < self.processes@.len() && (#[trigger] self.processes@[i]).pid == pid
    }

    /// Looks `pid` up in the process table.
    #[verifier::when_used_as_spec(spec_has_process)]
    pub fn has_process(&self, pid: u32) -> (listed: bool)
        ensures
            listed == self.has_process(pid),
    {
        let mut index: usize = 0;
        while index < self.processes.len()
            invariant
                index <= self.processes@.len(),
                forall|i: int| 0 <= i < index ==> (#[trigger] self.processes@[i]).pid != pid,
            decreases self.processes@.len() - index,
        {
            if self.processes[index].pid == pid {
                return true;
            }
            index += 1;
        }
        false
    }
}

impl AppState {
    /// The state at start: the first snapshot and a history of zeros.
    pub fn new(sys: SystemSnapshot) -> (state: AppState)
        ensures
            state.sys == sys,
            state.cpu_history@ == initial_history(),
    {
        AppState { sys, cpu_history: CpuHistoryBuffer::new() }
    }
}

} // verus!
