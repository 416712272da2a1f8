//! The aggregate statistics of one request.

use crate::cpu::CpuUsage;
use crate::disk::{disk_usage, primary_disk_usage, primary_index, DiskVolume};
use crate::history::{record, HISTORY_CAPACITY};
use crate::state::{AppState, CounterReadings};
use vstd::prelude::*;

verus! {

/// One answer to a request for statistics.
#[derive(Debug, PartialEq, Eq)]
pub struct SystemStats {
    /// Installed memory in bytes.
    pub total_memory: u64,
    /// Memory in use in bytes.
    pub used_memory: u64,
    /// The CPU sample of this answer.
    pub cpu_usage: CpuUsage,
    /// Seconds since the system started.
    pub uptime: u64,
    /// The recent CPU samples, oldest first, this answer's sample last.
    pub cpu_history: Vec<CpuUsage>,
    /// Size of the primary volume in bytes, zero without one.
    pub disk_total: u64,
    /// Used space of the primary volume in bytes, zero without one.
    pub disk_used: u64,
}

/// Answers a request for statistics.
///
/// `refreshed` holds the memory and CPU counters as they were read for
/// this request, `disks` the volumes as they were listed for it, `uptime`
/// the system's uptime.
///
/// The CPU sample of the answer is the reading that the state held when
/// the request came in, so the one that the latest refresh before this
/// request left; the reading of this request's refresh waits in the state
/// to be the next sample. The sample is recorded in the history, and the
/// answer carries a copy of the history as it is then. The memory figures
/// are the refreshed ones. The disk figures are those of the primary
/// volume, or zero where no volume qualifies. The process table is left
/// alone. The request cannot fail.
pub fn get_stats(
    state: &mut AppState,
    refreshed: CounterReadings,
    disks: &Vec<DiskVolume>,
    uptime: u64,
) -> (stats: SystemStats)
    ensures
        final(state).sys.global_cpu_usage == refreshed.global_cpu_usage,
        final(state).sys.total_memory == refreshed.total_memory,
        final(state).sys.used_memory == refreshed.used_memory,
        final(state).sys.processes == old(state).sys.processes,
        final(state).cpu_history@ == record(
            old(state).cpu_history@,
            old(state).sys.global_cpu_usage,
        ),
        stats.cpu_usage == old(state).sys.global_cpu_usage,
        stats.cpu_history@ == final(state).cpu_history@,
        stats.cpu_history@.len() == HISTORY_CAPACITY,
        stats.cpu_history@[HISTORY_CAPACITY - 1] == stats.cpu_usage,
        stats.total_memory == refreshed.total_memory,
        stats.used_memory == refreshed.used_memory,
        stats.uptime == uptime,
        (stats.disk_total as int, stats.disk_used as int) == disk_usage(disks@),
        primary_index(disks@) is None ==> stats.disk_total == 0 && stats.disk_used == 0,
        disks.len() == 0 ==> stats.disk_total == 0 && stats.disk_used == 0,
{
    let current_cpu = state.sys.global_cpu_usage;
    state.sys.global_cpu_usage = refreshed.global_cpu_usage;
    state.sys.total_memory = refreshed.total_memory;
    state.sys.used_memory = refreshed.used_memory;
    let (disk_total, disk_used) = primary_disk_usage(disks);
    state.cpu_history.push(current_cpu);
    SystemStats {
        total_memory: state.sys.total_memory,
        used_memory: state.sys.used_memory,
        cpu_usage: current_cpu,
        uptime,
        cpu_history: state.cpu_history.to_vec(),
        disk_total,
        disk_used,
    }
}

} // verus!
