//! The core of a host monitor.
//!
//! The monitor answers three requests: for aggregate statistics, for the
//! listing of the busiest processes, and for the termination of a process.
//! This crate holds what the answers are made of: CPU samples and their
//! rolling history, the choice of the primary disk volume, the ranking of
//! the process table, and the decisions and replies of a termination
//! request. All of it is verified.
//!
//! The crate never touches the operating system. Its caller refreshes the
//! counters, lists the volumes and signals processes, and tells the core
//! what came of it in plain values; the core keeps what has to last from one
//! request to the next in an [`AppState`].

pub mod control;
pub mod cpu;
pub mod disk;
pub mod history;
pub mod process;
pub mod ranking;
pub mod state;
pub mod stats;
pub mod text;

pub use control::{kill_process, kill_reply, KillStep};
pub use cpu::CpuUsage;
pub use disk::DiskVolume;
pub use history::CpuHistoryBuffer;
pub use process::{get_processes, top_processes, ProcessInfo};
pub use state::{AppState, CounterReadings, SystemSnapshot};
pub use stats::{get_stats, SystemStats};
