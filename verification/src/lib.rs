//! Aggregate user-mode and kernel-mode CPU time of the host.
//!
//! The crate holds the rules by which raw scheduler tick counters become
//! durations: how the first line of the kernel's statistics text is cut into
//! fields and read, how per-core records of a host query are decoded and
//! summed, how the outcome of each operating-system call is judged, and how
//! the tick frequency is resolved once and kept. The operating-system calls
//! themselves are made by the caller, who hands their plain results in.

pub mod clock_ticks;
pub mod decimal;
pub mod duration;
pub mod error;
pub mod fields;
pub mod host_info;
pub mod proc_stat;

pub use clock_ticks::{clock_ticks, sysconf_clock_ticks, TickCache};
pub use duration::{ticks_to_duration, CpuStats};
pub use error::StatsError;
pub use host_info::{
    core_totals, cpu_stats, deallocate_host_port, decode_processor_info, get_host_processor_info,
    CoreTicks,
};
pub use proc_stat::{parse_to_duration, read_proc_stat_cpu};
