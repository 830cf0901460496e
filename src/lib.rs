//! A status-line server library: metric sources that refresh on their own
//! intervals, a per-interface throughput tracker, and the composition of
//! their outputs into one line.
pub mod text;
pub mod time;
pub mod source;
pub mod network;
pub mod meminfo;
pub mod memory;
pub mod swap;
pub mod loadavg;
pub mod cpufreq;
pub mod battery;
pub mod clock;
