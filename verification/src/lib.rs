//! Process-scheduling and syscall-dispatch core of a small cooperative
//! kernel runtime.
//!
//! The crate owns the process lifecycle: a table of process control blocks,
//! a priority/nice scheduler with time-slice accounting, and a syscall
//! dispatcher that validates user-memory arguments before anything touches
//! them.  Timestamps are monotonic ticks supplied by the host on each call;
//! console output is returned to the host as lines of text, never written
//! directly.

pub mod process;
pub mod scheduler;
pub mod syscall;
pub mod laws;
