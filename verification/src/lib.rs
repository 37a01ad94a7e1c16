//! A teaching simulator of operating-system CPU scheduling: a process table,
//! a multi-level feedback queue scheduler and the statistics that observe it.

pub mod process;
pub mod scheduler;
pub mod shell;
