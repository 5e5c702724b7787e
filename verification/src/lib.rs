//! A command-line batch runner: executes an ordered list of shell commands
//! with a bounded degree of concurrency, forwards each command's captured
//! output in spawn order, and aggregates the per-command outcomes into one
//! exit status.

pub mod command;
pub mod scheduler;
