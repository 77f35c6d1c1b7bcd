//! Process metrics.
pub mod jemalloc;
pub mod proc;
pub mod rusage;
