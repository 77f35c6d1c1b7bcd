//! Crash dumps: the report of a crashed process and the dump files it leaves behind.
pub mod format;
pub mod frame_resolver;
pub mod symbols;
