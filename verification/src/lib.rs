//! Verified core of a Witchcraft server: log file rotation and retention, buffered
//! byte sinks, the asynchronous log queue, readiness checks, metric and trace log
//! shaping, and the log wire types.
pub mod api;
pub mod logging;
pub mod metrics;
pub mod minidump;
pub mod readiness;
pub mod text;
