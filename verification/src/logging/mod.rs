//! Logging: appenders, retention and log shaping.
pub mod cleanup;
pub mod format;
pub mod gauge;
pub mod ifaddrs;
pub mod logger;
pub mod metric;
pub mod trace;
