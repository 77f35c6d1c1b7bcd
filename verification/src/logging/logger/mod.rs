//! Log appenders.
pub mod async_appender;
pub mod byte_buffer;
pub mod chunks;
pub mod json;
pub mod log_date;
pub mod rolling_file;
pub mod wrapping;
