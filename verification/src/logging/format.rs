//! The log formats a server writes: each one's type, file stem and retention, and the
//! metric tags under which written logs are counted.
use vstd::prelude::*;

verus! {

/// The formats of the logs a server writes.
#[derive(Debug, Clone, Copy, PartialEq, Eq, Structural)]
pub enum LogFormat {
    Metric,
    Request,
    Service,
    Trace,
}

/// The type of log entries of the format, as written in their `type` field.
pub open spec fn spec_log_type(f: LogFormat) -> Seq<char> {
    match f {
        LogFormat::Metric => "metric.1"@,
        LogFormat::Request => "request.2"@,
        LogFormat::Service => "service.1"@,
        LogFormat::Trace => "trace.1"@,
    }
}

/// The stem of the format's log file names.
pub open spec fn spec_file_stem(f: LogFormat) -> Seq<char> {
    match f {
        LogFormat::Metric => "metric"@,
        LogFormat::Request => "request"@,
        LogFormat::Service => "service"@,
        LogFormat::Trace => "trace"@,
    }
}

/// How many GiB the archives of the format may take together.
pub open spec fn spec_size_limit_gb(f: LogFormat) -> u32 {
    match f {
        LogFormat::Metric | LogFormat::Trace => 1,
        LogFormat::Request | LogFormat::Service => 5,
    }
}

/// How many days the archives of the format are kept.
pub open spec fn spec_time_limit_days(f: LogFormat) -> u32 {
    match f {
        LogFormat::Metric | LogFormat::Trace => 5,
        LogFormat::Request | LogFormat::Service => 30,
    }
}

impl LogFormat {
    /// The type of the format's entries.
    pub fn log_type(self) -> (r: &'static str)
        ensures
            r@ == spec_log_type(self),
    {
        match self {
            LogFormat::Metric => "metric.1",
            LogFormat::Request => "request.2",
            LogFormat::Service => "service.1",
            LogFormat::Trace => "trace.1",
        }
    }

    /// The stem of the format's file names.
    pub fn file_stem(self) -> (r: &'static str)
        ensures
            r@ == spec_file_stem(self),
    {
        match self {
            LogFormat::Metric => "metric",
            LogFormat::Request => "request",
            LogFormat::Service => "service",
            LogFormat::Trace => "trace",
        }
    }

    /// How many GiB the format's archives may take.
    pub fn size_limit_gb(self) -> (r: u32)
        ensures
            r == spec_size_limit_gb(self),
    {
        match self {
            LogFormat::Metric | LogFormat::Trace => 1,
            LogFormat::Request | LogFormat::Service => 5,
        }
    }

    /// How many days the format's archives are kept.
    pub fn time_limit_days(self) -> (r: u32)
        ensures
            r == spec_time_limit_days(self),
    {
        match self {
            LogFormat::Metric | LogFormat::Trace => 5,
            LogFormat::Request | LogFormat::Service => 30,
        }
    }
}

/// The level of a service log entry.
#[derive(Debug, Clone, Copy, PartialEq, Eq, Structural)]
pub enum LogLevel {
    Fatal,
    Error,
    Warn,
    Info,
    Debug,
    Trace,
}

/// The `level` tag of the meter that counts service log entries of a level.
pub open spec fn spec_level_tag(l: LogLevel) -> Seq<char> {
    match l {
        LogLevel::Fatal => "fatal"@,
        LogLevel::Error => "error"@,
        LogLevel::Warn => "warn"@,
        LogLevel::Info => "info"@,
        LogLevel::Debug => "debug"@,
        LogLevel::Trace => "trace"@,
    }
}

/// The name of the meters that count written log entries.
pub open spec fn spec_meter_name() -> Seq<char> {
    "logging.sls"@
}

/// The name of the meters that count written log entries.
pub fn meter_name() -> (r: &'static str)
    ensures
        r@ == spec_meter_name(),
{
    "logging.sls"
}

/// The `level` tag of the meter that counts service log entries of this level.
pub fn level_tag(l: LogLevel) -> (r: &'static str)
    ensures
        r@ == spec_level_tag(l),
{
    match l {
        LogLevel::Fatal => "fatal",
        LogLevel::Error => "error",
        LogLevel::Warn => "warn",
        LogLevel::Info => "info",
        LogLevel::Debug => "debug",
        LogLevel::Trace => "trace",
    }
}

/// The tags of the meter that counts written entries of a format: its type, and for
/// service logs the entry's level as well.
pub fn meter_tags(f: LogFormat, level: Option<LogLevel>) -> (r: Vec<(&'static str, &'static str)>)
    requires
        level is Some <==> f == LogFormat::Service,
    ensures
        r@.len() == if level is Some { 2int } else { 1int },
        r@[0].0@ == "type"@,
        r@[0].1@ == spec_log_type(f),
        level matches Some(l) ==> r@[1].0@ == "level"@ && r@[1].1@ == spec_level_tag(l),
{
    let mut r = vec![("type", f.log_type())];
    match level {
        Some(l) => r.push(("level", level_tag(l))),
        None => {},
    }
    r
}

} // verus!
