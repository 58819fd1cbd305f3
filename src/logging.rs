use vstd::prelude::*;

verus! {

/// Severity of a log record, from the most verbose to the most severe.
#[derive(Debug, Clone, Copy, PartialEq, Eq)]
pub enum LogLevel {
    Trace,
    Debug,
    Info,
    Warn,
    Error,
}

pub open spec fn level_number(level: LogLevel) -> u8 {
    match level {
        LogLevel::Trace => 10,
        LogLevel::Debug => 20,
        LogLevel::Info => 30,
        LogLevel::Warn => 40,
        LogLevel::Error => 50,
    }
}

/// The numeric level written in each log line.
pub fn get_level(level: LogLevel) -> (r: u8)
    ensures
        r == level_number(level),
{
    match level {
        LogLevel::Trace => 10,
        LogLevel::Debug => 20,
        LogLevel::Info => 30,
        LogLevel::Warn => 40,
        LogLevel::Error => 50,
    }
}

/// The least severe level that is logged, named in configuration; `info`
/// when the name is not one of the five.
pub open spec fn level_named(name: Seq<char>) -> LogLevel {
    if name == "error"@ {
        LogLevel::Error
    } else if name == "warn"@ {
        LogLevel::Warn
    } else if name == "info"@ {
        LogLevel::Info
    } else if name == "debug"@ {
        LogLevel::Debug
    } else if name == "trace"@ {
        LogLevel::Trace
    } else {
        LogLevel::Info
    }
}

pub fn level_filter_of(name: &String) -> (r: LogLevel)
    ensures
        r == level_named(name@),
{
    if *name == String::from_str("error") {
        LogLevel::Error
    } else if *name == String::from_str("warn") {
        LogLevel::Warn
    } else if *name == String::from_str("info") {
        LogLevel::Info
    } else if *name == String::from_str("debug") {
        LogLevel::Debug
    } else if *name == String::from_str("trace") {
        LogLevel::Trace
    } else {
        LogLevel::Info
    }
}

} // verus!
