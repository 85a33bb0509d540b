use vstd::prelude::*;

verus! {

/// How much of the decoder's diagnostics is shown.
#[derive(Debug, Clone, Copy, PartialEq, Eq, Structural)]
#[allow(non_camel_case_types, clippy::upper_case_acronyms)]
pub enum LogLevel {
    INFO,
    WARN,
    DEBUG,
    ERROR,
    TRACE,
}

/// The filter directive that selects a level.
pub open spec fn filter_of(level: LogLevel) -> Seq<char> {
    match level {
        LogLevel::INFO => "info"@,
        LogLevel::WARN => "warn"@,
        LogLevel::DEBUG => "debug"@,
        LogLevel::ERROR => "error"@,
        LogLevel::TRACE => "trace"@,
    }
}

impl LogLevel {
    /// The filter directive to hand to the logger for this level.
    pub fn filter(&self) -> (directive: &'static str)
        ensures
            directive@ == filter_of(*self),
    {
        match self {
            LogLevel::INFO => "info",
            LogLevel::WARN => "warn",
            LogLevel::DEBUG => "debug",
            LogLevel::ERROR => "error",
            LogLevel::TRACE => "trace",
        }
    }
}

} // verus!
