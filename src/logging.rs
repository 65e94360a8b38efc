use vstd::prelude::*;

verus! {

/// The least severe messages that are shown.
#[derive(Debug, Clone, Copy, PartialEq, Eq, Structural)]
pub enum LogLevel {
    Warn,
    Info,
    Debug,
}

/// No flag shows warnings and errors, one adds informational messages, two or
/// more add debug messages.
pub open spec fn level_for(verbosity: u8) -> LogLevel {
    if verbosity == 0 {
        LogLevel::Warn
    } else if verbosity == 1 {
        LogLevel::Info
    } else {
        LogLevel::Debug
    }
}

/// The level shown for the number of times verbosity was asked for.
pub fn log_level(verbosity: u8) -> (r: LogLevel)
    ensures
        r == level_for(verbosity),
{
    match verbosity {
        0 => LogLevel::Warn,
        1 => LogLevel::Info,
        _ => LogLevel::Debug,
    }
}

} // verus!
