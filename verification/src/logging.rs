//! How much the tool logs.
use vstd::prelude::*;

verus! {

/// The levels the tool can log at.
#[derive(Clone, Copy, Debug, PartialEq, Eq, Structural)]
pub enum LogLevel {
    Off,
    Info,
    Debug,
}

/// The level that a command-line verbosity selects: 2 is debug, 1 is info,
/// anything else turns logging off.
pub fn log_level_for(verbosity: i32) -> (level: LogLevel)
    ensures
        level == (if verbosity == 2 {
            LogLevel::Debug
        } else if verbosity == 1 {
            LogLevel::Info
        } else {
            LogLevel::Off
        }),
{
    if verbosity == 2 {
        LogLevel::Debug
    } else if verbosity == 1 {
        LogLevel::Info
    } else {
        LogLevel::Off
    }
}

} // verus!
