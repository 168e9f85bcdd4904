//! Settings that the service reads from its environment as text.

use vstd::prelude::*;

use crate::text::same_text;

verus! {

/// How much the service logs.
#[derive(Debug, Clone, Copy, PartialEq, Eq, Structural)]
pub enum LogLevel {
    Debug,
    Normal,
    Critical,
    Off,
}

/// The level that `name` stands for: `Off` for every name but `debug`, `info`
/// and `critical`.
pub open spec fn level_of(name: Seq<char>) -> LogLevel {
    if name == "debug"@ {
        LogLevel::Debug
    } else if name == "info"@ {
        LogLevel::Normal
    } else if name == "critical"@ {
        LogLevel::Critical
    } else {
        LogLevel::Off
    }
}

/// Reads a log level from its name.
pub fn parse_level(name: &str) -> (level: LogLevel)
    ensures
        level == level_of(name@),
{
    if same_text(name, "debug") {
        LogLevel::Debug
    } else if same_text(name, "info") {
        LogLevel::Normal
    } else if same_text(name, "critical") {
        LogLevel::Critical
    } else {
        LogLevel::Off
    }
}

} // verus!
