//! What a node is told when it starts: how much it logs, and where its
//! inlet listens.

use crate::text::same_text;
use vstd::prelude::*;

verus! {

/// How much a node logs.
#[derive(Clone, Copy, Debug, PartialEq, Eq, Structural)]
pub enum LogLevel {
    Error,
    Warn,
    Info,
    Debug,
    Trace,
}

/// The level that a name stands for: each level's name in lower case for
/// that level, anything else for `Info`.
pub open spec fn level_of(name: Seq<char>) -> LogLevel {
    if name == "error"@ {
        LogLevel::Error
    } else if name == "warn"@ {
        LogLevel::Warn
    } else if name == "debug"@ {
        LogLevel::Debug
    } else if name == "trace"@ {
        LogLevel::Trace
    } else {
        LogLevel::Info
    }
}

/// The level at which a node logs: the one that the name given stands for,
/// and `Info` where no name is given.
pub fn log_level(name: Option<&str>) -> (level: LogLevel)
    ensures
        level == match name {
            Some(name) => level_of(name@),
            None => LogLevel::Info,
        },
{
    match name {
        Some(name) => {
            if same_text(name, "error") {
                LogLevel::Error
            } else if same_text(name, "warn") {
                LogLevel::Warn
            } else if same_text(name, "debug") {
                LogLevel::Debug
            } else if same_text(name, "trace") {
                LogLevel::Trace
            } else {
                LogLevel::Info
            }
        },
        None => LogLevel::Info,
    }
}

/// The address at which the inlet listens: the one given, and
/// `0.0.0.0:3034` where none is given.
pub fn api_address(given: Option<String>) -> (address: String)
    ensures
        address@ == match given {
            Some(address) => address@,
            None => "0.0.0.0:3034"@,
        },
{
    match given {
        Some(address) => address,
        None => "0.0.0.0:3034".to_owned(),
    }
}

} // verus!
