//! Log severity levels and their mapping to the native platform's log
//! priority numbers.

use vstd::prelude::*;

verus! {

/// A log severity level, ordered from most to least severe.
#[derive(Clone, Copy, PartialEq, Eq, Structural, Debug)]
pub enum LogLevel {
    Error,
    Warn,
    Info,
    Debug,
    Trace,
}

impl LogLevel {
    /// The native platform's priority number for this level.
    pub open spec fn priority_spec(self) -> u32 {
        match self {
            LogLevel::Error => 6,
            LogLevel::Warn => 5,
            LogLevel::Info => 4,
            LogLevel::Debug => 3,
            LogLevel::Trace => 2,
        }
    }

    /// Maps this level to the native platform's log priority number.
    pub fn android_priority(self) -> (p: u32)
        ensures
            p == self.priority_spec(),
    {
        match self {
            LogLevel::Error => 6,
            LogLevel::Warn => 5,
            LogLevel::Info => 4,
            LogLevel::Debug => 3,
            LogLevel::Trace => 2,
        }
    }
}

} // verus!
