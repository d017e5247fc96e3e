//! Log severity levels and the filtering rule.  Writing the log lines to a
//! file or terminal happens outside the library; the level names and the
//! threshold comparison are plain logic and live here.

use vstd::prelude::*;

verus! {

/// How severe a log message is.
#[derive(Debug, Clone, Copy, PartialEq, Eq, Structural)]
pub enum LogLevel {
    Error,
    Warn,
    Info,
    Verbose,
    Debug,
}

/// The numeric rank of a level, higher meaning more severe.
pub open spec fn severity_of(level: LogLevel) -> u8 {
    match level {
        LogLevel::Error => 4,
        LogLevel::Warn => 3,
        LogLevel::Info => 2,
        LogLevel::Verbose => 1,
        LogLevel::Debug => 0,
    }
}

impl LogLevel {
    /// The level's upper-case name.
    pub fn to_string(&self) -> (r: String)
        ensures
            r@ == match *self {
                LogLevel::Error => "ERROR"@,
                LogLevel::Warn => "WARN"@,
                LogLevel::Info => "INFO"@,
                LogLevel::Verbose => "VERBOSE"@,
                LogLevel::Debug => "DEBUG"@,
            },
    {
        match self {
            LogLevel::Error => "ERROR".to_owned(),
            LogLevel::Warn => "WARN".to_owned(),
            LogLevel::Info => "INFO".to_owned(),
            LogLevel::Verbose => "VERBOSE".to_owned(),
            LogLevel::Debug => "DEBUG".to_owned(),
        }
    }

    /// The numeric rank of this level.
    pub fn severity(&self) -> (r: u8)
        ensures
            r == severity_of(*self),
    {
        match self {
            LogLevel::Error => 4,
            LogLevel::Warn => 3,
            LogLevel::Info => 2,
            LogLevel::Verbose => 1,
            LogLevel::Debug => 0,
        }
    }

    /// Whether a message at this level passes a logger whose threshold is
    /// `threshold`: it does exactly when it is at least as severe.
    pub fn should_log(&self, threshold: &LogLevel) -> (r: bool)
        ensures
            r == (severity_of(*self) >= severity_of(*threshold)),
    {
        self.severity() >= threshold.severity()
    }
}

} // verus!
