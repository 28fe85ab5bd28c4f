//! The rule by which log records are filtered and laid out.
//!
//! Nothing in the decoding of a save depends on this module. A program that
//! uses the library may hand its log records to a `Logger` and print the lines
//! that come back.

use vstd::prelude::*;

verus! {

/// The severity of a log record, from the most to the least severe.
#[derive(Debug, Clone, Copy, PartialEq, Eq)]
pub enum Level {
    Error,
    Warn,
    Info,
    Debug,
    Trace,
}

impl Level {
    /// The rank of the level: the more verbose, the greater.
    pub open spec fn verbosity(self) -> int {
        match self {
            Level::Error => 1,
            Level::Warn => 2,
            Level::Info => 3,
            Level::Debug => 4,
            Level::Trace => 5,
        }
    }

    /// The word that opens a line logged at this level.
    pub open spec fn prefix_text(self) -> Seq<char> {
        match self {
            Level::Error => "error"@,
            Level::Warn => "warn"@,
            Level::Info => "info"@,
            Level::Debug => "debug"@,
            Level::Trace => "trace"@,
        }
    }

    /// The word that opens a line logged at this level.
    pub fn prefix(&self) -> (word: &'static str)
        ensures
            word@ == self.prefix_text(),
    {
        match self {
            Level::Error => "error",
            Level::Warn => "warn",
            Level::Info => "info",
            Level::Debug => "debug",
            Level::Trace => "trace",
        }
    }
}

/// A logger that lets records through up to the level `Debug`.
pub struct Logger;

impl Logger {
    /// Whether records of this level are let through.
    pub open spec fn admits(level: Level) -> bool {
        level.verbosity() <= Level::Debug.verbosity()
    }

    /// The line that a record is logged as: its prefix, a colon, a space and
    /// the message.
    pub open spec fn line_text(level: Level, message: Seq<char>) -> Seq<char> {
        level.prefix_text() + ": "@ + message
    }

    /// Whether records of this level are let through.
    pub fn enabled(&self, level: Level) -> (enabled: bool)
        ensures
            enabled == Self::admits(level),
    {
        match level {
            Level::Trace => false,
            _ => true,
        }
    }

    /// The line to print for a record, or `None` where its level is not let
    /// through.
    pub fn log(&self, level: Level, message: &str) -> (line: Option<String>)
        ensures
            match line {
                Some(text) => Self::admits(level) && text@ == Self::line_text(level, message@),
                None => !Self::admits(level),
            },
    {
        if !self.enabled(level) {
            return None;
        }
        let prefix = level.prefix();
        Some(String::from_str(prefix).concat(": ").concat(message))
    }
}

} // verus!
