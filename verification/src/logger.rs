//! Log messages that are handed to a frontend.
use crate::text;
use vstd::prelude::*;

verus! {

/// How much a message matters, the most important first.
#[derive(Debug, Clone, Copy, PartialEq, Eq, Structural)]
pub enum LogLevel {
    Error,
    Warn,
    Info,
    Debug,
    Trace,
}

impl LogLevel {
    /// Whether a frontend is told of messages of this level.
    pub open spec fn is_told(self) -> bool {
        self == LogLevel::Error || self == LogLevel::Warn || self == LogLevel::Info
    }

    /// The name of the level.
    pub open spec fn name_text(self) -> Seq<char> {
        match self {
            LogLevel::Error => "ERROR"@,
            LogLevel::Warn => "WARN"@,
            LogLevel::Info => "INFO"@,
            LogLevel::Debug => "DEBUG"@,
            LogLevel::Trace => "TRACE"@,
        }
    }

    /// The name of the level.
    pub fn name(&self) -> (name: &'static str)
        ensures
            name@ == self.name_text(),
    {
        match self {
            LogLevel::Error => "ERROR",
            LogLevel::Warn => "WARN",
            LogLevel::Info => "INFO",
            LogLevel::Debug => "DEBUG",
            LogLevel::Trace => "TRACE",
        }
    }
}

/// What a frontend is told of a message: nothing if it matters too little, and
/// else its level and its text. A message with a NUL cannot be told.
pub fn log_message(level: LogLevel, message: &str) -> (told: Option<String>)
    requires
        level.is_told() ==> !message@.contains('\0'),
    ensures
        told is Some <==> level.is_told(),
        told matches Some(content) ==> content@ == level.name_text() + " - "@ + message@,
{
    match level {
        LogLevel::Debug | LogLevel::Trace => None,
        _ => Some(text::concat3(level.name(), " - ", message)),
    }
}

/// A frontend is told of errors, warnings and information and of nothing below
/// them: a level that is told stands before every level that is not.
pub proof fn law_what_matters_is_told(level: LogLevel)
    ensures
        level is Error || level is Warn || level is Info ==> level.is_told(),
        level is Debug || level is Trace ==> !level.is_told(),
        level is Error ==> level.name_text() == "ERROR"@,
        level is Warn ==> level.name_text() == "WARN"@,
        level is Info ==> level.name_text() == "INFO"@,
        level is Debug ==> level.name_text() == "DEBUG"@,
        level is Trace ==> level.name_text() == "TRACE"@,
{
}

} // verus!
