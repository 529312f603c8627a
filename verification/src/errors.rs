//! The failures that slugifying text and renaming paths can report.

use vstd::prelude::*;
use vstd::string::StringExecFns;

verus! {

/// A failure, with the message that describes it.
#[derive(Debug, Clone)]
pub enum Error {
    /// The filesystem refused an operation, or a requested file is missing.
    IOError(String),
    /// The pattern generated for a separator is not a valid pattern.
    PatternCompilationError(String),
    /// The configuration could not be loaded.
    ConfigLoadError(String),
    /// The options contradict each other.
    ConfigError(String),
}

impl Error {
    /// The name of the kind of failure.
    pub open spec fn variant_name(self) -> Seq<char> {
        match self {
            Error::IOError(_) => "IOError"@,
            Error::PatternCompilationError(_) => "PatternCompilationError"@,
            Error::ConfigError(_) => "ConfigError"@,
            Error::ConfigLoadError(_) => "ConfigLoadError"@,
        }
    }

    /// The message that the failure carries.
    pub open spec fn message_text(self) -> Seq<char> {
        match self {
            Error::IOError(m) => m@,
            Error::PatternCompilationError(m) => m@,
            Error::ConfigError(m) => m@,
            Error::ConfigLoadError(m) => m@,
        }
    }

    /// The name of the kind of failure.
    pub fn variant(&self) -> (name: String)
        ensures
            name@ == self.variant_name(),
    {
        match self {
            Error::IOError(_) => String::from_str("IOError"),
            Error::PatternCompilationError(_) => String::from_str("PatternCompilationError"),
            Error::ConfigError(_) => String::from_str("ConfigError"),
            Error::ConfigLoadError(_) => String::from_str("ConfigLoadError"),
        }
    }

    /// The message that the failure carries.
    pub fn message(&self) -> (message: &str)
        ensures
            message@ == self.message_text(),
    {
        match self {
            Error::IOError(m) => m.as_str(),
            Error::PatternCompilationError(m) => m.as_str(),
            Error::ConfigError(m) => m.as_str(),
            Error::ConfigLoadError(m) => m.as_str(),
        }
    }

    /// The failure as one line of text: the name of its kind, directly
    /// followed by its message.
    pub fn to_text(&self) -> (text: String)
        ensures
            text@ == self.variant_name() + self.message_text(),
    {
        let mut text = self.variant();
        text.append(self.message());
        text
    }
}

} // verus!
