//! The errors of the tool.
use vstd::prelude::*;

use crate::text::{cat, copy_str};

verus! {

/// What can go wrong while the tool runs.
#[derive(Debug)]
pub enum SorobanGuardError {
    /// A file could not be read or written; the system's message.
    Io(String),
    Parse(String),
    FileNotFound(String),
    NoContractsFound(String),
    Config(String),
    Analysis(String),
    Report(String),
}

/// The result of the tool's fallible steps.
pub type Result<T> = core::result::Result<T, SorobanGuardError>;

impl SorobanGuardError {
    /// The text the error is shown with.
    pub open spec fn text(self) -> Seq<char> {
        match self {
            SorobanGuardError::Io(m) => "IO error: "@ + m@,
            SorobanGuardError::Parse(m) => "Parse error: "@ + m@,
            SorobanGuardError::FileNotFound(m) => "File not found: "@ + m@,
            SorobanGuardError::NoContractsFound(m) => "No Soroban contracts found: "@ + m@,
            SorobanGuardError::Config(m) => "Configuration error: "@ + m@,
            SorobanGuardError::Analysis(m) => "Analysis error: "@ + m@,
            SorobanGuardError::Report(m) => "Report error: "@ + m@,
        }
    }

    /// The text the error is shown with, such as `Parse error: ..`.
    pub fn message(&self) -> (r: String)
        ensures
            r@ == self.text(),
    {
        match self {
            SorobanGuardError::Io(m) => cat(copy_str("IO error: "), m.as_str()),
            SorobanGuardError::Parse(m) => cat(copy_str("Parse error: "), m.as_str()),
            SorobanGuardError::FileNotFound(m) => cat(copy_str("File not found: "), m.as_str()),
            SorobanGuardError::NoContractsFound(m) => cat(copy_str("No Soroban contracts found: "), m.as_str()),
            SorobanGuardError::Config(m) => cat(copy_str("Configuration error: "), m.as_str()),
            SorobanGuardError::Analysis(m) => cat(copy_str("Analysis error: "), m.as_str()),
            SorobanGuardError::Report(m) => cat(copy_str("Report error: "), m.as_str()),
        }
    }
}

} // verus!
