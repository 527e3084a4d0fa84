//! The errors of the command line and their exit codes.
//!
//! Exit codes: 10 for an engine error, 11 for an I/O error, 12 for bad
//! input, 13 for a serialization error.

use crate::error::EngineError;
use vstd::prelude::*;
use vstd::std_specs::convert::FromSpecImpl;

verus! {

/// An error of `serde_json`.
#[verifier::external_type_specification]
#[verifier::external_body]
pub struct ExJsonError(serde_json::Error);

/// Errors produced by command-line operations.
#[derive(Debug)]
pub enum CliError {
    /// An engine-level error (unknown engine, step failure, bad dimensions).
    Engine(EngineError),
    /// An I/O error (file write, snapshot rendering).
    Io(String),
    /// A user input error (bad palette name, bad JSON params).
    Input(String),
    /// A serialization error (JSON output failure).
    Serialization(String),
}

/// `ToString::to_string` of `serde_json::Error`: the error's description.
#[verifier::external_body]
fn json_error_text(e: &serde_json::Error) -> (text: String) {
    e.to_string()
}

impl CliError {
    /// The exit code of each kind of error.
    pub open spec fn code(&self) -> i32 {
        match self {
            CliError::Engine(_) => 10,
            CliError::Io(_) => 11,
            CliError::Input(_) => 12,
            CliError::Serialization(_) => 13,
        }
    }

    /// Returns the process exit code for this error.
    pub fn exit_code(&self) -> (code: i32)
        ensures
            code == self.code(),
    {
        match self {
            CliError::Engine(_) => 10,
            CliError::Io(_) => 11,
            CliError::Input(_) => 12,
            CliError::Serialization(_) => 13,
        }
    }

    /// The text that [`CliError::message`] produces.
    pub open spec fn message_text(&self) -> Seq<char> {
        match self {
            CliError::Engine(e) => e.message_text(),
            CliError::Io(msg) => msg@,
            CliError::Input(msg) => msg@,
            CliError::Serialization(msg) => msg@,
        }
    }

    /// A human-readable description of the error.
    pub fn message(&self) -> (text: String)
        ensures
            text@ == self.message_text(),
    {
        match self {
            CliError::Engine(e) => e.message(),
            CliError::Io(msg) => msg.clone(),
            CliError::Input(msg) => msg.clone(),
            CliError::Serialization(msg) => msg.clone(),
        }
    }
}

impl From<EngineError> for CliError {
    /// An engine's I/O failure is an I/O error of the command line; every
    /// other engine error is carried as it is.
    fn from(e: EngineError) -> (r: CliError) {
        match e {
            EngineError::Io(msg) => CliError::Io(msg),
            other => CliError::Engine(other),
        }
    }
}

impl FromSpecImpl<EngineError> for CliError {
    open spec fn obeys_from_spec() -> bool {
        true
    }

    open spec fn from_spec(e: EngineError) -> CliError {
        match e {
            EngineError::Io(msg) => CliError::Io(msg),
            other => CliError::Engine(other),
        }
    }
}

impl From<serde_json::Error> for CliError {
    /// A JSON error is a serialization error with the error's description.
    fn from(e: serde_json::Error) -> (r: CliError)
        ensures
            r is Serialization,
    {
        CliError::Serialization(json_error_text(&e))
    }
}

impl FromSpecImpl<serde_json::Error> for CliError {
    open spec fn obeys_from_spec() -> bool {
        false
    }

    open spec fn from_spec(e: serde_json::Error) -> CliError {
        arbitrary()
    }
}

} // verus!
