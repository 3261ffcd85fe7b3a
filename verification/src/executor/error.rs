//! Errors of the executor.

use vstd::prelude::*;
use vstd::string::StringExecFns;

verus! {

/// What can go wrong while code is run.
#[derive(Debug)]
pub enum Error {
    /// The sandbox could not be set up.
    SandboxInitializationError(String),
    /// The code failed while it ran.
    CodeExecutionError(String),
    /// A symbol could not be registered.
    SymbolRegistrationError(String),
    /// The code could not be parsed.
    CodeParsingError(String),
    /// The sandbox could not be shut down.
    SandboxShutdownError(String),
    /// Input could not be read.
    InputError(String),
    /// Output could not be written.
    OutputError(String),
    /// Waiting for a file failed.
    FileWaitError(String),
}

impl Error {
    /// The text that every message of this variant begins with.
    pub open spec fn prefix(&self) -> Seq<char> {
        match self {
            Error::SandboxInitializationError(_) => "Sandbox initialization error: "@,
            Error::CodeExecutionError(_) => "Code execution error: "@,
            Error::SymbolRegistrationError(_) => "Symbol registration error: "@,
            Error::CodeParsingError(_) => "Code parsing error: "@,
            Error::SandboxShutdownError(_) => "Sandbox shutdown error: "@,
            Error::InputError(_) => "Input error: "@,
            Error::OutputError(_) => "Output error: "@,
            Error::FileWaitError(_) => "File wait error: "@,
        }
    }

    /// The detail that the error carries.
    pub open spec fn detail(&self) -> Seq<char> {
        match self {
            Error::SandboxInitializationError(m) => m@,
            Error::CodeExecutionError(m) => m@,
            Error::SymbolRegistrationError(m) => m@,
            Error::CodeParsingError(m) => m@,
            Error::SandboxShutdownError(m) => m@,
            Error::InputError(m) => m@,
            Error::OutputError(m) => m@,
            Error::FileWaitError(m) => m@,
        }
    }

    /// The message of the error: the variant's prefix, then the detail.
    pub fn message(&self) -> (r: String)
        ensures
            r@ == self.prefix() + self.detail(),
    {
        match self {
            Error::SandboxInitializationError(m) => String::from_str("Sandbox initialization error: ").concat(m.as_str()),
            Error::CodeExecutionError(m) => String::from_str("Code execution error: ").concat(m.as_str()),
            Error::SymbolRegistrationError(m) => String::from_str("Symbol registration error: ").concat(m.as_str()),
            Error::CodeParsingError(m) => String::from_str("Code parsing error: ").concat(m.as_str()),
            Error::SandboxShutdownError(m) => String::from_str("Sandbox shutdown error: ").concat(m.as_str()),
            Error::InputError(m) => String::from_str("Input error: ").concat(m.as_str()),
            Error::OutputError(m) => String::from_str("Output error: ").concat(m.as_str()),
            Error::FileWaitError(m) => String::from_str("File wait error: ").concat(m.as_str()),
        }
    }
}

} // verus!
