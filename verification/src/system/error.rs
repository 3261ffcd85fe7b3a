//! Errors of the system interface.

use vstd::prelude::*;
use vstd::string::StringExecFns;

verus! {

/// What can go wrong at the system interface.
#[derive(Debug)]
pub enum Error {
    /// The sandbox could not be set up.
    SandboxInitializationError(String),
    /// A file operation failed.
    FileSystemError(String),
    /// A command failed.
    ShellExecutionError(String),
    /// The sandbox forbids the operation.
    PermissionDenied(String),
    /// The path lies outside the allowed paths.
    PathNotAllowed(String),
    /// The command is not among the allowed ones.
    CommandNotAllowed(String),
    /// The operation took too long.
    TimeoutError(String),
    /// Anything else.
    Unknown(String),
}

impl Error {
    /// The text that every message of this variant begins with.
    pub open spec fn prefix(&self) -> Seq<char> {
        match self {
            Error::SandboxInitializationError(_) => "Sandbox initialization error: "@,
            Error::FileSystemError(_) => "File system error: "@,
            Error::ShellExecutionError(_) => "Shell execution error: "@,
            Error::PermissionDenied(_) => "Permission denied: "@,
            Error::PathNotAllowed(_) => "Path not allowed: "@,
            Error::CommandNotAllowed(_) => "Command not allowed: "@,
            Error::TimeoutError(_) => "Timeout error: "@,
            Error::Unknown(_) => "Unknown error: "@,
        }
    }

    /// The detail that the error carries.
    pub open spec fn detail(&self) -> Seq<char> {
        match self {
            Error::SandboxInitializationError(m) => m@,
            Error::FileSystemError(m) => m@,
            Error::ShellExecutionError(m) => m@,
            Error::PermissionDenied(m) => m@,
            Error::PathNotAllowed(m) => m@,
            Error::CommandNotAllowed(m) => m@,
            Error::TimeoutError(m) => m@,
            Error::Unknown(m) => m@,
        }
    }

    /// The message of the error: the variant's prefix, then the detail.
    pub fn message(&self) -> (r: String)
        ensures
            r@ == self.prefix() + self.detail(),
    {
        match self {
            Error::SandboxInitializationError(m) => String::from_str("Sandbox initialization error: ").concat(m.as_str()),
            Error::FileSystemError(m) => String::from_str("File system error: ").concat(m.as_str()),
            Error::ShellExecutionError(m) => String::from_str("Shell execution error: ").concat(m.as_str()),
            Error::PermissionDenied(m) => String::from_str("Permission denied: ").concat(m.as_str()),
            Error::PathNotAllowed(m) => String::from_str("Path not allowed: ").concat(m.as_str()),
            Error::CommandNotAllowed(m) => String::from_str("Command not allowed: ").concat(m.as_str()),
            Error::TimeoutError(m) => String::from_str("Timeout error: ").concat(m.as_str()),
            Error::Unknown(m) => String::from_str("Unknown error: ").concat(m.as_str()),
        }
    }
}

} // verus!
