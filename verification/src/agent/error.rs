//! Errors of the agent as a whole.

use vstd::prelude::*;
use vstd::string::StringExecFns;

verus! {

/// What can go wrong in the agent.
#[derive(Debug)]
pub enum Error {
    /// A component could not be set up.
    InitializationError(String),
    /// The planner failed.
    PlannerError(String),
    /// The executor failed.
    ExecutorError(String),
    /// The memory failed.
    MemoryError(String),
    /// The browser failed.
    BrowserError(String),
    /// The system interface failed.
    SystemError(String),
    /// The configuration is not usable.
    ConfigError(String),
    /// Anything else.
    Unknown(String),
}

impl Error {
    /// The text that every message of this variant begins with.
    pub open spec fn prefix(&self) -> Seq<char> {
        match self {
            Error::InitializationError(_) => "Initialization error: "@,
            Error::PlannerError(_) => "Planner error: "@,
            Error::ExecutorError(_) => "Executor error: "@,
            Error::MemoryError(_) => "Memory error: "@,
            Error::BrowserError(_) => "Browser error: "@,
            Error::SystemError(_) => "System error: "@,
            Error::ConfigError(_) => "Configuration error: "@,
            Error::Unknown(_) => "Unknown error: "@,
        }
    }

    /// The detail that the error carries.
    pub open spec fn detail(&self) -> Seq<char> {
        match self {
            Error::InitializationError(m) => m@,
            Error::PlannerError(m) => m@,
            Error::ExecutorError(m) => m@,
            Error::MemoryError(m) => m@,
            Error::BrowserError(m) => m@,
            Error::SystemError(m) => m@,
            Error::ConfigError(m) => m@,
            Error::Unknown(m) => m@,
        }
    }

    /// The message of the error: the variant's prefix, then the detail.
    pub fn message(&self) -> (r: String)
        ensures
            r@ == self.prefix() + self.detail(),
    {
        match self {
            Error::InitializationError(m) => String::from_str("Initialization error: ").concat(m.as_str()),
            Error::PlannerError(m) => String::from_str("Planner error: ").concat(m.as_str()),
            Error::ExecutorError(m) => String::from_str("Executor error: ").concat(m.as_str()),
            Error::MemoryError(m) => String::from_str("Memory error: ").concat(m.as_str()),
            Error::BrowserError(m) => String::from_str("Browser error: ").concat(m.as_str()),
            Error::SystemError(m) => String::from_str("System error: ").concat(m.as_str()),
            Error::ConfigError(m) => String::from_str("Configuration error: ").concat(m.as_str()),
            Error::Unknown(m) => String::from_str("Unknown error: ").concat(m.as_str()),
        }
    }
}

} // verus!
