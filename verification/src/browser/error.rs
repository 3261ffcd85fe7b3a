//! Errors of the browser.

use vstd::prelude::*;
use vstd::string::StringExecFns;

verus! {

/// What can go wrong in the browser.
#[derive(Debug)]
pub enum Error {
    /// The browser could not be started.
    BrowserInitializationError(String),
    /// A page could not be opened.
    NavigationError(String),
    /// An element could not be used.
    ElementInteractionError(String),
    /// A script failed.
    JavaScriptError(String),
    /// The operation took too long.
    TimeoutError(String),
    /// Anything else.
    Unknown(String),
}

impl Error {
    /// The text that every message of this variant begins with.
    pub open spec fn prefix(&self) -> Seq<char> {
        match self {
            Error::BrowserInitializationError(_) => "Browser initialization error: "@,
            Error::NavigationError(_) => "Navigation error: "@,
            Error::ElementInteractionError(_) => "Element interaction error: "@,
            Error::JavaScriptError(_) => "JavaScript execution error: "@,
            Error::TimeoutError(_) => "Timeout error: "@,
            Error::Unknown(_) => "Unknown error: "@,
        }
    }

    /// The detail that the error carries.
    pub open spec fn detail(&self) -> Seq<char> {
        match self {
            Error::BrowserInitializationError(m) => m@,
            Error::NavigationError(m) => m@,
            Error::ElementInteractionError(m) => m@,
            Error::JavaScriptError(m) => m@,
            Error::TimeoutError(m) => m@,
            Error::Unknown(m) => m@,
        }
    }

    /// The message of the error: the variant's prefix, then the detail.
    pub fn message(&self) -> (r: String)
        ensures
            r@ == self.prefix() + self.detail(),
    {
        match self {
            Error::BrowserInitializationError(m) => String::from_str("Browser initialization error: ").concat(m.as_str()),
            Error::NavigationError(m) => String::from_str("Navigation error: ").concat(m.as_str()),
            Error::ElementInteractionError(m) => String::from_str("Element interaction error: ").concat(m.as_str()),
            Error::JavaScriptError(m) => String::from_str("JavaScript execution error: ").concat(m.as_str()),
            Error::TimeoutError(m) => String::from_str("Timeout error: ").concat(m.as_str()),
            Error::Unknown(m) => String::from_str("Unknown error: ").concat(m.as_str()),
        }
    }
}

} // verus!
