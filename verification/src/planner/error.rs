//! Errors of the planner.

use vstd::prelude::*;
use vstd::string::StringExecFns;

verus! {

/// What can go wrong while planning.
#[derive(Debug)]
pub enum Error {
    /// The language model could not be set up.
    LlmInitializationError(String),
    /// The model file could not be loaded.
    ModelLoadingError(String),
    /// The language model failed to generate.
    GenerationError(String),
    /// Code did not pass validation.
    ValidationError(String),
    /// The memory could not be reached.
    MemoryError(String),
    /// A rule's expression does not compile.
    InvalidPattern(String),
    /// Anything else.
    Unknown(String),
}

impl Error {
    /// The text that every message of this variant begins with.
    pub open spec fn prefix(&self) -> Seq<char> {
        match self {
            Error::LlmInitializationError(_) => "LLM initialization error: "@,
            Error::ModelLoadingError(_) => "Model loading error: "@,
            Error::GenerationError(_) => "Generation error: "@,
            Error::ValidationError(_) => "Validation error: "@,
            Error::MemoryError(_) => "Memory access error: "@,
            Error::InvalidPattern(_) => "Invalid pattern: "@,
            Error::Unknown(_) => "Unknown error: "@,
        }
    }

    /// The detail that the error carries.
    pub open spec fn detail(&self) -> Seq<char> {
        match self {
            Error::LlmInitializationError(m) => m@,
            Error::ModelLoadingError(m) => m@,
            Error::GenerationError(m) => m@,
            Error::ValidationError(m) => m@,
            Error::MemoryError(m) => m@,
            Error::InvalidPattern(m) => m@,
            Error::Unknown(m) => m@,
        }
    }

    /// The message of the error: the variant's prefix, then the detail.
    pub fn message(&self) -> (r: String)
        ensures
            r@ == self.prefix() + self.detail(),
    {
        match self {
            Error::LlmInitializationError(m) => String::from_str("LLM initialization error: ").concat(
                m.as_str(),
            ),
            Error::ModelLoadingError(m) => String::from_str("Model loading error: ").concat(
                m.as_str(),
            ),
            Error::GenerationError(m) => String::from_str("Generation error: ").concat(m.as_str()),
            Error::ValidationError(m) => String::from_str("Validation error: ").concat(m.as_str()),
            Error::MemoryError(m) => String::from_str("Memory access error: ").concat(m.as_str()),
            Error::InvalidPattern(m) => String::from_str("Invalid pattern: ").concat(m.as_str()),
            Error::Unknown(m) => String::from_str("Unknown error: ").concat(m.as_str()),
        }
    }
}

} // verus!
