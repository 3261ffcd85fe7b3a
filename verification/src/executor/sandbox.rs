//! The sandbox of the executor, as far as it decides and computes: which
//! symbols it accepts, and what it reports for code that was run.

use vstd::prelude::*;
use vstd::string::StringExecFns;
use crate::executor::config::Config;
use crate::executor::error::Error;
use crate::executor::parser::ParsedCode;

verus! {

/// Why a symbol without a name is refused.
pub const EMPTY_SYMBOL: &'static str = "Empty symbol";

/// What the sandbox reports for code that was run.
pub open spec fn execution_report(code: Seq<char>) -> Seq<char> {
    "Executed code:\n"@ + code + "\n\nResult: Task completed successfully"@
}

/// The sandbox of the executor.
pub struct Sandbox {
    config: Config,
}

impl Sandbox {
    /// A sandbox with a copy of the given settings.
    pub fn new(config: &Config) -> (r: Self)
        ensures
            r.is_enabled() == config.sandbox_enabled,
    {
        Sandbox { config: config.clone() }
    }

    /// Whether code runs inside the sandbox.
    pub closed spec fn is_enabled(&self) -> bool {
        self.config.sandbox_enabled
    }

    /// Whether code runs inside the sandbox.
    pub fn sandbox_enabled(&self) -> (b: bool)
        ensures
            b == self.is_enabled(),
    {
        self.config.sandbox_enabled
    }

    /// Accepts a symbol for registration. A symbol without a name is
    /// refused.
    pub fn register_symbol(&self, symbol: &str) -> (r: Result<(), Error>)
        ensures
            r is Ok == (symbol@.len() > 0),
            r matches Err(e) ==> e matches Error::SymbolRegistrationError(m) && m@ == EMPTY_SYMBOL@,
    {
        if symbol.unicode_len() == 0 {
            return Err(Error::SymbolRegistrationError(String::from_str(EMPTY_SYMBOL)));
        }
        Ok(())
    }

    /// The report for code that was run.
    pub fn execute(&self, code: &ParsedCode) -> (r: String)
        ensures
            r@ == execution_report(code.raw_code@),
    {
        let mut out = String::from_str("Executed code:\n");
        out.append(code.raw_code.as_str());
        out.append("\n\nResult: Task completed successfully");
        out
    }
}

} // verus!
