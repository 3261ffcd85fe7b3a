//! The parser of the executor: a first check of code before it is run.

use vstd::prelude::*;
use vstd::string::StringExecFns;
use crate::executor::config::Config;
use crate::executor::error::Error;
use crate::split::{trim_bounds, trimmed};
use crate::text::{chars_of, contains, contains_seq};

verus! {

/// Why code of nothing but whitespace is refused.
pub const EMPTY_CODE: &'static str = "Empty code";

/// Why code without a function or library definition is refused.
pub const NO_DEFINITION: &'static str =
    "Code does not contain any function or library definitions";

/// Code that passed the parser.
#[derive(Debug)]
pub struct ParsedCode {
    /// The code as it was given.
    pub raw_code: String,
}

/// Code is nothing but whitespace.
pub open spec fn is_blank(code: Seq<char>) -> bool {
    trimmed(code).len() == 0
}

/// Code defines a function or a library.
pub open spec fn has_definition(code: Seq<char>) -> bool {
    contains_seq(code, "ƒ"@) || contains_seq(code, "λ"@)
}

/// The parser.
pub struct Parser {
    config: Config,
}

impl Parser {
    /// The settings of the parser.
    pub closed spec fn settings(&self) -> Config {
        self.config
    }

    /// A parser with the given settings.
    pub fn new(config: Config) -> (r: Self)
        ensures
            r.settings() == config,
    {
        Parser { config }
    }

    /// Parses code. Code of nothing but whitespace is refused, and so is
    /// code without a function or library definition.
    pub fn parse(&self, code: &str) -> (r: Result<ParsedCode, Error>)
        ensures
            r is Ok == (!is_blank(code@) && has_definition(code@)),
            r matches Ok(p) ==> p.raw_code@ == code@,
            r matches Err(e) ==> e matches Error::CodeParsingError(m) && m@ == if is_blank(code@) {
                EMPTY_CODE@
            } else {
                NO_DEFINITION@
            },
    {
        let chars = chars_of(code);
        let (start, end) = trim_bounds(&chars);
        if start == end {
            return Err(Error::CodeParsingError(String::from_str(EMPTY_CODE)));
        }
        if !contains(code, "ƒ") && !contains(code, "λ") {
            return Err(Error::CodeParsingError(String::from_str(NO_DEFINITION)));
        }
        Ok(ParsedCode { raw_code: String::from_str(code) })
    }
}

/// Parses code with the default settings.
pub fn parse(code: &str) -> (r: Result<ParsedCode, Error>)
    ensures
        r is Ok == (!is_blank(code@) && has_definition(code@)),
        r matches Ok(p) ==> p.raw_code@ == code@,
        r matches Err(e) ==> e matches Error::CodeParsingError(m) && m@ == if is_blank(code@) {
            EMPTY_CODE@
        } else {
            NO_DEFINITION@
        },
{
    let parser = Parser::new(Config::default());
    parser.parse(code)
}

} // verus!
