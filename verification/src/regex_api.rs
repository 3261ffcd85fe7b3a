//! The regular-expression engine, as far as the pattern catalog uses it.
//!
//! Compiling and matching are done by the `regex` crate. Nothing in this file
//! is proved: each function states what the crate's documentation says of the
//! call it makes, and the results that take a regex engine to compute are only
//! named, as functions of the pattern text and the searched text.

use vstd::prelude::*;
use regex::Regex;

verus! {

/// A compiled regular expression; opaque to the verifier.
#[verifier::external_type_specification]
#[verifier::external_body]
pub struct ExRegex(regex::Regex);

/// The pattern text that a compiled expression was made from
/// (`Regex::as_str`).
pub uninterp spec fn regex_source(re: Regex) -> Seq<char>;

/// Whether a compiled expression was made by `Regex::new`, that is with the
/// engine's default options. Only of such an expression does the pattern
/// text alone decide what it matches: a builder with other options gives an
/// expression of the same text that matches differently.
pub uninterp spec fn made_by_new(re: Regex) -> bool;

/// Whether `Regex::new` accepts the pattern text.
pub uninterp spec fn pattern_compiles(pattern: Seq<char>) -> bool;

/// The names of the capture groups of a pattern, one entry per group in the
/// order of their opening parentheses, `None` for a group without a name
/// (`Regex::capture_names`).
pub uninterp spec fn group_names(pattern: Seq<char>) -> Seq<Option<Seq<char>>>;

/// The leftmost match of a pattern in a text: `None` where the pattern matches
/// nowhere, else for each capture group what it matched, `None` for a group
/// that took no part in the match (`Regex::captures`).
pub uninterp spec fn leftmost_match(pattern: Seq<char>, text: Seq<char>) -> Option<
    Seq<Option<Seq<char>>>,
>;

/// Compiles a pattern.
///
/// Trusted: stands for `Regex::new`; a failure is handed on as the message of
/// the engine's error. Claims that the call succeeds exactly on the pattern
/// texts that `pattern_compiles` names, and that the compiled expression
/// was made by `Regex::new` and remembers the text it was given. Nothing is
/// claimed of the message.
#[verifier::external_body]
pub(crate) fn compile(pattern: &str) -> (r: Result<Regex, String>)
    ensures
        r is Ok == pattern_compiles(pattern@),
        r matches Ok(re) ==> made_by_new(re) && regex_source(re) == pattern@,
{
    Regex::new(pattern).map_err(|e| e.to_string())
}

/// The capture-group names of a compiled expression.
///
/// Trusted: stands for `Regex::capture_names`, each name copied into an owned
/// string. Claims, of an expression that `Regex::new` made, that the result
/// is what `group_names` names for the source of the expression.
#[verifier::external_body]
pub(crate) fn capture_names(re: &Regex) -> (r: Vec<Option<String>>)
    requires
        made_by_new(*re),
    ensures
        r.deep_view() == group_names(regex_source(*re)),
{
    re.capture_names().map(|name| name.map(|s| s.to_string())).collect()
}

/// The leftmost match of a compiled expression in `text`.
///
/// Trusted: stands for `Regex::captures`, each group of the `Captures` copied
/// into an owned string in the order `Captures::iter` yields them. Claims,
/// of an expression that `Regex::new` made, that the result is what
/// `leftmost_match` names for the source of the expression and the text.
#[verifier::external_body]
pub(crate) fn captures(re: &Regex, text: &str) -> (r: Option<Vec<Option<String>>>)
    requires
        made_by_new(*re),
    ensures
        r.deep_view() == leftmost_match(regex_source(*re), text@),
{
    re.captures(text).map(|caps| caps.iter().map(|m| m.map(|m| m.as_str().to_string())).collect())
}

} // verus!
