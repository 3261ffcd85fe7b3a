//! The sandbox of the system interface: which paths and which commands are
//! allowed.

use vstd::prelude::*;
use vstd::string::StringExecFns;
use crate::split::{words, words_of};
use crate::system::config::Config;
use crate::system::error::Error;
use crate::text::{chars_of, contains_string, occurs_at, occurs_at_index};

verus! {

/// A text in quotes, with what does not print escaped, as the `Debug` form
/// of a string has it.
pub uninterp spec fn debug_form(s: Seq<char>) -> Seq<char>;

/// A text in its `Debug` form.
///
/// Trusted: stands for the `Debug` formatting of `str`. The escaping rules
/// are not spelled out here; the result is only named, as a function of the
/// text.
#[verifier::external_body]
pub(crate) fn quoted(s: &str) -> (r: String)
    ensures
        r@ == debug_form(s@),
{
    format!("{:?}", s)
}

/// `path` lies within `container`: its text begins with the container's.
pub open spec fn path_within(path: Seq<char>, container: Seq<char>) -> bool {
    occurs_at(path, container, 0)
}

/// `path` lies within one of `allowed`.
pub open spec fn path_allowed(path: Seq<char>, allowed: Seq<Seq<char>>) -> bool {
    exists|i: int| 0 <= i < allowed.len() && path_within(path, #[trigger] allowed[i])
}

/// The name of a command: its first word, or nothing where it has no word.
pub open spec fn command_name(command: Seq<char>) -> Seq<char> {
    if words_of(command).len() > 0 {
        words_of(command)[0]
    } else {
        Seq::empty()
    }
}

/// Why a path outside the allowed paths is refused.
pub open spec fn path_refusal(path: Seq<char>) -> Seq<char> {
    "Path "@ + debug_form(path) + " is not within any allowed paths"@
}

/// Why a command outside the allowed commands is refused.
pub open spec fn command_refusal(command: Seq<char>) -> Seq<char> {
    "Command '"@ + command_name(command) + "' is not in the allowed list"@
}

/// Whether `path` lies within `container`.
pub fn is_path_within(path: &str, container: &str) -> (b: bool)
    ensures
        b == path_within(path@, container@),
{
    let p = chars_of(path);
    let c = chars_of(container);
    occurs_at_index(&p, &c, 0)
}

/// The sandbox of the system interface.
pub struct Sandbox {
    /// The settings that the sandbox enforces.
    pub config: Config,
}

impl Sandbox {
    /// A sandbox with a copy of the given settings.
    pub fn new(config: &Config) -> (r: Self)
        ensures
            r.config@ == config@,
    {
        Sandbox { config: config.clone() }
    }

    /// Allows a path where the sandbox is off, or where the path lies within
    /// one of the allowed paths; refuses it otherwise.
    pub fn check_path_allowed(&self, path: &str) -> (r: Result<(), Error>)
        ensures
            r is Ok == (!self.config.sandbox_enabled || path_allowed(
                path@,
                self.config@.allowed_paths,
            )),
            r matches Err(e) ==> e matches Error::PathNotAllowed(m) && m@ == path_refusal(path@),
    {
        if !self.config.sandbox_enabled {
            return Ok(());
        }
        let mut i: usize = 0;
        while i < self.config.allowed_paths.len()
            invariant
                i <= self.config.allowed_paths.len(),
                forall|j: int|
                    0 <= j < i ==> !path_within(path@, #[trigger] self.config@.allowed_paths[j]),
            decreases self.config.allowed_paths.len() - i,
        {
            assert(self.config@.allowed_paths[i as int] == self.config.allowed_paths[i as int]@);
            if is_path_within(path, self.config.allowed_paths[i].as_str()) {
                return Ok(());
            }
            i += 1;
        }
        let mut message = String::from_str("Path ");
        message.append(quoted(path).as_str());
        message.append(" is not within any allowed paths");
        Err(Error::PathNotAllowed(message))
    }

    /// Allows a command where the sandbox is off, or where its name is among
    /// the allowed commands; refuses it otherwise.
    pub fn check_command_allowed(&self, command: &str) -> (r: Result<(), Error>)
        ensures
            r is Ok == (!self.config.sandbox_enabled || self.config@.allowed_commands.contains(
                command_name(command@),
            )),
            r matches Err(e) ==> e matches Error::CommandNotAllowed(m) && m@ == command_refusal(
                command@,
            ),
    {
        if !self.config.sandbox_enabled {
            return Ok(());
        }
        let chars = chars_of(command);
        let all = words(&chars);
        let name = if all.len() > 0 {
            assert(all.deep_view()[0] == all[0]@);
            all[0].clone()
        } else {
            String::new()
        };
        if contains_string(
            &self.config.allowed_commands,
            name.as_str(),
        ) {
            return Ok(());
        }
        let mut message = String::from_str("Command '");
        message.append(name.as_str());
        message.append("' is not in the allowed list");
        Err(Error::CommandNotAllowed(message))
    }
}

} // verus!
