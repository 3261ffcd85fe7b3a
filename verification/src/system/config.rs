//! Settings of the system interface.

use vstd::prelude::*;
use vstd::string::StringExecFns;
use crate::text::clone_strings;

verus! {

/// Settings of the system interface.
#[derive(Debug)]
pub struct Config {
    /// The directory in which file operations take place.
    pub working_directory: String,
    /// Whether operations are held to the allowed paths and commands.
    pub sandbox_enabled: bool,
    /// The paths under which file operations are allowed.
    pub allowed_paths: Vec<String>,
    /// The commands that may be run.
    pub allowed_commands: Vec<String>,
    /// How long a command may run, in seconds.
    pub command_timeout: u64,
}

/// What a [`Config`] holds.
pub struct ConfigView {
    pub working_directory: Seq<char>,
    pub sandbox_enabled: bool,
    pub allowed_paths: Seq<Seq<char>>,
    pub allowed_commands: Seq<Seq<char>>,
    pub command_timeout: u64,
}

impl View for Config {
    type V = ConfigView;

    open spec fn view(&self) -> ConfigView {
        ConfigView {
            working_directory: self.working_directory@,
            sandbox_enabled: self.sandbox_enabled,
            allowed_paths: self.allowed_paths.deep_view(),
            allowed_commands: self.allowed_commands.deep_view(),
            command_timeout: self.command_timeout,
        }
    }
}

impl Default for Config {
    fn default() -> (r: Self)
        ensures
            r@ == (ConfigView {
                working_directory: "./workspace"@,
                sandbox_enabled: true,
                allowed_paths: seq!["./workspace"@],
                allowed_commands: seq!["ls"@, "cat"@, "grep"@, "find"@, "echo"@],
                command_timeout: 10,
            }),
    {
        let mut allowed_paths: Vec<String> = Vec::new();
        allowed_paths.push(String::from_str("./workspace"));
        let mut allowed_commands: Vec<String> = Vec::new();
        allowed_commands.push(String::from_str("ls"));
        allowed_commands.push(String::from_str("cat"));
        allowed_commands.push(String::from_str("grep"));
        allowed_commands.push(String::from_str("find"));
        allowed_commands.push(String::from_str("echo"));
        assert(allowed_paths.deep_view() =~= seq!["./workspace"@]);
        assert(allowed_commands.deep_view() =~= seq!["ls"@, "cat"@, "grep"@, "find"@, "echo"@]);
        Config {
            working_directory: String::from_str("./workspace"),
            sandbox_enabled: true,
            allowed_paths,
            allowed_commands,
            command_timeout: 10,
        }
    }
}

impl Clone for Config {
    fn clone(&self) -> (r: Self)
        ensures
            r@ == self@,
    {
        Config {
            working_directory: self.working_directory.clone(),
            sandbox_enabled: self.sandbox_enabled,
            allowed_paths: clone_strings(&self.allowed_paths),
            allowed_commands: clone_strings(&self.allowed_commands),
            command_timeout: self.command_timeout,
        }
    }
}

} // verus!
