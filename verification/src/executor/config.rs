//! Settings of the executor.

use vstd::prelude::*;
use vstd::string::StringExecFns;

verus! {

/// Settings of the executor.
#[derive(Debug)]
pub struct Config {
    /// How long code may run, in milliseconds.
    pub max_execution_time_ms: u64,
    /// How much memory code may use, in bytes.
    pub max_memory_bytes: usize,
    /// Whether code may use the file system.
    pub allow_file_system: bool,
    /// Whether code may run commands.
    pub allow_shell: bool,
    /// Whether code may use the network.
    pub allow_network: bool,
    /// Whether code runs inside the sandbox.
    pub sandbox_enabled: bool,
    /// The directory through which input and output files pass.
    pub input_directory: String,
}

impl Default for Config {
    fn default() -> (r: Self)
        ensures
            r.max_execution_time_ms == 5000,
            r.max_memory_bytes == 104857600,
            r.allow_file_system,
            r.allow_shell,
            r.allow_network,
            r.sandbox_enabled,
            r.input_directory@ == "./input_files"@,
    {
        Config {
            max_execution_time_ms: 5000,
            max_memory_bytes: 104857600,
            allow_file_system: true,
            allow_shell: true,
            allow_network: true,
            sandbox_enabled: true,
            input_directory: String::from_str("./input_files"),
        }
    }
}

impl Clone for Config {
    fn clone(&self) -> (r: Self)
        ensures
            r.max_execution_time_ms == self.max_execution_time_ms,
            r.max_memory_bytes == self.max_memory_bytes,
            r.allow_file_system == self.allow_file_system,
            r.allow_shell == self.allow_shell,
            r.allow_network == self.allow_network,
            r.sandbox_enabled == self.sandbox_enabled,
            r.input_directory@ == self.input_directory@,
    {
        Config {
            max_execution_time_ms: self.max_execution_time_ms,
            max_memory_bytes: self.max_memory_bytes,
            allow_file_system: self.allow_file_system,
            allow_shell: self.allow_shell,
            allow_network: self.allow_network,
            sandbox_enabled: self.sandbox_enabled,
            input_directory: self.input_directory.clone(),
        }
    }
}

impl Config {
    /// Settings with the given limits and permissions, inside the sandbox.
    pub fn new(
        max_execution_time_ms: u64,
        max_memory_bytes: usize,
        allow_file_system: bool,
        allow_shell: bool,
        allow_network: bool,
        input_directory: &str,
    ) -> (r: Self)
        ensures
            r.max_execution_time_ms == max_execution_time_ms,
            r.max_memory_bytes == max_memory_bytes,
            r.allow_file_system == allow_file_system,
            r.allow_shell == allow_shell,
            r.allow_network == allow_network,
            r.sandbox_enabled,
            r.input_directory@ == input_directory@,
    {
        Config {
            max_execution_time_ms,
            max_memory_bytes,
            allow_file_system,
            allow_shell,
            allow_network,
            sandbox_enabled: true,
            input_directory: String::from_str(input_directory),
        }
    }
}

} // verus!
