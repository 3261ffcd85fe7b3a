//! Commands and the environment, as far as the core decides and computes.

use vstd::prelude::*;
use vstd::string::StringExecFns;
use crate::system::error::Error;
use crate::system::sandbox::{command_name, command_refusal, Sandbox};

verus! {

/// What the system reports of itself.
pub const OS_INFO: &'static str = "Linux 5.15.0";

/// What running a command gave.
#[derive(Debug)]
pub struct ShellResult {
    /// What the command wrote to its output.
    pub stdout: String,
    /// What the command wrote to its error output.
    pub stderr: String,
    /// The exit code.
    pub code: i32,
}

/// Why the environment is closed inside the sandbox.
pub open spec fn environment_refusal(name: Seq<char>) -> Seq<char> {
    "Access to environment variable "@ + name + " is not allowed in sandbox mode"@
}

/// Runs a command that the sandbox allows: it reports the command and exits
/// with success. A command that the sandbox refuses is not run.
pub fn execute(command: &str, sandbox: &Sandbox) -> (r: Result<ShellResult, Error>)
    ensures
        r is Ok == (!sandbox.config.sandbox_enabled || sandbox.config@.allowed_commands.contains(
            command_name(command@),
        )),
        r matches Ok(out) ==> out.stdout@ == "Output of command: "@ + command@ && out.stderr@
            == Seq::<char>::empty() && out.code == 0,
        r matches Err(e) ==> e matches Error::CommandNotAllowed(m) && m@ == command_refusal(
            command@,
        ),
{
    match sandbox.check_command_allowed(command) {
        Ok(()) => {},
        Err(e) => {
            return Err(e);
        },
    }
    let mut stdout = String::from_str("Output of command: ");
    stdout.append(command);
    Ok(ShellResult { stdout, stderr: String::new(), code: 0 })
}

/// What the system reports of itself.
pub fn get_os_info() -> (r: Result<String, Error>)
    ensures
        r matches Ok(info) && info@ == OS_INFO@,
{
    Ok(String::from_str(OS_INFO))
}

/// The value of an environment variable. Inside the sandbox the environment
/// is closed.
pub fn get_env_var(name: &str, sandbox: &Sandbox) -> (r: Result<String, Error>)
    ensures
        r is Ok == !sandbox.config.sandbox_enabled,
        r matches Ok(v) ==> v@ == "Value of "@ + name@,
        r matches Err(e) ==> e matches Error::PermissionDenied(m) && m@ == environment_refusal(
            name@,
        ),
{
    if !sandbox.config.sandbox_enabled {
        let mut value = String::from_str("Value of ");
        value.append(name);
        Ok(value)
    } else {
        let mut message = String::from_str("Access to environment variable ");
        message.append(name);
        message.append(" is not allowed in sandbox mode");
        Err(Error::PermissionDenied(message))
    }
}

} // verus!
