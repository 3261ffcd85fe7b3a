//! Prompts for the language model, and validation of code.

use vstd::prelude::*;
use vstd::string::StringExecFns;
use crate::planner::config::Config;
use crate::planner::error::Error;
use crate::text::{contains, contains_seq};

verus! {

/// How the request that ends every prompt begins.
pub const REQUEST_FOR_CODE: &'static str = "Generate Anarchy-Inference code to accomplish this";

/// How the request that ends every prompt goes on.
pub const REQUEST_FOR_SYNTAX: &'static str =
    " task. Use the symbolic syntax (e.g., !, ↗, 📂, etc.) for all operations. The code should be complete and executable.";

/// Why code without a function definition is refused.
pub const NO_FUNCTION: &'static str = "Generated code does not contain any function definitions";

/// Why code that neither returns nor prints is refused.
pub const NO_OUTPUT: &'static str = "Generated code does not contain return or print statements";

/// The prompt for a task: the system prompt, the task, the context from
/// memory, and the request for code.
pub open spec fn prompt_for(system_prompt: Seq<char>, task: Seq<char>, context: Seq<char>) -> Seq<
    char,
> {
    system_prompt + "\n\nTask: "@ + task + "\n\nRelevant Context:\n"@ + context + "\n\n"@
        + REQUEST_FOR_CODE@ + REQUEST_FOR_SYNTAX@
}

/// Builds the prompt that asks the language model for code.
pub fn create_prompt(task_description: &str, context: &str, config: &Config) -> (r: String)
    ensures
        r@ == prompt_for(config.system_prompt@, task_description@, context@),
{
    let mut prompt = config.system_prompt.clone();
    prompt.append("\n\nTask: ");
    prompt.append(task_description);
    prompt.append("\n\nRelevant Context:\n");
    prompt.append(context);
    prompt.append("\n\n");
    prompt.append(REQUEST_FOR_CODE);
    prompt.append(REQUEST_FOR_SYNTAX);
    prompt
}

/// Code defines a function.
pub open spec fn has_function(code: Seq<char>) -> bool {
    contains_seq(code, "ƒ"@)
}

/// Code returns or prints.
pub open spec fn has_output(code: Seq<char>) -> bool {
    contains_seq(code, "⟼"@) || contains_seq(code, "⌽"@)
}

/// Code passes validation: it defines a function, and returns or prints.
pub open spec fn is_valid(code: Seq<char>) -> bool {
    has_function(code) && has_output(code)
}

/// Code calls the entry point.
pub open spec fn calls_main(code: Seq<char>) -> bool {
    contains_seq(code, "main()"@) || contains_seq(code, "ƒmain()"@)
}

/// `code` as the body of the entry point, followed by its call.
pub open spec fn with_entry_point(code: Seq<char>) -> Seq<char> {
    "ƒmain() {\n"@ + code + "\n}\n\nmain();"@
}

/// Valid code as it is handed on: itself where it calls the entry point,
/// else wrapped into one.
pub open spec fn repaired(code: Seq<char>) -> Seq<char> {
    if calls_main(code) {
        code
    } else {
        with_entry_point(code)
    }
}

/// Whether code passes validation.
pub fn is_valid_code(code: &str) -> (b: bool)
    ensures
        b == is_valid(code@),
{
    contains(code, "ƒ") && (contains(code, "⟼") || contains(code, "⌽"))
}

/// Validates code. Code without a function definition is refused, and so is
/// code that neither returns nor prints. Valid code that never calls the
/// entry point is wrapped into one; that is a repair, not a failure.
pub fn validate_code(code: &str) -> (r: Result<String, Error>)
    ensures
        r is Ok == is_valid(code@),
        r matches Ok(c) ==> c@ == repaired(code@),
        r matches Err(e) ==> e matches Error::ValidationError(m) && m@ == if !has_function(code@) {
            NO_FUNCTION@
        } else {
            NO_OUTPUT@
        },
{
    if !contains(code, "ƒ") {
        return Err(Error::ValidationError(String::from_str(NO_FUNCTION)));
    }
    if !contains(code, "⟼") && !contains(code, "⌽") {
        return Err(Error::ValidationError(String::from_str(NO_OUTPUT)));
    }
    if !contains(code, "main()") && !contains(code, "ƒmain()") {
        let mut out = String::from_str("ƒmain() {\n");
        out.append(code);
        out.append("\n}\n\nmain();");
        return Ok(out);
    }
    Ok(String::from_str(code))
}

} // verus!
