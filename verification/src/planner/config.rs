//! Settings of the planner.

use vstd::prelude::*;
use vstd::string::StringExecFns;

verus! {

/// The instruction that every prompt begins with unless another is set.
pub const DEFAULT_SYSTEM_PROMPT: &'static str =
    "You are an AI assistant that generates Anarchy-Inference code to accomplish tasks. Use the symbolic syntax (e.g., !, ↗, 📂, etc.) for all operations.";

/// Settings of the planner.
#[derive(Debug)]
pub struct Config {
    /// The instruction that every prompt begins with.
    pub system_prompt: String,
    /// How many tokens the language model may generate.
    pub max_tokens: usize,
    /// How many reasoning steps are remembered.
    pub max_history_size: usize,
    /// Whether the pattern rules are tried before the language model.
    pub use_reasoning_system: bool,
}

impl Default for Config {
    fn default() -> (r: Self)
        ensures
            r.system_prompt@ == DEFAULT_SYSTEM_PROMPT@,
            r.max_tokens == 1000,
            r.max_history_size == 20,
            r.use_reasoning_system,
    {
        Config {
            system_prompt: String::from_str(DEFAULT_SYSTEM_PROMPT),
            max_tokens: 1000,
            max_history_size: 20,
            use_reasoning_system: true,
        }
    }
}

} // verus!
