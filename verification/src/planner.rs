//! The planner: from a task description to validated code.
//!
//! A plan is made in two moves. The first retrieves context from memory,
//! synthesises code from the pattern rules, and either has valid code or
//! knows the prompt to put to the language model. The second validates what
//! the language model answered. Calling the model lies between the two and is
//! the caller's part.

use vstd::prelude::*;
use crate::memory::{after_context, context_from, Memory};
use crate::planner::config::Config;
use crate::planner::error::Error;
use crate::planner::planning::{
    calls_main,
    create_prompt,
    has_function,
    is_valid,
    is_valid_code,
    prompt_for,
    repaired,
    validate_code,
    NO_FUNCTION,
    NO_OUTPUT,
};
use crate::planner::reasoning::pattern_matcher::{
    all_compile,
    catalog_of,
    matches_of,
    rendered,
    with_pattern,
    Pattern,
    PatternMatchView,
    PatternView,
};
use crate::planner::reasoning::reasoning_system::{
    justification,
    with_step,
    ReasoningStep,
    ReasoningStepView,
    ReasoningSystem,
};
use crate::planner::reasoning::template_engine::{
    code_for,
    generic_code,
    has_entry_point,
    wrapped_code,
};
use crate::regex_api::pattern_compiles;
use crate::text::occurs_at;

pub mod config;
pub mod defaults;
pub mod error;
pub mod planning;
pub mod reasoning;

verus! {

/// How far the first move of a plan got.
#[derive(Debug)]
pub enum PlanStep {
    /// The pattern rules gave valid code: the plan is made.
    Ready(String),
    /// The pattern rules gave no valid code: the language model is to be
    /// asked with this prompt.
    NeedsGeneration(String),
}

/// The generic code passes validation and calls the entry point.
pub proof fn lemma_generic_code_valid(task: Seq<char>)
    ensures
        is_valid(generic_code(task)),
        calls_main(generic_code(task)),
{
    reveal_strlit("ƒmain() {\n    // Task: ");
    reveal_strlit("\n    ⌽(\"Starting task: ");
    reveal_strlit(
        "\");\n    \n    // TODO: Implement task-specific logic\n    \n    ⟼(\"Task completed\");\n}\n\nmain();",
    );
    reveal_strlit("ƒ");
    reveal_strlit("⟼");
    reveal_strlit("main()");
    let code = generic_code(task);
    let tail =
        "\");\n    \n    // TODO: Implement task-specific logic\n    \n    ⟼(\"Task completed\");\n}\n\nmain();"@;
    let base = code.len() - tail.len();
    assert(code.subrange(0, 1) =~= "ƒ"@);
    assert(occurs_at(code, "ƒ"@, 0));
    assert forall|k: int| 0 <= k < tail.len() implies code[base + k] == tail[k] by {}
    assert(code.subrange(base + 61, base + 62) =~= "⟼"@);
    assert(occurs_at(code, "⟼"@, base + 61));
    assert(code.subrange(base + 85, base + 91) =~= "main()"@);
    assert(occurs_at(code, "main()"@, base + 85));
}

/// Code wrapped into an entry point passes validation and calls the entry
/// point.
pub proof fn lemma_wrapped_code_valid(task: Seq<char>, inner: Seq<char>)
    ensures
        is_valid(wrapped_code(task, inner)),
        calls_main(wrapped_code(task, inner)),
{
    reveal_strlit("ƒmain() {\n    // Task: ");
    reveal_strlit("\n    ");
    reveal_strlit("\n    \n    ⟼(\"Task completed\");\n}\n\nmain();");
    reveal_strlit("ƒ");
    reveal_strlit("⟼");
    reveal_strlit("main()");
    let code = wrapped_code(task, inner);
    let tail = "\n    \n    ⟼(\"Task completed\");\n}\n\nmain();"@;
    let base = code.len() - tail.len();
    assert(code.subrange(0, 1) =~= "ƒ"@);
    assert(occurs_at(code, "ƒ"@, 0));
    assert forall|k: int| 0 <= k < tail.len() implies code[base + k] == tail[k] by {}
    assert(code.subrange(base + 10, base + 11) =~= "⟼"@);
    assert(occurs_at(code, "⟼"@, base + 10));
    assert(code.subrange(base + 34, base + 40) =~= "main()"@);
    assert(occurs_at(code, "main()"@, base + 34));
}

/// Code synthesised from the pattern rules always calls the entry point, so
/// the validator's repair leaves it as it is; and it passes validation
/// wherever no rule matched or the first match brings no entry point of its
/// own.
pub proof fn lemma_code_for(matches: Seq<PatternMatchView>, task: Seq<char>)
    ensures
        calls_main(code_for(matches, task)),
        repaired(code_for(matches, task)) == code_for(matches, task),
        matches.len() == 0 ==> is_valid(code_for(matches, task)),
        matches.len() > 0 && !has_entry_point(
            rendered(matches[0].template, matches[0].capture_groups),
        ) ==> is_valid(code_for(matches, task)),
{
    lemma_generic_code_valid(task);
    if matches.len() > 0 {
        lemma_wrapped_code_valid(task, rendered(matches[0].template, matches[0].capture_groups));
    }
}

/// The planner.
pub struct Planner {
    config: Config,
    reasoning: ReasoningSystem,
}

impl Planner {
    /// The reasoning engine is well-formed.
    pub closed spec fn wf(&self) -> bool {
        self.reasoning.wf()
    }

    /// The rules of the catalog, in the order in which they are tried.
    pub closed spec fn patterns(&self) -> Seq<PatternView> {
        self.reasoning.patterns()
    }

    /// The reasoning steps taken so far, oldest first.
    pub closed spec fn history(&self) -> Seq<ReasoningStepView> {
        self.reasoning.history()
    }

    /// The most reasoning steps that are remembered.
    pub closed spec fn max_history(&self) -> nat {
        self.reasoning.max_history()
    }

    /// The instruction that every prompt begins with.
    pub closed spec fn system_prompt(&self) -> Seq<char> {
        self.config.system_prompt@
    }

    /// A planner with the default configuration over the given rules. Fails
    /// where the expression of a rule does not compile.
    pub fn new(patterns: Vec<Pattern>) -> (r: Result<Self, Error>)
        ensures
            r is Ok == all_compile(patterns.deep_view()),
            r matches Ok(p) ==> {
                &&& p.wf()
                &&& p.patterns() == catalog_of(patterns.deep_view())
                &&& p.history() == Seq::<ReasoningStepView>::empty()
                &&& p.max_history() == 20
                &&& p.system_prompt() == crate::planner::config::DEFAULT_SYSTEM_PROMPT@
            },
            r matches Err(e) ==> e is InvalidPattern,
    {
        Planner::with_config(Config::default(), patterns)
    }

    /// A planner with the given configuration over the given rules. Fails
    /// where the expression of a rule does not compile.
    pub fn with_config(config: Config, patterns: Vec<Pattern>) -> (r: Result<Self, Error>)
        ensures
            r is Ok == all_compile(patterns.deep_view()),
            r matches Ok(p) ==> {
                &&& p.wf()
                &&& p.patterns() == catalog_of(patterns.deep_view())
                &&& p.history() == Seq::<ReasoningStepView>::empty()
                &&& p.max_history() == config.max_history_size
                &&& p.system_prompt() == config.system_prompt@
            },
            r matches Err(e) ==> e is InvalidPattern,
    {
        match ReasoningSystem::new(patterns, config.max_history_size) {
            Ok(reasoning) => Ok(Planner { config, reasoning }),
            Err(e) => Err(e),
        }
    }

    /// The first move of a plan for a task. Retrieves the context of the
    /// task from `memory`, by `scores`, and synthesises code from the
    /// pattern rules, recording the step at `now`. Where that code passes
    /// validation, the plan is ready and the language model is not needed;
    /// else the answer is the prompt for the language model, made of the
    /// task and the context.
    pub fn generate_plan(
        &mut self,
        memory: &mut Memory,
        task_description: &str,
        scores: &Vec<i64>,
        now: u64,
    ) -> (r: PlanStep)
        requires
            old(self).wf(),
            old(memory).wf(),
        ensures
            final(self).wf(),
            final(memory).wf(),
            final(memory)@ == after_context(old(memory)@, scores@, now),
            ({
                let code = code_for(
                    matches_of(old(self).patterns(), task_description@),
                    task_description@,
                );
                &&& final(self).history() == with_step(
                    old(self).history(),
                    ReasoningStepView {
                        input: task_description@,
                        output: code,
                        reasoning: justification(task_description@, code),
                        timestamp: now,
                    },
                    old(self).max_history(),
                )
                &&& is_valid(code) ==> (r matches PlanStep::Ready(c) && c@ == code)
                &&& !is_valid(code) ==> (r matches PlanStep::NeedsGeneration(p) && p@ == prompt_for(
                    old(self).system_prompt(),
                    task_description@,
                    context_from(old(memory)@, scores@, now),
                ))
            }),
            final(self).patterns() == old(self).patterns(),
            final(self).max_history() == old(self).max_history(),
            final(self).system_prompt() == old(self).system_prompt(),
    {
        let context = memory.retrieve_context(scores, now);
        let (code, _reasoning) = self.reasoning.process_task_with_reasoning(task_description, now);
        if is_valid_code(code.as_str()) {
            return PlanStep::Ready(code);
        }
        PlanStep::NeedsGeneration(create_prompt(task_description, context.as_str(), &self.config))
    }

    /// The second move of a plan: validates what the language model
    /// generated. Valid code that never calls the entry point is wrapped
    /// into one; code that is not valid fails the plan.
    pub fn complete_plan(generated: &str) -> (r: Result<String, Error>)
        ensures
            r is Ok == is_valid(generated@),
            r matches Ok(c) ==> c@ == repaired(generated@),
            r matches Err(e) ==> e matches Error::ValidationError(m) && m@ == if !has_function(
                generated@,
            ) {
                NO_FUNCTION@
            } else {
                NO_OUTPUT@
            },
    {
        validate_code(generated)
    }

    /// Adds a rule to the catalog. Fails, and leaves the catalog as it was,
    /// where the rule's expression does not compile.
    pub fn add_pattern(&mut self, pattern: Pattern) -> (r: Result<(), Error>)
        requires
            old(self).wf(),
        ensures
            final(self).wf(),
            r is Ok == pattern_compiles(pattern.regex@),
            r is Ok ==> final(self).patterns() == with_pattern(old(self).patterns(), pattern@),
            r matches Err(e) ==> e is InvalidPattern && final(self).patterns() == old(
                self,
            ).patterns(),
            final(self).history() == old(self).history(),
            final(self).max_history() == old(self).max_history(),
            final(self).system_prompt() == old(self).system_prompt(),
    {
        self.reasoning.add_pattern(pattern)
    }

    /// The rules of the catalog, in the order in which they are tried.
    pub fn get_patterns(&self) -> (r: Vec<Pattern>)
        ensures
            r.deep_view() == self.patterns(),
    {
        self.reasoning.get_patterns()
    }

    /// The reasoning steps taken so far, oldest first.
    pub fn get_history(&self) -> (r: &Vec<ReasoningStep>)
        ensures
            r.deep_view() == self.history(),
    {
        self.reasoning.get_history()
    }
}

} // verus!
