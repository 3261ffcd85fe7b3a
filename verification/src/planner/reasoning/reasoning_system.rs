//! The reasoning engine: synthesises code for a task, explains it, and keeps
//! a bounded history of what it did.

use vstd::prelude::*;
use vstd::hash_map::StringHashMap;
use vstd::string::StringExecFns;
use crate::decimal::{decimal, push_decimal};
use crate::planner::error::Error;
use crate::planner::reasoning::pattern_matcher::{
    all_compile,
    catalog_of,
    matches_of,
    with_pattern,
    Pattern,
    PatternView,
};
use crate::planner::reasoning::template_engine::{code_for, texts_of, TemplateEngine};
use crate::regex_api::pattern_compiles;
use crate::split::{lines, lines_of, trim_chars, trimmed};
use crate::text::{chars_of, contains, contains_chars, contains_seq, string_of};

verus! {

/// One step of reasoning: what was asked, what was produced, and why.
#[derive(Debug)]
pub struct ReasoningStep {
    /// The task description.
    pub input: String,
    /// The code that was produced.
    pub output: String,
    /// The justification.
    pub reasoning: String,
    /// When the step was taken, in seconds.
    pub timestamp: u64,
}

/// What a [`ReasoningStep`] holds.
pub struct ReasoningStepView {
    pub input: Seq<char>,
    pub output: Seq<char>,
    pub reasoning: Seq<char>,
    pub timestamp: u64,
}

impl View for ReasoningStep {
    type V = ReasoningStepView;

    open spec fn view(&self) -> ReasoningStepView {
        ReasoningStepView {
            input: self.input@,
            output: self.output@,
            reasoning: self.reasoning@,
            timestamp: self.timestamp,
        }
    }
}

impl DeepView for ReasoningStep {
    type V = ReasoningStepView;

    open spec fn deep_view(&self) -> ReasoningStepView {
        self@
    }
}

impl Clone for ReasoningStep {
    fn clone(&self) -> (r: Self)
        ensures
            r@ == self@,
    {
        ReasoningStep {
            input: self.input.clone(),
            output: self.output.clone(),
            reasoning: self.reasoning.clone(),
            timestamp: self.timestamp,
        }
    }
}

/// The history after one more step: the step is appended, and the oldest
/// step leaves where that makes the history longer than `max`.
pub open spec fn with_step(history: Seq<ReasoningStepView>, step: ReasoningStepView, max: nat) -> Seq<
    ReasoningStepView,
> {
    let longer = history.push(step);
    if longer.len() > max {
        longer.drop_first()
    } else {
        longer
    }
}

/// A history within its bound stays within it, and the newest step is its
/// last unless the bound is zero.
pub proof fn lemma_with_step_bounded(
    history: Seq<ReasoningStepView>,
    step: ReasoningStepView,
    max: nat,
)
    requires
        history.len() <= max,
    ensures
        with_step(history, step, max).len() <= max,
        max > 0 ==> with_step(history, step, max).last() == step,
{
}

/// The task speaks of files.
pub open spec fn mentions_files(task: Seq<char>) -> bool {
    contains_seq(task, "file"@) || contains_seq(task, "directory"@) || contains_seq(
        task,
        "folder"@,
    ) || contains_seq(task, "read"@) || contains_seq(task, "write"@)
}

/// The task speaks of the network.
pub open spec fn mentions_network(task: Seq<char>) -> bool {
    contains_seq(task, "http"@) || contains_seq(task, "web"@) || contains_seq(task, "url"@)
        || contains_seq(task, "download"@) || contains_seq(task, "fetch"@)
}

/// The task speaks of memory.
pub open spec fn mentions_memory(task: Seq<char>) -> bool {
    contains_seq(task, "memory"@) || contains_seq(task, "store"@) || contains_seq(
        task,
        "remember"@,
    ) || contains_seq(task, "recall"@)
}

/// The task speaks of input.
pub open spec fn mentions_input(task: Seq<char>) -> bool {
    contains_seq(task, "input"@) || contains_seq(task, "ask"@) || contains_seq(task, "prompt"@)
        || contains_seq(task, "question"@)
}

/// `[label]` where `present`, else nothing.
pub open spec fn component(present: bool, label: Seq<char>) -> Seq<Seq<char>> {
    if present {
        seq![label]
    } else {
        Seq::empty()
    }
}

/// The components that a task description names, in a fixed order; the
/// general component where it names none.
pub open spec fn task_components(task: Seq<char>) -> Seq<Seq<char>> {
    let found = component(mentions_files(task), "File system operations"@) + component(
        mentions_network(task),
        "Network operations"@,
    ) + component(mentions_memory(task), "Memory operations"@) + component(
        mentions_input(task),
        "Input operations"@,
    );
    if found.len() == 0 {
        seq!["General task processing"@]
    } else {
        found
    }
}

/// The components as a numbered list, one per line, counted from one.
pub open spec fn numbered(components: Seq<Seq<char>>) -> Seq<char>
    decreases components.len(),
{
    if components.len() == 0 {
        Seq::empty()
    } else {
        numbered(components.drop_last()) + decimal(components.len()) + ". "@ + components.last()
            + "\n"@
    }
}

/// The label under which a trimmed line of code is explained, by the first
/// marker that it shows; nothing for a line without a marker.
pub open spec fn line_label(line: Seq<char>) -> Option<Seq<char>> {
    if line.len() > 0 && line[0] == 'ƒ' {
        Some("- Function definition: "@)
    } else if contains_seq(line, "⌽("@) {
        Some("- Print statement: "@)
    } else if contains_seq(line, "📂("@) {
        Some("- List directory: "@)
    } else if contains_seq(line, "📖("@) {
        Some("- Read file or memory: "@)
    } else if contains_seq(line, "✍("@) {
        Some("- Write file: "@)
    } else if contains_seq(line, "↗("@) {
        Some("- HTTP GET request: "@)
    } else if contains_seq(line, "📝("@) {
        Some("- Store in memory: "@)
    } else if contains_seq(line, "📥("@) {
        Some("- Get input from file: "@)
    } else if contains_seq(line, "📤("@) {
        Some("- Write output to file: "@)
    } else if contains_seq(line, "📩("@) {
        Some("- Wait for input file: "@)
    } else if contains_seq(line, "⟼("@) {
        Some("- Return statement: "@)
    } else {
        None
    }
}

/// The explanation of one trimmed line of code.
pub open spec fn line_note(line: Seq<char>) -> Seq<char> {
    match line_label(line) {
        Some(label) => label + line + "\n"@,
        None => Seq::empty(),
    }
}

/// The explanations of the lines of a program, each line trimmed first.
pub open spec fn code_notes(lines: Seq<Seq<char>>) -> Seq<char>
    decreases lines.len(),
{
    if lines.len() == 0 {
        Seq::empty()
    } else {
        code_notes(lines.drop_last()) + line_note(trimmed(lines.last()))
    }
}

/// The justification of the code produced for a task.
pub open spec fn justification(task: Seq<char>, code: Seq<char>) -> Seq<char> {
    "Task Analysis: '"@ + task + "'\n\n"@ + "Task Components:\n"@ + numbered(task_components(task))
        + "\nCode Generation Process:\n"@ + "1. Matched task against known patterns\n"@
        + "2. Selected appropriate templates\n"@ + "3. Applied task-specific parameters\n"@
        + "4. Generated structured Anarchy-Inference code\n"@ + "\nCode Explanation:\n"@
        + code_notes(lines_of(code))
}

/// The justification that goes with code that is not explained.
pub open spec fn brief_justification(task: Seq<char>) -> Seq<char> {
    "Analyzed task: '"@ + task + "' and generated appropriate code"@
}

/// The components that a task description names.
pub fn identify_task_components(task_description: &str) -> (r: Vec<String>)
    ensures
        r.deep_view() == task_components(task_description@),
{
    let mut components: Vec<String> = Vec::new();
    let t = task_description;
    if contains(t, "file") || contains(t, "directory") || contains(t, "folder") || contains(
        t,
        "read",
    ) || contains(t, "write") {
        components.push(String::from_str("File system operations"));
    }
    if contains(t, "http") || contains(t, "web") || contains(t, "url") || contains(t, "download")
        || contains(t, "fetch") {
        components.push(String::from_str("Network operations"));
    }
    if contains(t, "memory") || contains(t, "store") || contains(t, "remember") || contains(
        t,
        "recall",
    ) {
        components.push(String::from_str("Memory operations"));
    }
    if contains(t, "input") || contains(t, "ask") || contains(t, "prompt") || contains(
        t,
        "question",
    ) {
        components.push(String::from_str("Input operations"));
    }
    if components.len() == 0 {
        components.push(String::from_str("General task processing"));
    }
    assert(components.deep_view() =~= task_components(task_description@));
    components
}

fn shows(line: &Vec<char>, marker: &str) -> (b: bool)
    ensures
        b == contains_seq(line@, marker@),
{
    let m = chars_of(marker);
    contains_chars(line, &m)
}

fn label_of(line: &Vec<char>) -> (r: Option<String>)
    ensures
        r.deep_view() == line_label(line@),
{
    if line.len() > 0 && line[0] == 'ƒ' {
        Some(String::from_str("- Function definition: "))
    } else if shows(line, "⌽(") {
        Some(String::from_str("- Print statement: "))
    } else if shows(line, "📂(") {
        Some(String::from_str("- List directory: "))
    } else if shows(line, "📖(") {
        Some(String::from_str("- Read file or memory: "))
    } else if shows(line, "✍(") {
        Some(String::from_str("- Write file: "))
    } else if shows(line, "↗(") {
        Some(String::from_str("- HTTP GET request: "))
    } else if shows(line, "📝(") {
        Some(String::from_str("- Store in memory: "))
    } else if shows(line, "📥(") {
        Some(String::from_str("- Get input from file: "))
    } else if shows(line, "📤(") {
        Some(String::from_str("- Write output to file: "))
    } else if shows(line, "📩(") {
        Some(String::from_str("- Wait for input file: "))
    } else if shows(line, "⟼(") {
        Some(String::from_str("- Return statement: "))
    } else {
        None
    }
}

/// The justification of the code produced for a task: the components that
/// the task names, the steps of synthesis, and a note on every line of the
/// code that shows a known marker.
pub fn generate_reasoning(task_description: &str, code: &str) -> (r: String)
    ensures
        r@ == justification(task_description@, code@),
{
    let mut reasoning = String::from_str("Task Analysis: '");
    reasoning.append(task_description);
    reasoning.append("'\n\n");
    reasoning.append("Task Components:\n");
    let components = identify_task_components(task_description);
    let ghost head = reasoning@;
    let mut i: usize = 0;
    assert(reasoning@ =~= head + numbered(components.deep_view().take(0)));
    while i < components.len()
        invariant
            i <= components.len(),
            reasoning@ == head + numbered(components.deep_view().take(i as int)),
        decreases components.len() - i,
    {
        let ghost next = components.deep_view().take(i + 1);
        push_decimal(&mut reasoning, (i as u128) + 1);
        reasoning.append(". ");
        reasoning.append(components[i].as_str());
        reasoning.append("\n");
        proof {
            assert(next.drop_last() =~= components.deep_view().take(i as int));
            assert(next.last() == components[i as int]@);
            assert(reasoning@ =~= head + numbered(next));
        }
        i += 1;
    }
    assert(components.deep_view().take(components.len() as int) =~= components.deep_view());
    reasoning.append("\nCode Generation Process:\n");
    reasoning.append("1. Matched task against known patterns\n");
    reasoning.append("2. Selected appropriate templates\n");
    reasoning.append("3. Applied task-specific parameters\n");
    reasoning.append("4. Generated structured Anarchy-Inference code\n");
    reasoning.append("\nCode Explanation:\n");
    let code_chars = chars_of(code);
    let code_lines = lines(&code_chars);
    let ghost body = reasoning@;
    let mut k: usize = 0;
    assert(reasoning@ =~= body + code_notes(code_lines.deep_view().take(0)));
    while k < code_lines.len()
        invariant
            k <= code_lines.len(),
            reasoning@ == body + code_notes(code_lines.deep_view().take(k as int)),
        decreases code_lines.len() - k,
    {
        let ghost next = code_lines.deep_view().take(k + 1);
        let ghost before = reasoning@;
        let line = trim_chars(&code_lines[k]);
        proof {
            assert(code_lines[k as int].deep_view() =~= code_lines[k as int]@);
            assert(next.drop_last() =~= code_lines.deep_view().take(k as int));
            assert(next.last() == code_lines[k as int]@);
        }
        match label_of(&line) {
            Some(label) => {
                let text = string_of(&line);
                reasoning.append(label.as_str());
                reasoning.append(text.as_str());
                reasoning.append("\n");
                assert(reasoning@ =~= before + line_note(line@));
            },
            None => {
                assert(reasoning@ =~= before + line_note(line@));
            },
        }
        assert(reasoning@ =~= body + code_notes(next));
        k += 1;
    }
    assert(code_lines.deep_view().take(code_lines.len() as int) =~= code_lines.deep_view());
    assert(reasoning@ =~= justification(task_description@, code@));
    reasoning
}

/// Synthesises code for tasks and remembers what it did.
pub struct ReasoningSystem {
    template_engine: TemplateEngine,
    context: StringHashMap<String>,
    history: Vec<ReasoningStep>,
    max_history: usize,
}

impl ReasoningSystem {
    /// The catalog is well-formed and the history within its bound.
    pub closed spec fn wf(&self) -> bool {
        self.template_engine.wf() && self.history.len() <= self.max_history
    }

    /// The rules of the catalog, in the order in which they are tried.
    pub closed spec fn patterns(&self) -> Seq<PatternView> {
        self.template_engine.patterns()
    }

    /// The steps taken so far, oldest first.
    pub closed spec fn history(&self) -> Seq<ReasoningStepView> {
        self.history.deep_view()
    }

    /// The most steps that the history keeps.
    pub closed spec fn max_history(&self) -> nat {
        self.max_history as nat
    }

    /// The context variables.
    pub closed spec fn context(&self) -> Map<Seq<char>, Seq<char>> {
        texts_of(self.context@)
    }

    /// The history of a well-formed engine is within its bound.
    pub proof fn lemma_history_bounded(&self)
        requires
            self.wf(),
        ensures
            self.history().len() <= self.max_history(),
    {
    }

    /// An engine over the given rules, with an empty history of at most
    /// `max_history` steps and no context. Fails where the expression of a
    /// rule does not compile.
    pub fn new(patterns: Vec<Pattern>, max_history: usize) -> (r: Result<Self, Error>)
        ensures
            r is Ok == all_compile(patterns.deep_view()),
            r matches Ok(s) ==> {
                &&& s.wf()
                &&& s.patterns() == catalog_of(patterns.deep_view())
                &&& s.history() == Seq::<ReasoningStepView>::empty()
                &&& s.max_history() == max_history
                &&& s.context() == Map::<Seq<char>, Seq<char>>::empty()
            },
            r matches Err(e) ==> e is InvalidPattern,
    {
        let template_engine = match TemplateEngine::new(patterns) {
            Ok(e) => e,
            Err(e) => {
                return Err(e);
            },
        };
        let system = ReasoningSystem {
            template_engine,
            context: StringHashMap::new(),
            history: Vec::new(),
            max_history,
        };
        assert(system.history() =~= Seq::<ReasoningStepView>::empty());
        assert(system.context() =~= Map::<Seq<char>, Seq<char>>::empty());
        Ok(system)
    }

    /// Synthesises the code for a task and records the step, taken at `now`,
    /// with a brief justification.
    pub fn process_task(&mut self, task_description: &str, now: u64) -> (code: String)
        requires
            old(self).wf(),
        ensures
            final(self).wf(),
            code@ == code_for(
                matches_of(old(self).patterns(), task_description@),
                task_description@,
            ),
            final(self).history() == with_step(
                old(self).history(),
                ReasoningStepView {
                    input: task_description@,
                    output: code@,
                    reasoning: brief_justification(task_description@),
                    timestamp: now,
                },
                old(self).max_history(),
            ),
            final(self).patterns() == old(self).patterns(),
            final(self).max_history() == old(self).max_history(),
            final(self).context() == old(self).context(),
    {
        let code = self.template_engine.generate_code(task_description);
        let mut reasoning = String::from_str("Analyzed task: '");
        reasoning.append(task_description);
        reasoning.append("' and generated appropriate code");
        let step = ReasoningStep {
            input: String::from_str(task_description),
            output: code.clone(),
            reasoning,
            timestamp: now,
        };
        self.add_to_history(step);
        code
    }

    /// Synthesises the code for a task, explains it, and records the step,
    /// taken at `now`. Returns the code and the justification.
    pub fn process_task_with_reasoning(&mut self, task_description: &str, now: u64) -> (r: (
        String,
        String,
    ))
        requires
            old(self).wf(),
        ensures
            final(self).wf(),
            r.0@ == code_for(
                matches_of(old(self).patterns(), task_description@),
                task_description@,
            ),
            r.1@ == justification(task_description@, r.0@),
            final(self).history() == with_step(
                old(self).history(),
                ReasoningStepView {
                    input: task_description@,
                    output: r.0@,
                    reasoning: r.1@,
                    timestamp: now,
                },
                old(self).max_history(),
            ),
            final(self).patterns() == old(self).patterns(),
            final(self).max_history() == old(self).max_history(),
            final(self).context() == old(self).context(),
    {
        let code = self.template_engine.generate_code(task_description);
        let reasoning = generate_reasoning(task_description, code.as_str());
        let step = ReasoningStep {
            input: String::from_str(task_description),
            output: code.clone(),
            reasoning: reasoning.clone(),
            timestamp: now,
        };
        self.add_to_history(step);
        (code, reasoning)
    }

    fn add_to_history(&mut self, step: ReasoningStep)
        requires
            old(self).wf(),
        ensures
            final(self).wf(),
            final(self).history() == with_step(old(self).history(), step@, old(self).max_history()),
            final(self).patterns() == old(self).patterns(),
            final(self).max_history() == old(self).max_history(),
            final(self).context() == old(self).context(),
    {
        let ghost before = self.history();
        self.history.push(step);
        assert(self.history() =~= before.push(step@));
        if self.history.len() > self.max_history {
            let ghost longer = self.history();
            self.history.remove(0);
            assert(self.history() =~= longer.drop_first());
        }
    }

    /// The steps taken so far, oldest first.
    pub fn get_history(&self) -> (r: &Vec<ReasoningStep>)
        ensures
            r.deep_view() == self.history(),
    {
        &self.history
    }

    /// Forgets every step.
    pub fn clear_history(&mut self)
        ensures
            final(self).history() == Seq::<ReasoningStepView>::empty(),
            final(self).patterns() == old(self).patterns(),
            final(self).max_history() == old(self).max_history(),
            final(self).context() == old(self).context(),
            old(self).wf() ==> final(self).wf(),
    {
        self.history.clear();
        assert(self.history() =~= Seq::<ReasoningStepView>::empty());
    }

    /// Sets a context variable.
    pub fn set_context(&mut self, key: &str, value: &str)
        ensures
            final(self).context() == old(self).context().insert(key@, value@),
            final(self).history() == old(self).history(),
            final(self).patterns() == old(self).patterns(),
            final(self).max_history() == old(self).max_history(),
            final(self).wf() == old(self).wf(),
    {
        self.context.insert(String::from_str(key), String::from_str(value));
        assert(self.context() =~= old(self).context().insert(key@, value@));
    }

    /// The value of a context variable, if it is set.
    pub fn get_context(&self, key: &str) -> (r: Option<&String>)
        ensures
            r is Some == self.context().contains_key(key@),
            r matches Some(v) ==> v@ == self.context()[key@],
    {
        self.context.get(key)
    }

    /// Forgets every context variable.
    pub fn clear_context(&mut self)
        ensures
            final(self).context() == Map::<Seq<char>, Seq<char>>::empty(),
            final(self).history() == old(self).history(),
            final(self).patterns() == old(self).patterns(),
            final(self).max_history() == old(self).max_history(),
            final(self).wf() == old(self).wf(),
    {
        self.context.clear();
        assert(self.context() =~= Map::<Seq<char>, Seq<char>>::empty());
    }

    /// Adds a rule to the catalog. Fails, and leaves the catalog as it was,
    /// where the rule's expression does not compile.
    pub fn add_pattern(&mut self, pattern: Pattern) -> (r: Result<(), Error>)
        requires
            old(self).wf(),
        ensures
            final(self).wf(),
            r is Ok == pattern_compiles(pattern.regex@),
            r is Ok ==> final(self).patterns() == with_pattern(old(self).patterns(), pattern@),
            r matches Err(e) ==> e is InvalidPattern && final(self).patterns() == old(
                self,
            ).patterns(),
            final(self).history() == old(self).history(),
            final(self).max_history() == old(self).max_history(),
            final(self).context() == old(self).context(),
    {
        self.template_engine.add_pattern(pattern)
    }

    /// The rules of the catalog, in the order in which they are tried.
    pub fn get_patterns(&self) -> (r: Vec<Pattern>)
        ensures
            r.deep_view() == self.patterns(),
    {
        self.template_engine.get_patterns()
    }
}

} // verus!
