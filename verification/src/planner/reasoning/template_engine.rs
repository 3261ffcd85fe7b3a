//! Template synthesis: from the rules that match a task to code.

use vstd::prelude::*;
use vstd::hash_map::StringHashMap;
use vstd::string::StringExecFns;
use crate::decimal::{decimal, push_decimal};
use crate::planner::error::Error;
use crate::planner::reasoning::pattern_matcher::{
    all_compile,
    catalog_of,
    matches_of,
    rendered,
    with_pattern,
    without_id,
    Pattern,
    PatternMatchView,
    PatternMatcher,
    PatternView,
};
use crate::regex_api::pattern_compiles;
use crate::text::{contains, contains_seq};

verus! {

/// The code for a task that no rule recognises: it announces the task and
/// reports completion.
pub open spec fn generic_code(task: Seq<char>) -> Seq<char> {
    "ƒmain() {\n    // Task: "@ + task + "\n    ⌽(\"Starting task: "@ + task
        + "\");\n    \n    // TODO: Implement task-specific logic\n    \n    ⟼(\"Task completed\");\n}\n\nmain();"@
}

/// Code calls the entry point, or defines it.
pub open spec fn has_entry_point(code: Seq<char>) -> bool {
    contains_seq(code, "ƒmain()"@) || contains_seq(code, "main()"@)
}

/// `code` inside the entry point of a program for `task`, followed by the
/// call of the entry point.
pub open spec fn wrapped_code(task: Seq<char>, code: Seq<char>) -> Seq<char> {
    "ƒmain() {\n    // Task: "@ + task + "\n    "@ + code
        + "\n    \n    ⟼(\"Task completed\");\n}\n\nmain();"@
}

/// The code for a task, given the rules that matched it: the generic code
/// where none did, else what the first match renders to, wrapped into an
/// entry point unless it brings one.
pub open spec fn code_for(matches: Seq<PatternMatchView>, task: Seq<char>) -> Seq<char> {
    if matches.len() == 0 {
        generic_code(task)
    } else {
        let code = rendered(matches[0].template, matches[0].capture_groups);
        if has_entry_point(code) {
            code
        } else {
            wrapped_code(task, code)
        }
    }
}

/// What the matches render to, one after the other, each under a line that
/// numbers it from one.
pub open spec fn combined_sections(matches: Seq<PatternMatchView>) -> Seq<char>
    decreases matches.len(),
{
    if matches.len() == 0 {
        Seq::empty()
    } else {
        combined_sections(matches.drop_last()) + "\n// Pattern match "@ + decimal(matches.len())
            + "\n"@ + rendered(matches.last().template, matches.last().capture_groups) + "\n"@
    }
}

/// The code for a task from all the rules that matched it: the generic code
/// where none did, else every match's code in one entry point.
pub open spec fn combined_code_for(matches: Seq<PatternMatchView>, task: Seq<char>) -> Seq<char> {
    if matches.len() == 0 {
        generic_code(task)
    } else {
        "ƒmain() {\n"@ + ("// Task: "@ + task + "\n"@ + combined_sections(matches))
            + "\n    \n    ⟼(\"Task completed\");\n}\n\nmain();"@
    }
}

/// The templates that every engine starts with.
pub open spec fn builtin_templates() -> Map<Seq<char>, Seq<char>> {
    Map::<Seq<char>, Seq<char>>::empty().insert(
        "list_files"@,
        "ιfiles = 📂(\"{{path}}\");\n∀(files, λfile {\n    ⌽(file);\n});"@,
    ).insert(
        "http_get"@,
        "ιresponse = ↗(\"{{url}}\");\n⌽(`Status code: ${response.s}`);\nιcontent = response.b;"@,
    ).insert("store_memory"@, "📝(\"{{key}}\", \"{{value}}\");"@).insert(
        "get_input"@,
        "📤(\"prompt.txt\", \"{{prompt}}\");\nιinput_ready = 📩(\"response.txt\", \"30000\");\nif (input_ready == \"true\") {\n    ιuser_input = 📥(\"response.txt\");\n}"@,
    )
}

/// The texts that a map of strings holds.
pub open spec fn texts_of(m: Map<Seq<char>, String>) -> Map<Seq<char>, Seq<char>> {
    Map::new(|k: Seq<char>| m.contains_key(k), |k: Seq<char>| m[k]@)
}

/// Generates code from the rules of a catalog.
pub struct TemplateEngine {
    pattern_matcher: PatternMatcher,
    variables: StringHashMap<String>,
    default_templates: StringHashMap<String>,
}

impl TemplateEngine {
    /// The catalog is well-formed.
    pub closed spec fn wf(&self) -> bool {
        self.pattern_matcher.wf()
    }

    /// The rules of the catalog, in the order in which they are tried.
    pub closed spec fn patterns(&self) -> Seq<PatternView> {
        self.pattern_matcher@
    }

    /// The template variables.
    pub closed spec fn variables(&self) -> Map<Seq<char>, Seq<char>> {
        texts_of(self.variables@)
    }

    /// The named default templates.
    pub closed spec fn templates(&self) -> Map<Seq<char>, Seq<char>> {
        texts_of(self.default_templates@)
    }

    /// An engine over the given rules, without variables and with the
    /// default templates. Fails where the expression of a rule does not
    /// compile.
    pub fn new(patterns: Vec<Pattern>) -> (r: Result<Self, Error>)
        ensures
            r is Ok == all_compile(patterns.deep_view()),
            r matches Ok(e) ==> {
                &&& e.wf()
                &&& e.patterns() == catalog_of(patterns.deep_view())
                &&& e.variables() == Map::<Seq<char>, Seq<char>>::empty()
                &&& e.templates() == builtin_templates()
            },
            r matches Err(e) ==> e is InvalidPattern,
    {
        let pattern_matcher = match PatternMatcher::new(patterns) {
            Ok(m) => m,
            Err(e) => {
                return Err(e);
            },
        };
        let mut default_templates: StringHashMap<String> = StringHashMap::new();
        default_templates.insert(
            String::from_str("list_files"),
            String::from_str("ιfiles = 📂(\"{{path}}\");\n∀(files, λfile {\n    ⌽(file);\n});"),
        );
        default_templates.insert(
            String::from_str("http_get"),
            String::from_str(
                "ιresponse = ↗(\"{{url}}\");\n⌽(`Status code: ${response.s}`);\nιcontent = response.b;",
            ),
        );
        default_templates.insert(
            String::from_str("store_memory"),
            String::from_str("📝(\"{{key}}\", \"{{value}}\");"),
        );
        default_templates.insert(
            String::from_str("get_input"),
            String::from_str(
                "📤(\"prompt.txt\", \"{{prompt}}\");\nιinput_ready = 📩(\"response.txt\", \"30000\");\nif (input_ready == \"true\") {\n    ιuser_input = 📥(\"response.txt\");\n}",
            ),
        );
        let variables: StringHashMap<String> = StringHashMap::new();
        let engine = TemplateEngine { pattern_matcher, variables, default_templates };
        assert(engine.variables() =~= Map::<Seq<char>, Seq<char>>::empty());
        assert(engine.templates() =~= builtin_templates());
        Ok(engine)
    }

    /// The code for a task: from the first rule that matches it, or generic
    /// where none does.
    pub fn generate_code(&self, task_description: &str) -> (r: String)
        requires
            self.wf(),
        ensures
            r@ == code_for(matches_of(self.patterns(), task_description@), task_description@),
    {
        let matches = self.pattern_matcher.match_task(task_description);
        if matches.len() == 0 {
            return generate_generic_code(task_description);
        }
        assert(matches.deep_view()[0] == matches[0]@);
        let code = matches[0].apply_template();
        if !contains(code.as_str(), "ƒmain()") && !contains(code.as_str(), "main()") {
            let mut out = String::from_str("ƒmain() {\n    // Task: ");
            out.append(task_description);
            out.append("\n    ");
            out.append(code.as_str());
            out.append("\n    \n    ⟼(\"Task completed\");\n}\n\nmain();");
            return out;
        }
        code
    }

    /// The code for a task from every rule that matches it, or generic where
    /// none does.
    pub fn generate_combined_code(&self, task_description: &str) -> (r: String)
        requires
            self.wf(),
        ensures
            r@ == combined_code_for(
                matches_of(self.patterns(), task_description@),
                task_description@,
            ),
    {
        let matches = self.pattern_matcher.match_task(task_description);
        if matches.len() == 0 {
            return generate_generic_code(task_description);
        }
        let mut combined = String::from_str("// Task: ");
        combined.append(task_description);
        combined.append("\n");
        let ghost head = combined@;
        let mut i: usize = 0;
        assert(combined@ =~= head + combined_sections(matches.deep_view().take(0)));
        while i < matches.len()
            invariant
                i <= matches.len(),
                combined@ == head + combined_sections(matches.deep_view().take(i as int)),
            decreases matches.len() - i,
        {
            let ghost before = combined@;
            let ghost next = matches.deep_view().take(i + 1);
            let code = matches[i].apply_template();
            combined.append("\n// Pattern match ");
            push_decimal(&mut combined, (i as u128) + 1);
            combined.append("\n");
            combined.append(code.as_str());
            combined.append("\n");
            proof {
                assert(next.drop_last() =~= matches.deep_view().take(i as int));
                assert(next.last() == matches[i as int]@);
                assert(combined@ =~= head + combined_sections(next));
            }
            i += 1;
        }
        assert(matches.deep_view().take(matches.len() as int) =~= matches.deep_view());
        let mut out = String::from_str("ƒmain() {\n");
        out.append(combined.as_str());
        out.append("\n    \n    ⟼(\"Task completed\");\n}\n\nmain();");
        out
    }

    /// Sets a template variable.
    pub fn set_variable(&mut self, name: &str, value: &str)
        ensures
            final(self).variables() == old(self).variables().insert(name@, value@),
            final(self).patterns() == old(self).patterns(),
            final(self).templates() == old(self).templates(),
            final(self).wf() == old(self).wf(),
    {
        self.variables.insert(String::from_str(name), String::from_str(value));
        assert(self.variables() =~= old(self).variables().insert(name@, value@));
    }

    /// The value of a template variable, if it is set.
    pub fn get_variable(&self, name: &str) -> (r: Option<&String>)
        ensures
            r is Some == self.variables().contains_key(name@),
            r matches Some(v) ==> v@ == self.variables()[name@],
    {
        self.variables.get(name)
    }

    /// Adds a rule to the catalog. Fails, and leaves the catalog as it was,
    /// where the rule's expression does not compile.
    pub fn add_pattern(&mut self, pattern: Pattern) -> (r: Result<(), Error>)
        requires
            old(self).wf(),
        ensures
            final(self).wf(),
            r is Ok == pattern_compiles(pattern.regex@),
            r is Ok ==> final(self).patterns() == with_pattern(old(self).patterns(), pattern@),
            r matches Err(e) ==> e is InvalidPattern && final(self).patterns() == old(
                self,
            ).patterns(),
            final(self).variables() == old(self).variables(),
            final(self).templates() == old(self).templates(),
    {
        self.pattern_matcher.add_pattern(pattern)
    }

    /// Removes every rule with the identifier `pattern_id`.
    pub fn remove_pattern(&mut self, pattern_id: &str)
        requires
            old(self).wf(),
        ensures
            final(self).wf(),
            final(self).patterns() == without_id(old(self).patterns(), pattern_id@),
            final(self).variables() == old(self).variables(),
            final(self).templates() == old(self).templates(),
    {
        self.pattern_matcher.remove_pattern(pattern_id);
    }

    /// The rules of the catalog, in the order in which they are tried.
    pub fn get_patterns(&self) -> (r: Vec<Pattern>)
        ensures
            r.deep_view() == self.patterns(),
    {
        self.pattern_matcher.get_patterns()
    }

    /// A default template by name, if there is one.
    pub fn get_default_template(&self, name: &str) -> (r: Option<&String>)
        ensures
            r is Some == self.templates().contains_key(name@),
            r matches Some(v) ==> v@ == self.templates()[name@],
    {
        self.default_templates.get(name)
    }

    /// Adds or replaces a default template.
    pub fn set_default_template(&mut self, name: &str, template: &str)
        ensures
            final(self).templates() == old(self).templates().insert(name@, template@),
            final(self).patterns() == old(self).patterns(),
            final(self).variables() == old(self).variables(),
            final(self).wf() == old(self).wf(),
    {
        self.default_templates.insert(String::from_str(name), String::from_str(template));
        assert(self.templates() =~= old(self).templates().insert(name@, template@));
    }
}

/// The code for a task that no rule recognises.
pub fn generate_generic_code(task_description: &str) -> (r: String)
    ensures
        r@ == generic_code(task_description@),
{
    let mut out = String::from_str("ƒmain() {\n    // Task: ");
    out.append(task_description);
    out.append("\n    ⌽(\"Starting task: ");
    out.append(task_description);
    out.append(
        "\");\n    \n    // TODO: Implement task-specific logic\n    \n    ⟼(\"Task completed\");\n}\n\nmain();",
    );
    out
}

} // verus!
