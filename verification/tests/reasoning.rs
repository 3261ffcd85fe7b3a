use anarchy_agent::planner::reasoning::pattern_matcher::Pattern;
use anarchy_agent::planner::reasoning::reasoning_system::{
    generate_reasoning, identify_task_components, ReasoningSystem,
};

fn rule(id: &str, regex: &str, priority: u8, template: &str) -> Pattern {
    Pattern {
        id: id.to_string(),
        regex: regex.to_string(),
        priority,
        tags: vec![],
        template: template.to_string(),
        description: String::new(),
    }
}

#[test]
fn components_follow_the_words_of_the_task() {
    assert_eq!(identify_task_components("tidy up"), vec!["General task processing"]);
    assert_eq!(identify_task_components("read the folder"), vec!["File system operations"]);
    assert_eq!(
        identify_task_components("fetch a url, remember it, ask a question, write a file"),
        vec!["File system operations", "Network operations", "Memory operations", "Input operations"]
    );
    assert_eq!(identify_task_components("FILE"), vec!["General task processing"]);
    assert_eq!(identify_task_components("a task"), vec!["Input operations"]);
}

#[test]
fn reasoning_explains_every_marked_line() {
    let code = "ƒmain() {\n  ιf = 📂(\".\");\r\n  ⌽(f);\n\n  x = 1;\n  ⟼(\"ok\");\n}\nmain();";
    let got = generate_reasoning("list files", code);
    let want = "Task Analysis: 'list files'\n\nTask Components:\n1. File system operations\n\nCode Generation Process:\n1. Matched task against known patterns\n2. Selected appropriate templates\n3. Applied task-specific parameters\n4. Generated structured Anarchy-Inference code\n\nCode Explanation:\n- Function definition: ƒmain() {\n- List directory: ιf = 📂(\".\");\n- Print statement: ⌽(f);\n- Return statement: ⟼(\"ok\");\n";
    assert_eq!(got, want);
}

#[test]
fn reasoning_picks_the_first_marker_of_a_line() {
    let got = generate_reasoning("x", "📩(a) 📤(b) 📥(c) 📝(d) ↗(e) ✍(f) 📖(g)\n📩(a) 📤(b) 📥(c)\n📩(a) 📤(b)\n📩(a)\n✍(f) ↗(e)");
    assert!(got.ends_with(
        "Code Explanation:\n- Read file or memory: 📩(a) 📤(b) 📥(c) 📝(d) ↗(e) ✍(f) 📖(g)\n- Get input from file: 📩(a) 📤(b) 📥(c)\n- Write output to file: 📩(a) 📤(b)\n- Wait for input file: 📩(a)\n- Write file: ✍(f) ↗(e)\n"
    ));
    assert!(generate_reasoning("x", "📝(k, v)\n↗(u)").ends_with("- Store in memory: 📝(k, v)\n- HTTP GET request: ↗(u)\n"));
    assert!(generate_reasoning("x", "").ends_with("Code Explanation:\n"));
}

#[test]
fn process_task_records_a_brief_step() {
    let mut system = ReasoningSystem::new(vec![rule("r", "go", 1, "⌽(1);")], 3).unwrap();
    let code = system.process_task("go now", 42);
    assert_eq!(code, "ƒmain() {\n    // Task: go now\n    ⌽(1);\n    \n    ⟼(\"Task completed\");\n}\n\nmain();");
    let history = system.get_history();
    assert_eq!(history.len(), 1);
    assert_eq!(history[0].input, "go now");
    assert_eq!(history[0].output, code);
    assert_eq!(history[0].reasoning, "Analyzed task: 'go now' and generated appropriate code");
    assert_eq!(history[0].timestamp, 42);
}

#[test]
fn process_task_with_reasoning_returns_code_and_justification() {
    let mut system = ReasoningSystem::new(vec![], 3).unwrap();
    let (code, why) = system.process_task_with_reasoning("tidy", 7);
    assert!(code.starts_with("ƒmain() {\n    // Task: tidy\n"));
    assert_eq!(why, generate_reasoning("tidy", &code));
    assert_eq!(system.get_history()[0].reasoning, why);
}

#[test]
fn history_drops_the_oldest_step_first() {
    let mut system = ReasoningSystem::new(vec![], 2).unwrap();
    system.process_task("one", 1);
    system.process_task("two", 2);
    system.process_task("three", 3);
    let inputs: Vec<&str> = system.get_history().iter().map(|s| s.input.as_str()).collect();
    assert_eq!(inputs, vec!["two", "three"]);
    system.clear_history();
    assert!(system.get_history().is_empty());
}

#[test]
fn history_without_room_stays_empty() {
    let mut system = ReasoningSystem::new(vec![], 0).unwrap();
    system.process_task("one", 1);
    assert!(system.get_history().is_empty());
}

#[test]
fn process_is_the_same_for_the_same_catalog_and_task() {
    let mut system = ReasoningSystem::new(vec![rule("r", "(?P<x>go)", 1, "{{x}}")], 5).unwrap();
    let first = system.process_task("go", 1);
    system.set_context("k", "v");
    let second = system.process_task("go", 2);
    assert_eq!(first, second);
    assert_eq!(system.get_context("k"), Some(&"v".to_string()));
    system.clear_context();
    assert_eq!(system.get_context("k"), None);
}

#[test]
fn reasoning_catalog_accepts_valid_rules_only() {
    let mut system = ReasoningSystem::new(vec![], 5).unwrap();
    assert!(system.add_pattern(rule("bad", "a{", 1, "")).is_err());
    system.add_pattern(rule("ok", "a", 1, "")).unwrap();
    assert_eq!(system.get_patterns().len(), 1);
    assert!(ReasoningSystem::new(vec![rule("bad", "(", 1, "")], 5).is_err());
}
