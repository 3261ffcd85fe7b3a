use anarchy_agent::planner::reasoning::pattern_matcher::Pattern;
use anarchy_agent::planner::reasoning::template_engine::{generate_generic_code, TemplateEngine};

fn rule(id: &str, regex: &str, priority: u8, template: &str) -> Pattern {
    Pattern {
        id: id.to_string(),
        regex: regex.to_string(),
        priority,
        tags: vec![],
        template: template.to_string(),
        description: String::new(),
    }
}

#[test]
fn generic_code_announces_the_task_and_completion() {
    assert_eq!(
        generate_generic_code("water plants"),
        "ƒmain() {\n    // Task: water plants\n    ⌽(\"Starting task: water plants\");\n    \n    // TODO: Implement task-specific logic\n    \n    ⟼(\"Task completed\");\n}\n\nmain();"
    );
}

#[test]
fn generate_code_without_a_match_is_generic() {
    let engine = TemplateEngine::new(vec![rule("r", "zzz", 1, "x")]).unwrap();
    assert_eq!(engine.generate_code("water plants"), generate_generic_code("water plants"));
    assert_eq!(engine.generate_combined_code("water plants"), generate_generic_code("water plants"));
}

#[test]
fn generate_code_wraps_the_first_match() {
    let engine = TemplateEngine::new(vec![
        rule("low", r"read (?P<p>\S+)", 10, "low({{p}})"),
        rule("high", r"read (?P<p>\S+)", 20, "⌽(\"{{p}}\");"),
    ])
    .unwrap();
    assert_eq!(
        engine.generate_code("read a.txt"),
        "ƒmain() {\n    // Task: read a.txt\n    ⌽(\"a.txt\");\n    \n    ⟼(\"Task completed\");\n}\n\nmain();"
    );
}

#[test]
fn generate_code_keeps_code_that_brings_its_entry_point() {
    let engine = TemplateEngine::new(vec![rule("own", "run", 1, "ƒmain() { ⌽(1); }\nmain();")]).unwrap();
    assert_eq!(engine.generate_code("run it"), "ƒmain() { ⌽(1); }\nmain();");
    let engine = TemplateEngine::new(vec![rule("call", "run", 1, "main()")]).unwrap();
    assert_eq!(engine.generate_code("run it"), "main()");
}

#[test]
fn generate_combined_code_numbers_every_match() {
    let engine = TemplateEngine::new(vec![
        rule("b", r"(?P<w>\w+) it", 10, "second {{w}}"),
        rule("a", "do", 20, "first"),
    ])
    .unwrap();
    assert_eq!(
        engine.generate_combined_code("do it"),
        "ƒmain() {\n// Task: do it\n\n// Pattern match 1\nfirst\n\n// Pattern match 2\nsecond do\n\n    \n    ⟼(\"Task completed\");\n}\n\nmain();"
    );
}

#[test]
fn variables_and_default_templates_are_kept_by_name() {
    let mut engine = TemplateEngine::new(vec![]).unwrap();
    assert_eq!(engine.get_variable("x"), None);
    engine.set_variable("x", "1");
    engine.set_variable("x", "2");
    assert_eq!(engine.get_variable("x"), Some(&"2".to_string()));
    assert_eq!(engine.get_default_template("store_memory"), Some(&"📝(\"{{key}}\", \"{{value}}\");".to_string()));
    assert_eq!(
        engine.get_default_template("list_files"),
        Some(&"ιfiles = 📂(\"{{path}}\");\n∀(files, λfile {\n    ⌽(file);\n});".to_string())
    );
    assert!(engine.get_default_template("http_get").is_some());
    assert!(engine.get_default_template("get_input").is_some());
    assert_eq!(engine.get_default_template("nope"), None);
    engine.set_default_template("nope", "t");
    assert_eq!(engine.get_default_template("nope"), Some(&"t".to_string()));
}

#[test]
fn engine_catalog_can_grow_and_shrink() {
    let mut engine = TemplateEngine::new(vec![rule("a", "x", 1, "")]).unwrap();
    engine.add_pattern(rule("b", "y", 2, "")).unwrap();
    assert!(engine.add_pattern(rule("c", "(", 3, "")).is_err());
    let ids: Vec<String> = engine.get_patterns().into_iter().map(|p| p.id).collect();
    assert_eq!(ids, vec!["b", "a"]);
    engine.remove_pattern("b");
    assert_eq!(engine.get_patterns().len(), 1);
    assert!(TemplateEngine::new(vec![rule("bad", "[", 1, "")]).is_err());
}
