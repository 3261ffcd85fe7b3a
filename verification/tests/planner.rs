use anarchy_agent::memory::Memory;
use anarchy_agent::planner::config::Config;
use anarchy_agent::planner::defaults::default_patterns;
use anarchy_agent::planner::error::Error;
use anarchy_agent::planner::planning::{create_prompt, is_valid_code, validate_code};
use anarchy_agent::planner::reasoning::pattern_matcher::{Pattern, PatternMatcher};
use anarchy_agent::planner::{PlanStep, Planner};

#[test]
fn known_rule_gives_a_plan_without_the_language_model() {
    let mut planner = Planner::new(default_patterns()).unwrap();
    let mut memory = Memory::new();
    match planner.generate_plan(&mut memory, "list files in /tmp", &vec![], 5) {
        PlanStep::Ready(code) => {
            assert!(code.starts_with("ƒmain() {\n    // Task: list files in /tmp\n    // File operation: list files in /tmp\n"));
            assert!(code.contains("ιfiles = 📂(\"/tmp\");"));
            assert!(code.ends_with("⟼(\"Task completed\");\n}\n\nmain();"));
        }
        PlanStep::NeedsGeneration(_) => panic!("the language model is not needed"),
    }
    assert_eq!(planner.get_history().len(), 1);
}

#[test]
fn unknown_task_gives_the_generic_plan() {
    let mut planner = Planner::new(default_patterns()).unwrap();
    let mut memory = Memory::new();
    let step = planner.generate_plan(&mut memory, "water plants", &vec![], 5);
    assert!(matches!(step, PlanStep::Ready(code) if code.contains("⌽(\"Starting task: water plants\");")));
}

#[test]
fn invalid_rule_code_asks_the_language_model() {
    let rule = Pattern {
        id: "r".to_string(),
        regex: "dance".to_string(),
        priority: 1,
        tags: vec![],
        template: "main()".to_string(),
        description: String::new(),
    };
    let mut planner = Planner::new(vec![rule]).unwrap();
    let mut memory = Memory::new();
    match planner.generate_plan(&mut memory, "dance", &vec![], 5) {
        PlanStep::NeedsGeneration(prompt) => {
            assert_eq!(prompt, create_prompt("dance", "", &Config::default()));
        }
        PlanStep::Ready(_) => panic!("the code of the rule is not valid"),
    }
}

#[test]
fn generated_code_without_a_function_fails_the_plan() {
    match Planner::complete_plan("⌽(\"hello\");") {
        Err(Error::ValidationError(m)) => {
            assert_eq!(m, "Generated code does not contain any function definitions")
        }
        other => panic!("unexpected: {:?}", other),
    }
}

#[test]
fn generated_code_without_output_fails_the_plan() {
    match Planner::complete_plan("ƒmain() { }") {
        Err(Error::ValidationError(m)) => {
            assert_eq!(m, "Generated code does not contain return or print statements")
        }
        other => panic!("unexpected: {:?}", other),
    }
}

#[test]
fn generated_code_is_wrapped_where_it_never_calls_the_entry_point() {
    assert_eq!(Planner::complete_plan("ƒf() { ⟼(1); }").unwrap(), "ƒmain() {\nƒf() { ⟼(1); }\n}\n\nmain();");
    assert_eq!(validate_code("ƒmain() { ⌽(1); }\nmain();").unwrap(), "ƒmain() { ⌽(1); }\nmain();");
}

#[test]
fn validity_needs_a_function_and_an_output() {
    assert!(is_valid_code("ƒ ⟼"));
    assert!(is_valid_code("ƒ ⌽"));
    assert!(!is_valid_code("ƒ"));
    assert!(!is_valid_code("⟼ ⌽"));
    assert!(!is_valid_code(""));
}

#[test]
fn prompt_holds_system_prompt_task_context_and_request() {
    let config = Config { system_prompt: "SYS".to_string(), ..Config::default() };
    assert_eq!(
        create_prompt("do it", "ctx", &config),
        format!(
            "SYS\n\nTask: do it\n\nRelevant Context:\nctx\n\nGenerate Anarchy-Inference code to accomplish {}{} Use the symbolic syntax (e.g., !, ↗, 📂, etc.) for all operations. The code should be complete and executable.",
            "this",
            " task."
        )
    );
    let d = Config::default();
    assert_eq!(d.max_tokens, 1000);
    assert_eq!(d.max_history_size, 20);
    assert!(d.use_reasoning_system);
    assert!(d.system_prompt.starts_with("You are an AI assistant"));
}

#[test]
fn default_rules_compile_and_come_by_priority() {
    let rules = default_patterns();
    assert_eq!(rules.len(), 4);
    assert_eq!(rules[0].id, "file_operations");
    assert_eq!(rules[0].tags, vec!["file", "filesystem"]);
    assert_eq!(rules[1].priority, 75);
    assert_eq!(rules[3].description, "Pattern for memory operations");
    assert!(rules[2].template.starts_with("// Get user input about {{topic}}\n⌽(\"Requesting user input...\");\nιprompt"));
    let matcher = PatternMatcher::new(rules).unwrap();
    let ids: Vec<String> = matcher.get_patterns().into_iter().map(|p| p.id).collect();
    assert_eq!(ids, vec!["user_input", "file_operations", "http_request", "memory_operations"]);
    let m = matcher.match_task("please fetch  https://example.com/x now");
    assert_eq!(m[0].pattern_id, "http_request");
    assert_eq!(
        m[0].capture_groups,
        vec![("method".to_string(), "fetch".to_string()), ("url".to_string(), "https://example.com/x".to_string())]
    );
}

#[test]
fn planner_catalog_accepts_valid_rules_only() {
    assert!(matches!(
        Planner::new(vec![Pattern {
            id: "bad".to_string(),
            regex: "(".to_string(),
            priority: 1,
            tags: vec![],
            template: String::new(),
            description: String::new(),
        }]),
        Err(Error::InvalidPattern(_))
    ));
    let mut planner = Planner::with_config(Config { max_history_size: 1, ..Config::default() }, vec![]).unwrap();
    let mut memory = Memory::new();
    planner.generate_plan(&mut memory, "a", &vec![], 1);
    planner.generate_plan(&mut memory, "b", &vec![], 2);
    assert_eq!(planner.get_history().len(), 1);
    assert_eq!(planner.get_history()[0].input, "b");
    assert!(planner.get_patterns().is_empty());
}
