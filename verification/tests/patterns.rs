use anarchy_agent::pairs::put_pair;
use anarchy_agent::planner::reasoning::pattern_matcher::{
    collect_named, Pattern, PatternMatch, PatternMatcher,
};
use anarchy_agent::planner::error::Error;

fn rule(id: &str, regex: &str, priority: u8, template: &str) -> Pattern {
    Pattern {
        id: id.to_string(),
        regex: regex.to_string(),
        priority,
        tags: vec![id.to_string()],
        template: template.to_string(),
        description: String::new(),
    }
}

#[test]
fn match_task_returns_higher_priority_first() {
    let matcher = PatternMatcher::new(vec![
        rule("low", r"(?i)read\s+(?P<what>\w+)", 70, "low {{what}}"),
        rule("high", r"(?i)(?P<action>read|write)\s+(?P<what>\w+)", 80, "high {{action}} {{what}}"),
    ])
    .unwrap();
    let matches = matcher.match_task("please READ notes now");
    assert_eq!(matches.len(), 2);
    assert_eq!(matches[0].pattern_id, "high");
    assert_eq!(matches[1].pattern_id, "low");
    assert_eq!(
        matches[0].capture_groups,
        vec![("action".to_string(), "READ".to_string()), ("what".to_string(), "notes".to_string())]
    );
    assert_eq!(matches[0].apply_template(), "high READ notes");
    assert_eq!(matches[1].apply_template(), "low notes");
}

#[test]
fn equal_priorities_keep_insertion_order() {
    let mut matcher = PatternMatcher::new(vec![rule("a", "x", 50, ""), rule("b", "x", 50, "")]).unwrap();
    matcher.add_pattern(rule("c", "x", 50, "")).unwrap();
    matcher.add_pattern(rule("d", "x", 60, "")).unwrap();
    let ids: Vec<String> = matcher.get_patterns().into_iter().map(|p| p.id).collect();
    assert_eq!(ids, vec!["d", "a", "b", "c"]);
    let matched: Vec<String> = matcher.match_task("x").into_iter().map(|m| m.pattern_id).collect();
    assert_eq!(matched, vec!["d", "a", "b", "c"]);
}

#[test]
fn invalid_expression_is_rejected_and_catalog_unchanged() {
    let mut matcher = PatternMatcher::new(vec![rule("a", "x", 50, "")]).unwrap();
    let r = matcher.add_pattern(rule("bad", "foo(bar", 90, ""));
    assert!(matches!(r, Err(Error::InvalidPattern(_))));
    assert_eq!(matcher.get_patterns().len(), 1);
    assert!(matches!(PatternMatcher::new(vec![rule("bad", "(", 1, "")]), Err(Error::InvalidPattern(_))));
}

#[test]
fn unmatched_group_is_left_out() {
    let matcher =
        PatternMatcher::new(vec![rule("opt", r"get (?P<kind>\w+)(?: about (?P<topic>\w+))?", 1, "{{kind}}/{{topic}}")])
            .unwrap();
    let matches = matcher.match_task("get name");
    assert_eq!(matches.len(), 1);
    assert_eq!(matches[0].capture_groups, vec![("kind".to_string(), "name".to_string())]);
    assert_eq!(matches[0].apply_template(), "name/{{topic}}");
    assert!(matcher.match_task("nothing here").is_empty());
}

#[test]
fn remove_pattern_drops_every_rule_of_that_id() {
    let mut matcher =
        PatternMatcher::new(vec![rule("a", "x", 5, ""), rule("b", "x", 9, ""), rule("a", "y", 7, "")]).unwrap();
    matcher.remove_pattern("a");
    let ids: Vec<String> = matcher.get_patterns().into_iter().map(|p| p.id).collect();
    assert_eq!(ids, vec!["b"]);
}

#[test]
fn apply_template_fills_known_placeholders() {
    let m = PatternMatch {
        pattern_id: "p".to_string(),
        capture_groups: vec![("name".to_string(), "World".to_string())],
        template: "Hello {{name}}".to_string(),
        tags: vec![],
    };
    assert_eq!(m.apply_template(), "Hello World");
}

#[test]
fn apply_template_leaves_unknown_placeholders() {
    let m = PatternMatch {
        pattern_id: "p".to_string(),
        capture_groups: vec![],
        template: "{{missing}}".to_string(),
        tags: vec![],
    };
    assert_eq!(m.apply_template(), "{{missing}}");
}

#[test]
fn error_message_has_prefix_and_detail() {
    assert_eq!(Error::ValidationError("bad".to_string()).message(), "Validation error: bad");
    assert_eq!(Error::Unknown("x".to_string()).message(), "Unknown error: x");
}

#[test]
fn named_groups_pair_names_with_captures_by_position() {
    let names = vec![None, Some("a".to_string()), None, Some("b".to_string()), Some("c".to_string())];
    let groups = vec![Some("all".to_string()), Some("1".to_string()), Some("x".to_string()), None];
    assert_eq!(collect_named(&names, &groups), vec![("a".to_string(), "1".to_string())]);
    assert!(collect_named(&vec![], &groups).is_empty());
}

#[test]
fn a_name_stands_once_among_the_named_groups() {
    let names = vec![None, Some("a".to_string()), Some("b".to_string()), Some("a".to_string())];
    let groups =
        vec![Some("all".to_string()), Some("1".to_string()), Some("2".to_string()), Some("3".to_string())];
    assert_eq!(
        collect_named(&names, &groups),
        vec![("a".to_string(), "3".to_string()), ("b".to_string(), "2".to_string())]
    );
    let mut pairs = vec![("k".to_string(), "v".to_string())];
    put_pair(&mut pairs, "k".to_string(), "w".to_string());
    put_pair(&mut pairs, "l".to_string(), "x".to_string());
    assert_eq!(pairs, vec![("k".to_string(), "w".to_string()), ("l".to_string(), "x".to_string())]);
}
