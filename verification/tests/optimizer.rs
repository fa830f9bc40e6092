use crablet::optimizer::{
    error_prevention, extract_category, extract_error_type, extract_strategy, is_strategy_suitable_for_category,
    optimize_performance, parse_u64, role_for_strategy, role_profile_for_category, CurrentSettings, KnowledgeKind,
    drops_oldest_snapshot, improvement_plan, ConfigChange, KnowledgeOutcome,
};

fn no_settings() -> CurrentSettings {
    CurrentSettings { default_timeout_ms: None, max_concurrent: None, validation_strictness: None }
}

#[test]
fn parses_like_std() {
    assert_eq!(parse_u64("30000"), Some(30000));
    assert_eq!(parse_u64("+7"), Some(7));
    assert_eq!(parse_u64(""), None);
    assert_eq!(parse_u64("+"), None);
    assert_eq!(parse_u64("-1"), None);
    assert_eq!(parse_u64(" 1"), None);
    assert_eq!(parse_u64("18446744073709551615"), Some(u64::MAX));
    assert_eq!(parse_u64("18446744073709551616"), None);
    for s in ["0", "42", "+12", "abc", "9x", "99999999999999999999"] {
        assert_eq!(parse_u64(s), s.parse::<u64>().ok());
    }
}

#[test]
fn knowledge_fields() {
    let content = "Error pattern: timeout, severity: 0.8, root_cause: slow_llm";
    assert_eq!(extract_error_type(content), "0.8, root_cause");
    assert_eq!(extract_error_type("Error: x"), "unknown");
    assert_eq!(extract_category("Task category: coding, complexity: 0.5"), "coding");
    assert_eq!(extract_category("plain"), "plain");
    assert_eq!(extract_strategy("Successful strategy: enhanced "), "enhanced");
}

#[test]
fn timeout_prevention_raises_timeout_within_bounds() {
    let (changes, throttle) = error_prevention("timeout", &no_settings(), "now");
    assert!(throttle);
    assert_eq!(changes.len(), 1);
    assert_eq!(changes[0].key, "swarm.default_timeout_ms");
    assert_eq!(changes[0].old_value.as_deref(), Some("30000"));
    assert_eq!(changes[0].new_value, "36000");
    assert_eq!(changes[0].reason, "Timeout error prevention: 30000 -> 36000");
    let high = CurrentSettings { default_timeout_ms: Some("290000".to_string()), ..no_settings() };
    assert_eq!(error_prevention("llm_timeout", &high, "now").0[0].new_value, "300000");
    let junk = CurrentSettings { default_timeout_ms: Some("fast".to_string()), ..no_settings() };
    assert_eq!(error_prevention("timeout", &junk, "now").0[0].new_value, "36000");
}

#[test]
fn rate_limit_prevention_halves_concurrency() {
    let current = CurrentSettings { max_concurrent: Some("9".to_string()), ..no_settings() };
    let (changes, throttle) = error_prevention("rate_limit", &current, "now");
    assert!(!throttle);
    assert_eq!(changes[0].new_value, "4");
    assert_eq!(changes[0].reason, "Rate limit prevention: concurrency 9 -> 4");
    let one = CurrentSettings { max_concurrent: Some("1".to_string()), ..no_settings() };
    assert_eq!(error_prevention("api_error", &one, "now").0[0].new_value, "1");
    assert_eq!(error_prevention("api_error", &no_settings(), "now").0[0].new_value, "10");
}

#[test]
fn other_errors_are_blacklisted() {
    let (changes, _) = error_prevention("0.8, root_cause", &no_settings(), "2024-01-01T00:00:00Z");
    assert_eq!(changes[0].key, "error_pattern.blacklist.0.8,_root_cause");
    assert_eq!(changes[0].old_value, None);
    assert_eq!(changes[0].new_value, "2024-01-01T00:00:00Z");
    let strict = CurrentSettings { validation_strictness: Some("low".to_string()), ..no_settings() };
    let (h, _) = error_prevention("hallucination", &strict, "now");
    assert_eq!(h[0].key, "cognitive.validation_strictness");
    assert_eq!(h[0].old_value.as_deref(), Some("low"));
    assert_eq!(h[0].new_value, "high");
}

#[test]
fn performance_bottleneck_doubles_batch() {
    let changes = optimize_performance("responses are slow", &None);
    assert_eq!(changes[0].new_value, "5");
    let changes = optimize_performance("timeout seen", &Some("4".to_string()));
    assert_eq!(changes[0].new_value, "8");
    assert!(optimize_performance("all fine", &Some("4".to_string())).is_empty());
}

#[test]
fn strategies_roles_and_kinds() {
    assert!(is_strategy_suitable_for_category("enhanced", "coding"));
    assert!(!is_strategy_suitable_for_category("enhanced", "general"));
    assert!(is_strategy_suitable_for_category("default", "anything"));
    assert_eq!(role_for_strategy("coding_fast"), "coder");
    assert_eq!(role_for_strategy("deep_analysis"), "analyst");
    assert_eq!(role_for_strategy("other"), "researcher");
    let (role, profile) = role_profile_for_category("analysis").unwrap();
    assert_eq!(role, "analyst");
    assert_eq!(profile.timeout_ms, 120_000);
    assert_eq!(profile.concurrency_limit, 5);
    assert!(role_profile_for_category("poetry").is_none());
    assert_eq!(KnowledgeKind::of("error_pattern"), KnowledgeKind::ErrorPattern);
    assert!(!KnowledgeKind::of("mystery").counts_as_improvement());
}

#[test]
fn test_extract_category() {
    let category = extract_category("Task category: coding, complexity: 0.5");
    assert_eq!(category, "coding");
}

fn change(key: &str, value: &str) -> ConfigChange {
    ConfigChange { key: key.to_string(), old_value: None, new_value: value.to_string(), reason: "r".to_string() }
}

#[test]
fn improvement_plan_counts_notes_and_batches() {
    let outcomes = vec![
        KnowledgeOutcome::TaskPattern(Some("enhanced".to_string())),
        KnowledgeOutcome::TaskPattern(None),
        KnowledgeOutcome::ErrorPattern(vec![change("a", "1"), change("b", "2")]),
        KnowledgeOutcome::ErrorPattern(vec![]),
        KnowledgeOutcome::Other,
        KnowledgeOutcome::SuccessfulStrategy(Some("fast".to_string())),
        KnowledgeOutcome::PerformanceBottleneck(vec![change("a", "3")]),
    ];
    let plan = improvement_plan(&outcomes);
    assert_eq!(plan.improvements_count, 6);
    assert_eq!(plan.strategies_optimized, 2);
    assert_eq!(
        plan.expected_improvements,
        vec!["enhanced".to_string(), "Error prevention applied: 2 changes".to_string(), "fast".to_string()]
    );
    let keys: Vec<&str> = plan.changes.iter().map(|c| c.key.as_str()).collect();
    assert_eq!(keys, vec!["a", "b", "a"]);
    assert_eq!(plan.batch, vec![("a".to_string(), "3".to_string()), ("b".to_string(), "2".to_string())]);
    let empty = improvement_plan(&vec![KnowledgeOutcome::Other]);
    assert_eq!(empty.improvements_count, 0);
    assert!(empty.batch.is_empty());
}

#[test]
fn snapshot_history_keeps_twenty() {
    assert!(!drops_oldest_snapshot(20));
    assert!(drops_oldest_snapshot(21));
}
