use crablet::intent_graph::IntentGraph;
use crablet::tracking::{goal_mentioned, intent_confidence, intent_description, IntentType};

fn ids(v: &[&str]) -> Vec<String> {
    v.iter().map(|s| s.to_string()).collect()
}

#[test]
fn seen_intents_count_from_two() {
    let mut g = IntentGraph::new();
    g.add_intent("a", IntentType::Learning, vec!["rust".to_string()]);
    assert_eq!(g.frequency("a"), Some(2));
    g.add_intent("a", IntentType::Learning, vec![]);
    assert_eq!(g.frequency("a"), Some(3));
    assert_eq!(g.frequency("b"), None);
    assert_eq!(g.node_count(), 1);
    assert_eq!(g.successors("a"), Some(vec![]));
}

#[test]
fn transitions_are_counted_per_pair() {
    let mut g = IntentGraph::new();
    assert_eq!(g.add_transition("a", "b"), 0);
    assert_eq!(g.add_transition("a", "c"), 1);
    assert_eq!(g.add_transition("a", "b"), 0);
    assert_eq!(g.transition_count("a", "b"), Some(2));
    assert_eq!(g.transition_count("a", "c"), Some(1));
    assert_eq!(g.transition_count("b", "a"), None);
    assert_eq!(g.edge_count(), 2);
    assert_eq!(g.node_count(), 3);
    assert_eq!(g.frequency("b"), Some(0));
    assert_eq!(g.successors("a"), Some(ids(&["b", "c", "b"])));
    assert_eq!(g.successors("b"), None);
}

#[test]
fn goal_pattern_needs_three_transitions() {
    let mut g = IntentGraph::new();
    g.add_transition("x", "y");
    g.add_transition("x", "y");
    assert_eq!(g.detect_goal_pattern(&ids(&["x", "y", "z"])), None);
    g.add_transition("x", "y");
    assert_eq!(
        g.detect_goal_pattern(&ids(&["x", "y", "z"])),
        Some("Goal pattern: x -> y (count: 3)".to_string())
    );
    assert_eq!(g.detect_goal_pattern(&ids(&["x"])), None);
    assert_eq!(g.detect_goal_pattern(&ids(&["y", "x"])), None);
}

#[test]
fn goal_pattern_reports_every_count_from_three() {
    let mut g = IntentGraph::new();
    for k in 1..=12u32 {
        g.add_transition("a", "b");
        let expected = if k >= 3 { Some(format!("Goal pattern: a -> b (count: {})", k)) } else { None };
        assert_eq!(g.detect_goal_pattern(&ids(&["a", "b"])), expected);
        assert_eq!(g.detect_goal_pattern(&ids(&["a"])), None);
    }
}

#[test]
fn intent_confidence_in_hundredths() {
    assert_eq!(intent_confidence(IntentType::Unknown, 0), 50);
    assert_eq!(intent_confidence(IntentType::Learning, 1), 75);
    assert_eq!(intent_confidence(IntentType::Learning, 6), 100);
    assert_eq!(intent_confidence(IntentType::Unknown, 10), 80);
}

#[test]
fn description_keeps_first_hundred_chars() {
    assert_eq!(intent_description("帮我完成这个任务"), "帮我完成这个任务");
    let long = "é".repeat(150);
    assert_eq!(intent_description(&long).chars().count(), 100);
}

#[test]
fn goals_and_intents_mention_each_other() {
    assert!(goal_mentioned("完成季度报告", "完成报告") == false);
    assert!(goal_mentioned("完成季度报告", "季度报告"));
    assert!(goal_mentioned("Report", "write the REPORT now"));
    assert!(!goal_mentioned("alpha", "beta"));
}
