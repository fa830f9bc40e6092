use crablet::intents::Intent;
use crablet::patterns::{intent_patterns, pattern_level};

fn patterns_of(intent: Intent) -> Vec<&'static str> {
    intent_patterns().into_iter().find(|(i, _)| *i == intent).map(|(_, p)| p).unwrap()
}

#[test]
fn pattern_table_covers_rule_intents() {
    let table = intent_patterns();
    assert_eq!(table.len(), 9);
    assert_eq!(table[0].0, Intent::Greeting);
    assert_eq!(table[0].1[0], "hi");
    assert_eq!(table[8].0, Intent::MultiStep);
    assert!(table[8].1.contains(&"step by step"));
}

#[test]
fn levels_follow_match_strength() {
    let greeting = patterns_of(Intent::Greeting);
    assert_eq!(pattern_level("hello", &greeting), 10);
    assert_eq!(pattern_level("hello!", &greeting), 9);
    assert_eq!(pattern_level("well hello there", &greeting), 8);
    assert_eq!(pattern_level("say hi", &greeting), 8);
    assert_eq!(pattern_level("chip", &greeting), 6);
    assert_eq!(pattern_level("xyz", &greeting), 0);
    assert_eq!(pattern_level("你好呀", &greeting), 9);
}

#[test]
fn patterns_are_lowercased_before_matching() {
    let patterns = vec!["Rust"];
    assert_eq!(pattern_level("rust", &patterns), 10);
    assert_eq!(pattern_level("i like rust", &patterns), 8);
    assert_eq!(pattern_level("anything", &Vec::new()), 0);
}

#[test]
fn coding_request_matches_as_word() {
    let coding = patterns_of(Intent::Coding);
    assert_eq!(pattern_level("write a function to sort an array", &coding), 9);
    assert_eq!(pattern_level("please debug it", &coding), 8);
}
