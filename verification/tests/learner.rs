use crablet::learner::{analyze_task_features, Pattern, PatternStore, PatternType};
use crablet::optimizer::extract_category;

fn pattern(id: &str, usage: u64) -> Pattern {
    Pattern {
        id: id.to_string(),
        pattern_type: PatternType::StrategyPattern,
        name: String::new(),
        description: String::new(),
        trigger_conditions: vec![],
        usage_count: usage,
        success_count: 0,
        created_at: String::new(),
        updated_at: String::new(),
    }
}

fn ids(store: &PatternStore) -> Vec<String> {
    store.patterns().iter().map(|p| p.id.clone()).collect()
}

#[test]
fn task_features_follow_keywords_and_length() {
    let f = analyze_task_features("Write a function to sort an array");
    assert_eq!(f.category, "coding");
    assert_eq!(f.complexity_hundredths, 14);
    assert_eq!(f.keywords, vec!["Write".to_string(), "function".to_string(), "array".to_string()]);
    assert_eq!(analyze_task_features("Please RESEARCH this").category, "analysis");
    assert_eq!(analyze_task_features("explain it").category, "explanation");
    assert_eq!(analyze_task_features("fix the bug").category, "debugging");
    assert_eq!(analyze_task_features("hello").category, "general");
    let long = "word ".repeat(60);
    assert_eq!(analyze_task_features(&long).complexity_hundredths, 100);
    let many = "alpha1 beta22 gamma3 delta4 epsilon5 zeta66 eta777";
    assert_eq!(analyze_task_features(many).keywords.len(), 5);
}

#[test]
fn new_task_is_learned_once() {
    let mut store = PatternStore::new(10);
    let (id, content) = store.learn_task_pattern(&analyze_task_features("Write a function to sort an array"), true, "t0").unwrap();
    assert_eq!(content, "Task category: coding, complexity: 0.14, keywords: [\"Write\", \"function\", \"array\"]");
    assert_eq!(extract_category(&content), "coding");
    let p = &store.patterns()[0];
    assert_eq!(p.id, id);
    assert_eq!(p.name, "Task Pattern: coding");
    assert_eq!(p.description, "Pattern for tasks in category 'coding' with complexity 0.14");
    assert_eq!(p.trigger_conditions, vec!["category = 'coding'".to_string(), "complexity > 0.11".to_string()]);
    assert_eq!((p.usage_count, p.success_count), (1, 1));

    assert!(store.learn_task_pattern(&analyze_task_features("debug my code"), false, "t1").is_none());
    let p = &store.patterns()[0];
    assert_eq!((p.usage_count, p.success_count), (2, 1));
    assert_eq!(p.updated_at, "t1");
    assert_eq!(p.created_at, "t0");
    assert_eq!(store.patterns().len(), 1);
}

#[test]
fn least_used_pattern_is_evicted_when_full() {
    let mut store = PatternStore::new(3);
    store.insert(pattern("a", 5));
    store.insert(pattern("b", 1));
    store.insert(pattern("c", 1));
    store.insert(pattern("d", 0));
    assert_eq!(ids(&store), vec!["c", "a", "d"]);
    assert_eq!(store.patterns().len(), 3);
}

#[test]
fn similar_and_relevant_patterns() {
    let mut store = PatternStore::new(5);
    store.learn_task_pattern(&analyze_task_features("explain rust"), true, "t").unwrap();
    store.insert(pattern("s", 0));
    assert_eq!(store.find_similar("explanation"), Some(0));
    assert_eq!(store.find_similar("coding"), None);
    assert_eq!(store.relevant("coding"), vec![0]);
    store.record_use(1, true, "u".to_string());
    assert_eq!(store.patterns()[1].usage_count, 1);
    assert_eq!(store.patterns()[1].success_count, 1);
}

#[test]
fn test_learner_creation() {
    let store = PatternStore::new(100);
    assert_eq!(store.max_patterns(), 100);
}

#[test]
fn test_extract_task_pattern() {
    let mut store = PatternStore::new(100);
    let knowledge = store.learn_task_pattern(&analyze_task_features("write a function"), true, "now");
    assert!(knowledge.is_some());
}

#[test]
fn test_task_features() {
    let features = analyze_task_features("write a function in rust");
    assert_eq!(features.category, "coding");
    assert!(!features.keywords.is_empty());
}
