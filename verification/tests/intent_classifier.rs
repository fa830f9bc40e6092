use crablet::intents::{heuristic_classification, is_skill_invocation, suggest_skills, Intent};

#[test]
fn test_skill_invocation_detection() {
    assert_eq!(is_skill_invocation("use weather"), Some("weather".to_string()));
    assert_eq!(is_skill_invocation("run code_search"), Some("code_search".to_string()));
    assert_eq!(is_skill_invocation("weather()"), Some("weather".to_string()));
    assert!(is_skill_invocation("Hello world").is_none());
}

#[test]
fn skill_invocation_edge_cases() {
    assert_eq!(is_skill_invocation("  USE   Translate now"), Some("translate".to_string()));
    assert_eq!(is_skill_invocation("use "), None);
    assert_eq!(is_skill_invocation("使用 天气"), Some("天气".to_string()));
    assert_eq!(is_skill_invocation("get weather(x)"), None);
    assert_eq!(is_skill_invocation("(x)"), None);
}

#[test]
fn skill_suggestions_follow_intent() {
    assert_eq!(
        suggest_skills(&Intent::Coding, "Debug my Rust test"),
        vec!["rust_analyzer".to_string(), "code_tester".to_string(), "code_search".to_string()]
    );
    assert_eq!(
        suggest_skills(&Intent::Analysis, "look at this CSV file"),
        vec!["file_analyzer".to_string(), "data_analyzer".to_string()]
    );
    assert_eq!(
        suggest_skills(&Intent::DeepResearch, "anything"),
        vec!["web_search".to_string(), "knowledge_graph".to_string()]
    );
    assert_eq!(suggest_skills(&Intent::SkillExecution("w".to_string()), ""), vec!["w".to_string()]);
    assert!(suggest_skills(&Intent::Greeting, "hi").is_empty());
}

#[test]
fn heuristic_signals_in_hundredths() {
    assert_eq!(heuristic_classification("import os"), vec![(Intent::Coding, 40)]);
    assert_eq!(heuristic_classification("how does this work?"), vec![(Intent::Analysis, 20)]);
    assert_eq!(heuristic_classification("step one then stage two"), vec![(Intent::MultiStep, 50)]);
    assert!(heuristic_classification("hello").is_empty());
    let long = "a ".repeat(21);
    assert_eq!(heuristic_classification(&long), vec![(Intent::DeepResearch, 20)]);
}
