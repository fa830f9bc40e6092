use crablet::tracking::{classify_intent, extract_keywords, IntentType};

#[test]
fn test_intent_classification() {
    assert_eq!(classify_intent("帮我完成这个任务"), IntentType::TaskCompletion);
    assert_eq!(classify_intent("怎么学习编程"), IntentType::Learning);
}

#[test]
fn test_keyword_extraction() {
    let keywords = extract_keywords("帮我完成Python项目的开发工作");

    assert!(keywords.contains(&"Python".to_string()));
    assert!(!keywords.contains(&"的".to_string()));
}

#[test]
fn classification_rule_order() {
    assert_eq!(classify_intent("Fix this BUG please"), IntentType::ProblemSolving);
    assert_eq!(classify_intent("推荐一本书"), IntentType::DecisionMaking);
    assert_eq!(classify_intent("帮我查询天气"), IntentType::TaskCompletion);
    assert_eq!(classify_intent("搜索资料"), IntentType::InformationRetrieval);
    assert_eq!(classify_intent("随便聊聊"), IntentType::Communication);
    assert_eq!(classify_intent("我想试试"), IntentType::Exploratory);
    assert_eq!(classify_intent("hello"), IntentType::Unknown);
}

#[test]
fn keyword_pieces_are_cut_at_separators_and_capped() {
    assert_eq!(extract_keywords("rust, is great"), vec!["rust".to_string(), " is great".to_string()]);
    assert_eq!(extract_keywords("a;the;ok"), vec!["ok".to_string()]);
    let many = "k1,k2,k3,k4,k5,k6,k7,k8,k9,k10,k11,k12";
    let keywords = extract_keywords(many);
    assert_eq!(keywords.len(), 10);
    assert_eq!(keywords[9], "k10");
}

#[test]
fn intent_type_names_and_priorities() {
    assert_eq!(IntentType::from_string("TASK"), IntentType::TaskCompletion);
    assert_eq!(IntentType::from_string("学习"), IntentType::Learning);
    assert_eq!(IntentType::from_string("日常"), IntentType::Routine);
    assert_eq!(IntentType::from_string("whatever"), IntentType::Unknown);
    assert_eq!(IntentType::TaskCompletion.priority(), 10);
    assert_eq!(IntentType::Routine.priority(), 3);
    assert_eq!(IntentType::Unknown.priority(), 1);
}

#[test]
fn intent_names_ignore_case() {
    assert_eq!(IntentType::from_string("LEARN"), IntentType::Learning);
    assert_eq!(IntentType::from_string("Task_Completion"), IntentType::TaskCompletion);
    assert_eq!(IntentType::from_string("xyz"), IntentType::Unknown);
    for s in ["LEARN", "Info", "PROBLEM_SOLVING", "Decision", "xYz", "学习"] {
        assert_eq!(IntentType::from_string(s), IntentType::from_string(&s.to_lowercase()));
    }
}
