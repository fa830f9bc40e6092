use crablet::reflector::{
    assess_severity, classify_problem, default_improvements, generate_description, improvement_prompt,
    suggested_improvements, ActionType, ConfidenceBand, ProblemType, ResourceMetrics,
};

#[test]
fn test_diagnose_execution_failed() {
    // success: false, error "Test error", default confidence 0.5.
    let resources = ResourceMetrics::default();
    let problem = classify_problem(false, ConfidenceBand::Adequate, &resources);
    assert_eq!(problem, ProblemType::ExecutionFailed);
    assert_eq!(assess_severity(&problem, ConfidenceBand::Adequate, &resources), 10);
    assert_eq!(
        generate_description(&problem, "test task", Some("Test error"), "0.50", &resources),
        "Task 'test task' failed to execute successfully. Error: Test error"
    );
}

#[test]
fn test_diagnose_low_confidence() {
    // success: true, confidence 0.3: below 0.5 but not below 0.3.
    let resources = ResourceMetrics::default();
    let problem = classify_problem(true, ConfidenceBand::Low, &resources);
    assert_eq!(problem, ProblemType::LowConfidence);
    assert!(assess_severity(&problem, ConfidenceBand::Low, &resources) >= 5);
    assert_eq!(
        generate_description(&problem, "test task", None, "0.30", &resources),
        "Task 'test task' executed with low confidence (0.30). Output may be unreliable."
    );
}

#[test]
fn classification_order() {
    let slow = ResourceMetrics { duration_ms: 12000, memory_bytes: 600 * 1024 * 1024, cpu_ms: 0, tokens_used: 0 };
    assert_eq!(classify_problem(true, ConfidenceBand::Adequate, &slow), ProblemType::PerformanceIssue);
    let heavy = ResourceMetrics { duration_ms: 10000, ..slow };
    assert_eq!(classify_problem(true, ConfidenceBand::Adequate, &heavy), ProblemType::ResourceExhaustion);
    let fine = ResourceMetrics { memory_bytes: 512 * 1024 * 1024, ..heavy };
    assert_eq!(
        classify_problem(true, ConfidenceBand::Adequate, &fine),
        ProblemType::Other("General issue".to_string())
    );
    assert_eq!(classify_problem(true, ConfidenceBand::VeryLow, &slow), ProblemType::LowConfidence);
}

#[test]
fn descriptions_with_figures() {
    let r = ResourceMetrics { duration_ms: 12000, memory_bytes: 600 * 1024 * 1024, cpu_ms: 0, tokens_used: 0 };
    assert_eq!(
        generate_description(&ProblemType::PerformanceIssue, "t", None, "", &r),
        "Task 't' took 12000ms to execute, exceeding performance threshold."
    );
    assert_eq!(
        generate_description(&ProblemType::ResourceExhaustion, "t", None, "", &r),
        "Task 't' consumed excessive resources (600MB memory)."
    );
    assert_eq!(
        generate_description(&ProblemType::Other("odd".to_string()), "t", None, "", &r),
        "Task 't' encountered an issue: odd"
    );
    assert_eq!(
        generate_description(&ProblemType::ExecutionFailed, "t", None, "", &r),
        "Task 't' failed to execute successfully. Error: Unknown error"
    );
}

#[test]
fn severity_table() {
    let r = |d: u64| ResourceMetrics { duration_ms: d, memory_bytes: 0, cpu_ms: 0, tokens_used: 0 };
    assert_eq!(assess_severity(&ProblemType::PerformanceIssue, ConfidenceBand::Adequate, &r(30001)), 8);
    assert_eq!(assess_severity(&ProblemType::PerformanceIssue, ConfidenceBand::Adequate, &r(30000)), 5);
    assert_eq!(assess_severity(&ProblemType::PerformanceIssue, ConfidenceBand::Adequate, &r(10000)), 3);
    assert_eq!(assess_severity(&ProblemType::LowConfidence, ConfidenceBand::VeryLow, &r(0)), 8);
    assert_eq!(assess_severity(&ProblemType::ResourceExhaustion, ConfidenceBand::Adequate, &r(0)), 8);
    assert_eq!(assess_severity(&ProblemType::QualityIssue, ConfidenceBand::Adequate, &r(0)), 6);
    assert_eq!(assess_severity(&ProblemType::Other(String::new()), ConfidenceBand::Adequate, &r(0)), 5);
}

#[test]
fn failed_execution_improvements() {
    let cause = Some("bad \"input\"".to_string());
    let actions = default_improvements(&ProblemType::ExecutionFailed, &cause, "t");
    assert_eq!(actions.len(), 2);
    assert!(matches!(&actions[0].action_type, ActionType::SwitchStrategy { new_strategy } if new_strategy == "enhanced"));
    assert_eq!(actions[0].priority_tenths, 9);
    match &actions[1].action_type {
        ActionType::UpdateKnowledge { knowledge_id, content } => {
            assert_eq!(knowledge_id, "error_patterns");
            assert_eq!(content, &format!("Error pattern for task '{}': {:?}", "t", cause));
        },
        other => panic!("unexpected action {:?}", other),
    }
    let none = default_improvements(&ProblemType::ExecutionFailed, &None, "t");
    match &none[1].action_type {
        ActionType::UpdateKnowledge { content, .. } => assert_eq!(content, "Error pattern for task 't': None"),
        other => panic!("unexpected action {:?}", other),
    }
}

#[test]
fn other_improvements() {
    let low = default_improvements(&ProblemType::LowConfidence, &None, "t");
    assert_eq!(low.len(), 2);
    assert_eq!(low[1].priority_tenths, 7);
    let heavy = default_improvements(&ProblemType::ResourceExhaustion, &None, "t");
    assert_eq!(heavy.len(), 1);
    assert!(matches!(&heavy[0].action_type, ActionType::AdjustParameters { parameters }
        if parameters == &vec![("max_tokens".to_string(), 1024u64)]));
    assert!(default_improvements(&ProblemType::QualityIssue, &None, "t").is_empty());
}

#[test]
fn suggestions_from_first_two_lines() {
    let actions = suggested_improvements("  Use caching \r\n\nThird line");
    assert_eq!(actions.len(), 1);
    assert_eq!(actions[0].description, "Use caching");
    assert_eq!(actions[0].priority_tenths, 7);
    assert_eq!(actions[0].expected_impact, "Address specific root cause");
    let two = suggested_improvements("a\nb\nc\n");
    assert_eq!(two.iter().map(|a| a.description.clone()).collect::<Vec<_>>(), vec!["a", "b"]);
    assert!(suggested_improvements("").is_empty());
}

#[test]
fn prompt_quotes_the_cause() {
    assert_eq!(
        improvement_prompt("slow disk"),
        "Based on the root cause analysis: \"slow disk\"\n\nGenerate 1-2 specific improvement actions to address this issue.\nFocus on actionable and high-impact solutions."
    );
}
