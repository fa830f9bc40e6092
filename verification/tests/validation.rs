use crablet::validation::{
    check_factual_consistency, completeness_issue, generate_suggestions, unsupported_specific_claims, ScoreFlags,
    Severity, ValidationIssue,
};

#[test]
fn unsupported_claims_become_issues() {
    let sources = vec!["Mozilla created Rust in 2010".to_string()];
    let check = check_factual_consistency("Rust was created in 2010. Python is a language.", &sources);
    assert_eq!(check.total_claims, 2);
    assert_eq!(check.consistent_claims, 1);
    assert_eq!(check.issues.len(), 1);
    match &check.issues[0] {
        ValidationIssue::FactualInconsistency { detail, severity } => {
            assert_eq!(detail, "Claim not found in sources: Python is a language");
            assert_eq!(*severity, Severity::Medium);
        },
        other => panic!("unexpected issue {:?}", other),
    }
}

#[test]
fn without_sources_every_claim_is_unsupported() {
    let check = check_factual_consistency("Rust was created in 2010.", &vec![]);
    assert_eq!((check.total_claims, check.consistent_claims, check.issues.len()), (1, 0, 1));
    let none = check_factual_consistency("Hi.", &vec![]);
    assert_eq!((none.total_claims, none.consistent_claims, none.issues.len()), (0, 0, 0));
}

#[test]
fn unsupported_figures_are_potential_hallucinations() {
    let issues = unsupported_specific_claims("It grew 50 percent in 2020. Fine.", &vec![]);
    assert_eq!(issues.len(), 1);
    assert!(matches!(&issues[0], ValidationIssue::PotentialHallucination { claim } if claim == "It grew 50 percent in 2020"));
    let backed = unsupported_specific_claims(
        "Revenue grew 50 percent in 2020.",
        &vec!["revenue grew 50 percent in 2020 overall".to_string()],
    );
    assert!(backed.is_empty());
}

#[test]
fn brief_answer_is_incomplete() {
    let issue = completeness_issue("Python is a programming language with simple syntax.", "What is Python?");
    match issue {
        Some(ValidationIssue::IncompleteAnswer { missing }) => assert_eq!(missing, vec!["Answer seems too brief".to_string()]),
        other => panic!("unexpected {:?}", other),
    }
    let long = "one two three four five six seven eight nine ten";
    assert!(completeness_issue(long, "hi").is_none());
}

#[test]
fn suggestions_follow_scores_then_issues() {
    let issues = vec![
        ValidationIssue::FactualInconsistency { detail: "X".to_string(), severity: Severity::Medium },
        ValidationIssue::PotentialHallucination { claim: "Y".to_string() },
        ValidationIssue::IncompleteAnswer { missing: vec!["a".to_string(), "b".to_string()] },
        ValidationIssue::Contradiction { statement1: "p".to_string(), statement2: "q".to_string() },
    ];
    let flags = ScoreFlags {
        low_factual_consistency: true,
        low_relevance: false,
        low_completeness: true,
        high_hallucination_risk: true,
    };
    assert_eq!(
        generate_suggestions(&issues, flags),
        vec![
            "Verify facts against provided sources",
            "Provide a more comprehensive answer",
            "Avoid making unsupported claims",
            "Fact check: X",
            "Address: a",
            "Address: b",
            "Resolve contradictions in the answer",
        ]
    );
    let none = ScoreFlags { low_factual_consistency: false, low_relevance: false, low_completeness: false, high_hallucination_risk: false };
    assert!(generate_suggestions(&vec![], none).is_empty());
}
