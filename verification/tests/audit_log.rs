use crablet::audit::{AuditAction, AuditEntry, IssueType, ProofChain, VerificationIssue, VerificationResult};
use crablet::logic::{LogicalExpression, ProofStep};

fn step(n: usize, expr: LogicalExpression, antecedents: Vec<usize>) -> ProofStep {
    ProofStep {
        step_number: n,
        expression: expr,
        rule_name: "Modus Ponens".to_string(),
        antecedents,
        justification: "If A implies B and A is true, then B is true".to_string(),
        timestamp: 0,
    }
}

#[test]
fn test_proof_chain_new() {
    let chain = ProofChain::new("test-proof".to_string());
    assert_eq!(chain.id, "test-proof");
    assert!(!chain.is_valid);
    assert_eq!(chain.trust_level_hundredths, 0);
}

#[test]
fn test_proof_chain_verify_empty() {
    let chain = ProofChain::new("test-proof".to_string());
    assert!(!chain.verify());
}

#[test]
fn test_verification_result_default() {
    let result = VerificationResult {
        is_valid: false,
        proof_chain: None,
        trust_level_hundredths: 0,
        issues: Vec::new(),
        timestamp: 0,
    };
    assert!(!result.is_valid);
    assert!(result.issues.is_empty());
}

#[test]
fn steps_must_cite_earlier_steps() {
    let mut chain = ProofChain::new("p".to_string());
    chain.add_step(step(1, LogicalExpression::Variable("A".to_string()), vec![]));
    chain.add_step(step(2, LogicalExpression::Variable("B".to_string()), vec![0, 1]));
    assert!(chain.verify());
    chain.add_step(step(3, LogicalExpression::Variable("C".to_string()), vec![3]));
    assert!(!chain.verify());
}

#[test]
fn chain_is_displayed_step_by_step() {
    let mut chain = ProofChain::new("p1".to_string());
    chain.is_valid = true;
    chain.trust_level_hundredths = 95;
    let ab = LogicalExpression::parse("A IMPLIES B").unwrap();
    chain.add_step(step(1, ab, vec![0, 2]));
    chain.conclusion = Some(LogicalExpression::Variable("B".to_string()));
    let expected = format!(
        "Proof ID: p1\nValid: true | Trust Level: 0.95\n\n[Step 1] {}\n  Rule: Modus Ponens\n  From: [0, 2]\n  Justification: If A implies B and A is true, then B is true\n\nConclusion: B\n",
        LogicalExpression::parse("A IMPLIES B").unwrap().to_string()
    );
    assert_eq!(chain.to_display_string(), expected);
    let empty = ProofChain::new("e".to_string());
    assert_eq!(empty.to_display_string(), "Proof ID: e\nValid: false | Trust Level: 0.00\n\n");
}

#[test]
fn audit_types_hold_their_values() {
    let issue = VerificationIssue {
        issue_type: IssueType::CircularReasoning,
        description: "cycle".to_string(),
        severity_hundredths: 80,
        step_number: Some(2),
    };
    assert_eq!(issue.issue_type, IssueType::CircularReasoning);
    let entry = AuditEntry {
        id: "1".to_string(),
        action: AuditAction::FactAdded,
        details: "A".to_string(),
        timestamp: 1,
        prev_hash: String::new(),
        hash: "h".to_string(),
    };
    assert_eq!(entry.action, AuditAction::FactAdded);
}
