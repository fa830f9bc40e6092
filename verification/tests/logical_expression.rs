use crablet::logic::{InferenceRule, LogicError, LogicalExpression, RuleType, StringHashMap};

fn var(name: &str) -> LogicalExpression {
    LogicalExpression::Variable(name.to_string())
}

fn context_of(pairs: &[(&str, bool)]) -> StringHashMap<bool> {
    let mut ctx = StringHashMap::new();
    for (k, v) in pairs {
        ctx.insert(k.to_string(), *v);
    }
    ctx
}

#[test]
fn test_parse_variable() {
    let expr = LogicalExpression::parse("rain").unwrap();
    assert_eq!(expr, LogicalExpression::Variable("rain".to_string()));
}

#[test]
fn test_parse_and() {
    let expr = LogicalExpression::parse("rain AND cold").unwrap();
    match expr {
        LogicalExpression::And(_, _) => {}
        _ => panic!("Expected And expression"),
    }
}

#[test]
fn test_parse_implies() {
    let expr = LogicalExpression::parse("rain IMPLIES wet").unwrap();
    match expr {
        LogicalExpression::Implies(_, _) => {}
        _ => panic!("Expected Implies expression"),
    }
}

#[test]
fn test_evaluate_and() {
    let expr = LogicalExpression::parse("a AND b").unwrap();
    let ctx = context_of(&[("a", true), ("b", true)]);
    assert!(expr.evaluate(&ctx).unwrap());
}

#[test]
fn test_evaluate_or() {
    let expr = LogicalExpression::parse("a OR b").unwrap();
    let ctx = context_of(&[("a", true), ("b", false)]);
    assert!(expr.evaluate(&ctx).unwrap());
}

#[test]
fn test_get_variables() {
    let expr = LogicalExpression::parse("a AND b").unwrap();
    let vars = expr.get_variables();
    assert!(vars.contains("a"));
    assert!(vars.contains("b"));
}

#[test]
fn test_modus_ponens() {
    let rule = InferenceRule::modus_ponens();
    assert_eq!(rule.rule_type, RuleType::ModusPonens);
}

#[test]
fn parse_structure_and_precedence() {
    let expr = LogicalExpression::parse("a IMPLIES b AND c").unwrap();
    // AND is split first, so it binds loosest.
    assert_eq!(
        expr,
        LogicalExpression::And(
            Box::new(LogicalExpression::Implies(Box::new(var("a")), Box::new(var("b")))),
            Box::new(var("c"))
        )
    );
    let neg = LogicalExpression::parse("NOT rain").unwrap();
    assert_eq!(neg, LogicalExpression::Not(Box::new(var("rain"))));
}

#[test]
fn evaluate_reports_unknown_variable() {
    let expr = LogicalExpression::parse("a AND b").unwrap();
    let ctx = context_of(&[("a", true)]);
    match expr.evaluate(&ctx) {
        Err(LogicError::UnknownVariable(name)) => assert_eq!(name, "b"),
        other => panic!("unexpected result {:?}", other),
    }
}

#[test]
fn evaluate_and_skips_right_operand_when_left_is_false() {
    let expr = LogicalExpression::parse("a AND b").unwrap();
    assert!(!expr.evaluate(&context_of(&[("a", false)])).unwrap());
}

#[test]
fn evaluate_implication_truth_table() {
    let expr = LogicalExpression::parse("p IMPLIES q").unwrap();
    assert!(expr.evaluate(&context_of(&[("p", false), ("q", false)])).unwrap());
    assert!(expr.evaluate(&context_of(&[("p", true), ("q", true)])).unwrap());
    assert!(!expr.evaluate(&context_of(&[("p", true), ("q", false)])).unwrap());
}

#[test]
fn modus_ponens_matches_its_premises() {
    let rule = InferenceRule::modus_ponens();
    let facts = vec![
        LogicalExpression::Implies(Box::new(var("A")), Box::new(var("B"))),
        var("A"),
    ];
    assert!(rule.matches(&facts));
    assert!(!rule.matches(&vec![var("A")]));
    // A negated fact also unifies with its antecedent.
    let negated = vec![
        LogicalExpression::Not(Box::new(var("A"))),
        LogicalExpression::Implies(Box::new(var("A")), Box::new(var("B"))),
    ];
    assert!(rule.matches(&negated));
}

#[test]
fn display_round_trips_through_parse() {
    let expr = LogicalExpression::parse("a AND b").unwrap();
    let shown = expr.to_string();
    assert_eq!(LogicalExpression::parse(&shown).unwrap(), expr);
}

#[test]
fn quantifier_without_body_is_malformed() {
    match LogicalExpression::parse("FORALL x (") {
        Err(LogicError::Malformed(text)) => assert_eq!(text, "FORALL x ("),
        other => panic!("expected a malformed text, got {:?}", other),
    }
    assert!(matches!(LogicalExpression::parse("NOT FORALL x ("), Err(LogicError::Malformed(_))));
    assert!(LogicalExpression::parse("FORALL x (p)").is_ok());
}

#[test]
fn readable_expressions_read_back_from_their_text() {
    let b = |e: LogicalExpression| Box::new(e);
    let cases = vec![
        var("rain"),
        LogicalExpression::Constant(false),
        LogicalExpression::Or(b(var("wet")), b(LogicalExpression::Constant(true))),
        LogicalExpression::Not(b(LogicalExpression::Equivalent(b(var("p")), b(var("q"))))),
        LogicalExpression::Not(b(LogicalExpression::Not(b(var("x"))))),
        LogicalExpression::Implies(b(var("a_1")), b(var("b-2"))),
        LogicalExpression::And(b(LogicalExpression::Or(b(var("a")), b(var("b")))), b(var("c"))),
        LogicalExpression::Or(
            b(var("a")),
            b(LogicalExpression::And(b(var("b")), b(LogicalExpression::Not(b(var("c")))))),
        ),
    ];
    for e in cases {
        assert_eq!(LogicalExpression::parse(&e.to_string()).unwrap(), e);
    }
    // A negation on the left of a connective reads back differently.
    let left_not = LogicalExpression::And(b(LogicalExpression::Not(b(var("a")))), b(var("b")));
    assert_eq!(left_not.to_string(), "(NOT (a) AND b)");
    assert_eq!(
        LogicalExpression::parse(&left_not.to_string()).unwrap(),
        LogicalExpression::Not(b(LogicalExpression::And(b(var("a")), b(var("b")))))
    );
    // Connectives on both sides lose the outer parentheses twice.
    let both = LogicalExpression::Or(
        b(LogicalExpression::And(b(var("a")), b(var("b")))),
        b(LogicalExpression::And(b(var("c")), b(var("d")))),
    );
    assert_ne!(LogicalExpression::parse(&both.to_string()).unwrap(), both);
}
