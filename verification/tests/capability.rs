use crablet::capability::{
    route_models, CapabilityDescriptor, CapabilityRequirements, FallbackPolicy, ModelCandidate, RouteError,
};

fn candidate(id: &str, capabilities: CapabilityDescriptor) -> ModelCandidate {
    ModelCandidate { id: id.into(), capabilities }
}

#[test]
fn matches_all_required_capabilities() {
    let candidates = vec![
        candidate("plain", CapabilityDescriptor::default()),
        candidate(
            "tools",
            CapabilityDescriptor { tool_calling: true, context_window: Some(32_000), ..Default::default() },
        ),
    ];
    let routed = route_models(
        &candidates,
        &CapabilityRequirements { tool_calling: true, min_context_window: Some(16_000), ..Default::default() },
        None,
        &FallbackPolicy::default(),
    )
    .unwrap();
    assert_eq!(routed.iter().map(|model| model.id.as_str()).collect::<Vec<_>>(), ["tools"]);
}

#[test]
fn reports_no_match_for_unknown_or_insufficient_capability() {
    let candidates = vec![candidate("unknown", CapabilityDescriptor::default())];
    assert_eq!(
        route_models(
            &candidates,
            &CapabilityRequirements { multimodal: true, ..Default::default() },
            None,
            &FallbackPolicy::default()
        ),
        Err(RouteError::NoMatchingModel)
    );
}

#[test]
fn preferred_then_configured_fallback_order_is_stable() {
    let capable = CapabilityDescriptor { structured_output: true, ..Default::default() };
    let candidates = vec![
        candidate("a", capable.clone()),
        candidate("b", capable.clone()),
        candidate("c", capable),
    ];
    let routed = route_models(
        &candidates,
        &CapabilityRequirements { structured_output: true, ..Default::default() },
        Some("b"),
        &FallbackPolicy { order: vec!["c".into(), "a".into()] },
    )
    .unwrap();
    assert_eq!(routed.iter().map(|model| model.id.as_str()).collect::<Vec<_>>(), ["b", "c", "a"]);
}

#[test]
fn legacy_unspecified_requirements_preserve_preferred_and_input_order() {
    let candidates = vec![
        candidate("legacy-a", CapabilityDescriptor::default()),
        candidate("legacy-b", CapabilityDescriptor::default()),
    ];
    let routed = route_models(
        &candidates,
        &CapabilityRequirements::default(),
        Some("legacy-a"),
        &FallbackPolicy::default(),
    )
    .unwrap();
    assert_eq!(routed.iter().map(|model| model.id.as_str()).collect::<Vec<_>>(), ["legacy-a", "legacy-b"]);
}

#[test]
fn context_window_requirement_needs_declared_window() {
    let req = CapabilityRequirements { min_context_window: Some(8_000), ..Default::default() };
    assert!(!CapabilityDescriptor::default().satisfies(&req));
    let small = CapabilityDescriptor { context_window: Some(4_000), ..Default::default() };
    assert!(!small.satisfies(&req));
    let exact = CapabilityDescriptor { context_window: Some(8_000), ..Default::default() };
    assert!(exact.satisfies(&req));
}

#[test]
fn unlisted_candidates_keep_input_order_after_fallbacks() {
    let caps = CapabilityDescriptor::default();
    let candidates = vec![
        candidate("x", caps.clone()),
        candidate("y", caps.clone()),
        candidate("z", caps.clone()),
        candidate("w", caps),
    ];
    let routed = route_models(
        &candidates,
        &CapabilityRequirements::default(),
        Some("missing"),
        &FallbackPolicy { order: vec!["w".into()] },
    )
    .unwrap();
    assert_eq!(routed.iter().map(|model| model.id.as_str()).collect::<Vec<_>>(), ["w", "x", "y", "z"]);
}

#[test]
fn route_error_message() {
    assert_eq!(RouteError::NoMatchingModel.to_string(), "no model satisfies the required capabilities");
}
