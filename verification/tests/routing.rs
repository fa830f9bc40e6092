use crablet::intents::Intent;
use crablet::routing::{make_routing_decision, RouteRule, RoutingSignals, TargetSystem, UserFeedback};

fn signals(intent: Intent) -> RoutingSignals {
    RoutingSignals {
        top_skill: None,
        explicit_skill: None,
        intent,
        meets_system2_threshold: false,
        below_system3_threshold: false,
        needs_clarification: false,
    }
}

#[test]
fn greeting_goes_to_system1() {
    let plan = make_routing_decision(&signals(Intent::Greeting));
    assert_eq!(plan.target_system, TargetSystem::System1);
    assert_eq!(plan.estimated_latency_ms, 200);
    assert_eq!(plan.fallback_system, None);
    assert_eq!(plan.rule, RouteRule::SimpleIntent);
}

#[test]
fn research_needs_confirmation_below_threshold() {
    let mut s = signals(Intent::DeepResearch);
    s.below_system3_threshold = true;
    let plan = make_routing_decision(&s);
    assert_eq!(plan.target_system, TargetSystem::System3);
    assert!(plan.requires_confirmation);
    assert_eq!(plan.fallback_system, Some(TargetSystem::System2));
}

#[test]
fn skills_take_precedence() {
    let mut s = signals(Intent::Greeting);
    s.top_skill = Some(("calendar".to_string(), true));
    s.explicit_skill = Some("weather".to_string());
    let plan = make_routing_decision(&s);
    assert_eq!(plan.target_system, TargetSystem::SkillExecution("calendar".to_string()));
    assert_eq!(plan.rule, RouteRule::TopSkill);

    s.top_skill = Some(("calendar".to_string(), false));
    let plan = make_routing_decision(&s);
    assert_eq!(plan.target_system, TargetSystem::SkillExecution("weather".to_string()));
    assert_eq!(plan.rule, RouteRule::ExplicitSkill);
}

#[test]
fn coding_depends_on_system2_threshold() {
    let mut s = signals(Intent::Coding);
    assert_eq!(make_routing_decision(&s).target_system, TargetSystem::System1);
    assert_eq!(make_routing_decision(&s).estimated_latency_ms, 500);
    s.meets_system2_threshold = true;
    assert_eq!(make_routing_decision(&s).target_system, TargetSystem::System2);
    assert_eq!(make_routing_decision(&s).estimated_latency_ms, 3000);
}

#[test]
fn general_queries_may_ask_for_clarification() {
    let mut s = signals(Intent::Unknown);
    assert_eq!(make_routing_decision(&s).target_system, TargetSystem::System2);
    s.needs_clarification = true;
    let plan = make_routing_decision(&s);
    assert_eq!(plan.target_system, TargetSystem::Clarification);
    assert_eq!(plan.estimated_latency_ms, 100);
}

#[test]
fn multistep_creative_and_skill_intents() {
    assert_eq!(make_routing_decision(&signals(Intent::MultiStep)).target_system, TargetSystem::MultiStep);
    assert_eq!(make_routing_decision(&signals(Intent::Math)).target_system, TargetSystem::System2);
    let plan = make_routing_decision(&signals(Intent::SkillExecution("x".to_string())));
    assert_eq!(plan.target_system, TargetSystem::SkillExecution("x".to_string()));
    assert_eq!(plan.rule, RouteRule::IntentSkill);
}

#[test]
fn feedback_of_three_or_more_is_success() {
    let f = |rating: u8| UserFeedback { rating, comments: None, would_reroute: false, preferred_system: None };
    assert!(f(3).is_success());
    assert!(f(5).is_success());
    assert!(!f(2).is_success());
}
