//! The rule table of adaptive routing: which processing system a query goes
//! to, given its skill matches and classified intent.
use vstd::prelude::*;
use crate::intents::Intent;

verus! {

broadcast use vstd::string::group_string_axioms;

/// Target processing systems.
#[derive(Debug, Clone, PartialEq, Eq, Hash)]
pub enum TargetSystem {
    /// Fast, simple responses.
    System1,
    /// Balanced reasoning.
    System2,
    /// Deep research.
    System3,
    /// Execute a specific skill.
    SkillExecution(String),
    /// Ask the user for clarification.
    Clarification,
    /// Break into multiple steps.
    MultiStep,
}

/// The rule that chose a route. The caller derives the reported confidence
/// and the reasoning text from it.
#[derive(Debug, Clone, Copy, PartialEq, Eq, Structural)]
pub enum RouteRule {
    /// A high-confidence skill match (confidence: the match score).
    TopSkill,
    /// An explicit skill invocation in the query (confidence 0.95).
    ExplicitSkill,
    /// Greeting, help or status (confidence: the intent's).
    SimpleIntent,
    /// Deep research (confidence: the intent's).
    DeepResearch,
    /// A multi-step task (confidence: the intent's).
    MultiStepTask,
    /// Coding or analysis (confidence: the intent's).
    CodingOrAnalysis,
    /// Creative or math (confidence: the intent's).
    CreativeOrMath,
    /// The classifier named a skill (confidence 0.9).
    IntentSkill,
    /// Low confidence: ask for clarification (confidence: one minus the intent's).
    Clarify,
    /// A general query for the balanced system (confidence: the intent's).
    GeneralQuery,
}

/// What routing decided.
#[derive(Debug, Clone)]
pub struct RoutePlan {
    pub target_system: TargetSystem,
    pub estimated_latency_ms: u32,
    pub fallback_system: Option<TargetSystem>,
    pub requires_confirmation: bool,
    pub rule: RouteRule,
}

/// The signals routing decides on. Comparisons of confidences with the
/// adaptive thresholds arrive as their outcomes.
#[derive(Debug, Clone)]
pub struct RoutingSignals {
    /// The best skill match, if any, with whether it qualifies for automatic
    /// execution (its confidence tier allows it and its score reaches the threshold).
    pub top_skill: Option<(String, bool)>,
    /// The skill the query explicitly invokes, if any.
    pub explicit_skill: Option<String>,
    /// The classified intent.
    pub intent: Intent,
    /// The intent confidence reaches the System 2 threshold.
    pub meets_system2_threshold: bool,
    /// The intent confidence is below the System 3 threshold.
    pub below_system3_threshold: bool,
    /// The classifier asks for clarification, or the confidence is below the
    /// clarification threshold.
    pub needs_clarification: bool,
}

/// A route plan from its parts.
pub open spec fn plan(
    target: TargetSystem,
    latency: u32,
    fallback: Option<TargetSystem>,
    confirm: bool,
    rule: RouteRule,
) -> RoutePlan {
    RoutePlan {
        target_system: target,
        estimated_latency_ms: latency,
        fallback_system: fallback,
        requires_confirmation: confirm,
        rule: rule,
    }
}

/// The route for the given signals: an auto-executable top skill first, then
/// an explicit invocation, then by intent.
pub open spec fn route_for(s: RoutingSignals) -> RoutePlan {
    let auto_skill: Option<String> = match s.top_skill {
        Some(t) => if t.1 {
            Some(t.0)
        } else {
            None
        },
        None => None,
    };
    if auto_skill is Some {
        plan(
            TargetSystem::SkillExecution(auto_skill->0),
            500,
            Some(TargetSystem::System2),
            false,
            RouteRule::TopSkill,
        )
    } else if s.explicit_skill is Some {
        plan(
            TargetSystem::SkillExecution(s.explicit_skill->0),
            500,
            Some(TargetSystem::System2),
            false,
            RouteRule::ExplicitSkill,
        )
    } else {
        match s.intent {
            Intent::Greeting | Intent::Help | Intent::Status => plan(
                TargetSystem::System1,
                200,
                None,
                false,
                RouteRule::SimpleIntent,
            ),
            Intent::DeepResearch => plan(
                TargetSystem::System3,
                10000,
                Some(TargetSystem::System2),
                s.below_system3_threshold,
                RouteRule::DeepResearch,
            ),
            Intent::MultiStep => plan(
                TargetSystem::MultiStep,
                5000,
                Some(TargetSystem::System2),
                false,
                RouteRule::MultiStepTask,
            ),
            Intent::Coding | Intent::Analysis => if s.meets_system2_threshold {
                plan(TargetSystem::System2, 3000, Some(TargetSystem::System1), false, RouteRule::CodingOrAnalysis)
            } else {
                plan(TargetSystem::System1, 500, Some(TargetSystem::System1), false, RouteRule::CodingOrAnalysis)
            },
            Intent::Creative | Intent::Math => plan(
                TargetSystem::System2,
                2000,
                Some(TargetSystem::System1),
                false,
                RouteRule::CreativeOrMath,
            ),
            Intent::SkillExecution(name) => plan(
                TargetSystem::SkillExecution(name),
                500,
                Some(TargetSystem::System2),
                false,
                RouteRule::IntentSkill,
            ),
            Intent::General | Intent::Unknown => if s.needs_clarification {
                plan(TargetSystem::Clarification, 100, Some(TargetSystem::System2), false, RouteRule::Clarify)
            } else {
                plan(TargetSystem::System2, 2000, Some(TargetSystem::System1), false, RouteRule::GeneralQuery)
            },
        }
    }
}

/// Make routing decision based on all signals.
pub fn make_routing_decision(s: &RoutingSignals) -> (p: RoutePlan)
    ensures
        p == route_for(*s),
{
    if let Some(top) = &s.top_skill {
        if top.1 {
            return RoutePlan {
                target_system: TargetSystem::SkillExecution(top.0.clone()),
                estimated_latency_ms: 500,
                fallback_system: Some(TargetSystem::System2),
                requires_confirmation: false,
                rule: RouteRule::TopSkill,
            };
        }
    }
    if let Some(name) = &s.explicit_skill {
        return RoutePlan {
            target_system: TargetSystem::SkillExecution(name.clone()),
            estimated_latency_ms: 500,
            fallback_system: Some(TargetSystem::System2),
            requires_confirmation: false,
            rule: RouteRule::ExplicitSkill,
        };
    }
    match &s.intent {
        Intent::Greeting | Intent::Help | Intent::Status => RoutePlan {
            target_system: TargetSystem::System1,
            estimated_latency_ms: 200,
            fallback_system: None,
            requires_confirmation: false,
            rule: RouteRule::SimpleIntent,
        },
        Intent::DeepResearch => RoutePlan {
            target_system: TargetSystem::System3,
            estimated_latency_ms: 10000,
            fallback_system: Some(TargetSystem::System2),
            requires_confirmation: s.below_system3_threshold,
            rule: RouteRule::DeepResearch,
        },
        Intent::MultiStep => RoutePlan {
            target_system: TargetSystem::MultiStep,
            estimated_latency_ms: 5000,
            fallback_system: Some(TargetSystem::System2),
            requires_confirmation: false,
            rule: RouteRule::MultiStepTask,
        },
        Intent::Coding | Intent::Analysis => {
            let (target, latency) = if s.meets_system2_threshold {
                (TargetSystem::System2, 3000u32)
            } else {
                (TargetSystem::System1, 500u32)
            };
            RoutePlan {
                target_system: target,
                estimated_latency_ms: latency,
                fallback_system: Some(TargetSystem::System1),
                requires_confirmation: false,
                rule: RouteRule::CodingOrAnalysis,
            }
        },
        Intent::Creative | Intent::Math => RoutePlan {
            target_system: TargetSystem::System2,
            estimated_latency_ms: 2000,
            fallback_system: Some(TargetSystem::System1),
            requires_confirmation: false,
            rule: RouteRule::CreativeOrMath,
        },
        Intent::SkillExecution(skill_name) => RoutePlan {
            target_system: TargetSystem::SkillExecution(skill_name.clone()),
            estimated_latency_ms: 500,
            fallback_system: Some(TargetSystem::System2),
            requires_confirmation: false,
            rule: RouteRule::IntentSkill,
        },
        Intent::General | Intent::Unknown => {
            if s.needs_clarification {
                RoutePlan {
                    target_system: TargetSystem::Clarification,
                    estimated_latency_ms: 100,
                    fallback_system: Some(TargetSystem::System2),
                    requires_confirmation: false,
                    rule: RouteRule::Clarify,
                }
            } else {
                RoutePlan {
                    target_system: TargetSystem::System2,
                    estimated_latency_ms: 2000,
                    fallback_system: Some(TargetSystem::System1),
                    requires_confirmation: false,
                    rule: RouteRule::GeneralQuery,
                }
            }
        },
    }
}

/// The routing table. An auto-executable top skill is executed (500 ms, System 2
/// as fallback); otherwise an explicitly invoked skill is. Without either, the
/// intent decides: greeting, help and status go to System 1 (200 ms, no
/// fallback), and they are the only intents that do; creative and math queries
/// go alike to System 2 (2000 ms, System 1 as fallback); deep research goes to
/// System 3 (10000 ms, System 2 as fallback), asking for confirmation exactly
/// when the confidence is below the System 3 threshold; multi-step tasks are
/// broken into steps (5000 ms, System 2 as fallback); coding and analysis go
/// to System 2 (3000 ms) when the confidence reaches the System 2 threshold
/// and to System 1 (500 ms) otherwise, with System 1 as fallback; a skill
/// named by the classifier is executed (500 ms, System 2 as fallback); general
/// and unknown queries ask for clarification (100 ms, System 2 as fallback)
/// when the classifier or the confidence calls for it, and go to System 2
/// (2000 ms, System 1 as fallback) otherwise. Only deep research asks for
/// confirmation.
pub proof fn routes_follow_the_intent_table(s: RoutingSignals)
    ensures
        s.top_skill is Some && (s.top_skill->0).1 ==> route_for(s).target_system
            == TargetSystem::SkillExecution((s.top_skill->0).0) && route_for(s).estimated_latency_ms
            == 500 && route_for(s).fallback_system == Some(TargetSystem::System2)
            && !route_for(s).requires_confirmation && route_for(s).rule == RouteRule::TopSkill,
        !(s.top_skill is Some && (s.top_skill->0).1) && s.explicit_skill is Some ==> route_for(
            s,
        ).target_system == TargetSystem::SkillExecution(s.explicit_skill->0)
            && route_for(s).estimated_latency_ms == 500 && route_for(s).fallback_system == Some(
            TargetSystem::System2,
        ) && !route_for(s).requires_confirmation && route_for(s).rule == RouteRule::ExplicitSkill,
        !(s.top_skill is Some && (s.top_skill->0).1) && s.explicit_skill is None && (s.intent is Greeting
            || s.intent is Help || s.intent is Status) ==> route_for(s).target_system
            == TargetSystem::System1 && route_for(s).estimated_latency_ms == 200
            && route_for(s).fallback_system is None && !route_for(s).requires_confirmation
            && route_for(s).rule == RouteRule::SimpleIntent,
        !(s.top_skill is Some && (s.top_skill->0).1) && s.explicit_skill is None && (s.intent is Creative
            || s.intent is Math) ==> route_for(s).target_system == TargetSystem::System2
            && route_for(s).estimated_latency_ms == 2000 && route_for(s).fallback_system == Some(
            TargetSystem::System1,
        ) && !route_for(s).requires_confirmation && route_for(s).rule == RouteRule::CreativeOrMath,
        !(s.top_skill is Some && (s.top_skill->0).1) && s.explicit_skill is None && s.intent is DeepResearch
            ==> route_for(s).target_system == TargetSystem::System3 && route_for(s).estimated_latency_ms
            == 10000 && route_for(s).fallback_system == Some(TargetSystem::System2)
            && route_for(s).requires_confirmation == s.below_system3_threshold && route_for(s).rule
            == RouteRule::DeepResearch,
        !(s.top_skill is Some && (s.top_skill->0).1) && s.explicit_skill is None && s.intent is MultiStep
            ==> route_for(s).target_system == TargetSystem::MultiStep && route_for(
            s,
        ).estimated_latency_ms == 5000 && route_for(s).fallback_system == Some(TargetSystem::System2)
            && !route_for(s).requires_confirmation && route_for(s).rule == RouteRule::MultiStepTask,
        !(s.top_skill is Some && (s.top_skill->0).1) && s.explicit_skill is None && (s.intent is Coding
            || s.intent is Analysis) && s.meets_system2_threshold ==> route_for(s).target_system
            == TargetSystem::System2 && route_for(s).estimated_latency_ms == 3000
            && route_for(s).fallback_system == Some(TargetSystem::System1)
            && !route_for(s).requires_confirmation && route_for(s).rule == RouteRule::CodingOrAnalysis,
        !(s.top_skill is Some && (s.top_skill->0).1) && s.explicit_skill is None && (s.intent is Coding
            || s.intent is Analysis) && !s.meets_system2_threshold ==> route_for(s).target_system
            == TargetSystem::System1 && route_for(s).estimated_latency_ms == 500
            && route_for(s).fallback_system == Some(TargetSystem::System1)
            && !route_for(s).requires_confirmation && route_for(s).rule == RouteRule::CodingOrAnalysis,
        !(s.top_skill is Some && (s.top_skill->0).1) && s.explicit_skill is None && s.intent is SkillExecution
            ==> route_for(s).target_system == TargetSystem::SkillExecution(s.intent->SkillExecution_0)
            && route_for(s).estimated_latency_ms == 500 && route_for(s).fallback_system == Some(
            TargetSystem::System2,
        ) && !route_for(s).requires_confirmation && route_for(s).rule == RouteRule::IntentSkill,
        !(s.top_skill is Some && (s.top_skill->0).1) && s.explicit_skill is None && (s.intent is General
            || s.intent is Unknown) && s.needs_clarification ==> route_for(s).target_system
            == TargetSystem::Clarification && route_for(s).estimated_latency_ms == 100
            && route_for(s).fallback_system == Some(TargetSystem::System2)
            && !route_for(s).requires_confirmation && route_for(s).rule == RouteRule::Clarify,
        !(s.top_skill is Some && (s.top_skill->0).1) && s.explicit_skill is None && (s.intent is General
            || s.intent is Unknown) && !s.needs_clarification ==> route_for(s).target_system
            == TargetSystem::System2 && route_for(s).estimated_latency_ms == 2000
            && route_for(s).fallback_system == Some(TargetSystem::System1)
            && !route_for(s).requires_confirmation && route_for(s).rule == RouteRule::GeneralQuery,
        route_for(s).fallback_system is None <==> !(s.top_skill is Some && (s.top_skill->0).1)
            && s.explicit_skill is None && (s.intent is Greeting || s.intent is Help
            || s.intent is Status),
        route_for(s).requires_confirmation ==> s.intent is DeepResearch,
{
}

/// A user's judgement of a routing decision.
#[derive(Debug, Clone)]
pub struct UserFeedback {
    /// From 1 to 5.
    pub rating: u8,
    pub comments: Option<String>,
    pub would_reroute: bool,
    pub preferred_system: Option<TargetSystem>,
}

impl UserFeedback {
    /// A rating of three or more counts the request as successful.
    pub fn is_success(&self) -> (b: bool)
        ensures
            b == (self.rating >= 3),
    {
        self.rating >= 3
    }
}

} // verus!
