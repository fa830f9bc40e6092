use crablet::guard::{LoopDetectionResult, TerminationReason};
use crablet::react::{
    describe_loop, describe_reason, extract_thought, follow_up_instruction, forced_summary, guard_warning,
    parse_fallback_action, react_step, ReActAction, ReActEvent, ReActState, basic_react_step, BasicReActAction,
    BasicReActState, limit_reached_message, reflection_text, revised_answer, reflection_thought, critique_prompt,
    thinking_failed,
};
use crablet::types::{ContentPart, ImageUrl, Message};

#[test]
fn thought_is_the_text_of_the_reply() {
    let m = Message {
        role: "assistant".to_string(),
        content: Some(vec![
            ContentPart::Text { text: "I should ".to_string() },
            ContentPart::ImageUrl { image_url: ImageUrl { url: "u".to_string() } },
            ContentPart::Text { text: "search.".to_string() },
        ]),
        tool_calls: None,
        tool_call_id: None,
    };
    assert_eq!(extract_thought(&m), "I should search.");
    let empty = Message { role: "assistant".to_string(), content: None, tool_calls: None, tool_call_id: None };
    assert_eq!(extract_thought(&empty), "");
}

#[test]
fn actions_written_in_thoughts_are_read() {
    assert_eq!(
        parse_fallback_action("I will look. Action: use search {\"q\": \"rust\"} then answer"),
        Some(("search".to_string(), "{\"q\": \"rust\"}".to_string()))
    );
    assert_eq!(parse_fallback_action("action: Web-Fetch {}"), Some(("Web-Fetch".to_string(), "{}".to_string())));
    // The arguments end at the first closing brace.
    assert_eq!(
        parse_fallback_action("Action: calc {\"x\": {\"y\": 1}}"),
        Some(("calc".to_string(), "{\"x\": {\"y\": 1}".to_string()))
    );
    assert_eq!(parse_fallback_action("No action here"), None);
}

#[test]
fn descriptions_match_debug_output() {
    let loops = vec![
        LoopDetectionResult::NoLoop,
        LoopDetectionResult::ExactLoop { count: 2 },
        LoopDetectionResult::ResourceLoop { resource: "a \"b\".png".to_string(), count: 3 },
        LoopDetectionResult::SemanticLoop { shared_words: 9, all_words: 10 },
    ];
    for l in &loops {
        assert_eq!(describe_loop(l), format!("{:?}", l));
        let r = TerminationReason::LoopDetected(l.clone());
        assert_eq!(describe_reason(&r), format!("{:?}", r));
    }
    for r in [TerminationReason::MaxStepsReached, TerminationReason::Timeout, TerminationReason::UserRequest] {
        assert_eq!(describe_reason(&r), format!("{:?}", r));
    }
}

#[test]
fn blocked_calls_are_answered_with_warnings() {
    assert_eq!(
        guard_warning(&TerminationReason::LoopDetected(LoopDetectionResult::ExactLoop { count: 1 })),
        "System Warning: Loop detected: ExactLoop { count: 1 }"
    );
    assert_eq!(
        guard_warning(&TerminationReason::ConfidenceDecay),
        "System Warning: Confidence declining, stopping further exploration"
    );
    assert_eq!(guard_warning(&TerminationReason::Timeout), "System Warning: Execution blocked: Timeout");
}

#[test]
fn forced_summaries() {
    let obs = vec!["found A".to_string(), "found B".to_string()];
    assert_eq!(
        forced_summary(&TerminationReason::MaxStepsReached, 10, 300, &obs),
        "After 10 reasoning steps, I've gathered the following:\nfound A\nfound B\n\nBased on this analysis, my best assessment is that the task requires more information or a different approach."
    );
    assert_eq!(
        forced_summary(&TerminationReason::Timeout, 10, 300, &obs),
        "The reasoning process exceeded the time limit of 300 seconds.\nPartial findings:\nfound A\nfound B"
    );
    assert_eq!(forced_summary(&TerminationReason::Success, 10, 300, &obs), "found A\nfound B");
    assert!(forced_summary(
        &TerminationReason::LoopDetected(LoopDetectionResult::ExactLoop { count: 2 }),
        10,
        300,
        &vec![]
    )
    .starts_with("I detected repetitive reasoning patterns:\nExactLoop { count: 2 }\n\n"));
    assert_eq!(follow_up_instruction().role, "system");
}

fn replied(thought: &str, has_tool_calls: bool) -> ReActEvent {
    ReActEvent::Replied { thought: thought.to_string(), has_tool_calls }
}

#[test]
fn loop_steps_ask_run_answer_and_stop() {
    let s0 = ReActState { step: 0, max_steps: 3 };
    let (s, a) = react_step(&s0, &ReActEvent::Started);
    assert_eq!(s, s0);
    assert!(matches!(a, ReActAction::CallModel { step_num: 1, follow_up: false }));
    let (_, a) = react_step(&s0, &replied("thinking", true));
    assert!(matches!(a, ReActAction::RunTools(None)));
    let (_, a) = react_step(&s0, &replied("Action: search {\"q\": 1}", false));
    match a {
        ReActAction::RunTools(Some((name, args))) => {
            assert_eq!(name, "search");
            assert_eq!(args, "{\"q\": 1}");
        }
        other => panic!("expected a fallback action, got {:?}", other),
    }
    let (_, a) = react_step(&s0, &replied("The answer is 4", false));
    assert!(matches!(a, ReActAction::Answer(t) if t == "The answer is 4"));
    let (s1, a) = react_step(&s0, &ReActEvent::ToolsRan);
    assert_eq!(s1, ReActState { step: 1, max_steps: 3 });
    assert!(matches!(a, ReActAction::CallModel { step_num: 2, follow_up: true }));
    // The last step is refused by the step limit.
    let (s2, a) = react_step(&s1, &ReActEvent::ToolsRan);
    assert_eq!(s2.step, 2);
    assert!(matches!(a, ReActAction::Summarize(TerminationReason::MaxStepsReached)));
    // A failure on the first step fails the loop; later it is summarised.
    assert!(matches!(react_step(&s0, &ReActEvent::ModelFailed).1, ReActAction::Fail));
    assert!(matches!(react_step(&s1, &ReActEvent::ModelFailed).1, ReActAction::Summarize(TerminationReason::Timeout)));
    let none = ReActState { step: 0, max_steps: 0 };
    assert!(matches!(react_step(&none, &ReActEvent::Started).1, ReActAction::Summarize(TerminationReason::MaxStepsReached)));
}

#[test]
fn basic_loop_steps() {
    let s0 = BasicReActState { step: 0, max_steps: 5 };
    assert!(matches!(basic_react_step(&s0, &ReActEvent::Started).1, BasicReActAction::CallModel { step_num: 1, follow_up: false }));
    let (s1, a) = basic_react_step(&s0, &ReActEvent::ToolsRan);
    assert_eq!(s1.step, 1);
    assert!(matches!(a, BasicReActAction::CallModel { step_num: 2, follow_up: true }));
    assert!(matches!(basic_react_step(&s0, &replied("done", false)).1, BasicReActAction::Answer(t) if t == "done"));
    let s2 = BasicReActState { step: 2, max_steps: 5 };
    assert!(matches!(basic_react_step(&s2, &replied("done", false)).1, BasicReActAction::Reflect(t) if t == "done"));
    let short = BasicReActState { step: 2, max_steps: 3 };
    assert!(matches!(basic_react_step(&short, &replied("done", false)).1, BasicReActAction::Answer(_)));
    assert!(matches!(basic_react_step(&short, &ReActEvent::ToolsRan).1, BasicReActAction::LimitReached));
    assert!(matches!(basic_react_step(&s0, &ReActEvent::ModelFailed).1, BasicReActAction::Fail));
    assert!(matches!(basic_react_step(&s1, &ReActEvent::ModelFailed).1, BasicReActAction::GiveUp));
    assert_eq!(thinking_failed(), "Thinking failed due to an LLM error.");
}

#[test]
fn basic_loop_texts() {
    assert_eq!(
        limit_reached_message(Some(("t", Some("obs")))),
        "I reached my maximum steps. Here is the last piece of information I found: \n\nobs"
    );
    assert_eq!(limit_reached_message(Some(("t", None))), "t");
    assert_eq!(limit_reached_message(None), "I couldn't finish the task within the maximum step limit.");
    assert_eq!(reflection_text("x {\"a\": {\"b\": 1}} y }z"), Some("{\"a\": {\"b\": 1}} y }".to_string()));
    assert_eq!(reflection_text("no json"), Some("no json".to_string()));
    assert_eq!(reflection_text("} before {"), None);
    assert_eq!(revised_answer("A"), "A (Revised after reflection)");
    assert_eq!(reflection_thought("T", "C"), "Reflection: T\nCritique: C");
    assert!(critique_prompt("ans").contains("Original answer: ans\n\nProvide your critique"));
}
