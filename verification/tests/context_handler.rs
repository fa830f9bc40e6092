use crablet::context::{ContextHandler, ContextInfo};
use crablet::types::{ContentPart, Message};

fn text_message(role: &str, text: &str) -> Message {
    Message {
        role: role.to_string(),
        content: Some(vec![ContentPart::Text { text: text.to_string() }]),
        tool_calls: None,
        tool_call_id: None,
    }
}

#[test]
fn test_empty_context() {
    let info = ContextHandler::analyze_context(&[]);
    assert_eq!(info.turn_count, 0);
    assert!(!info.expecting_confirmation);
}

#[test]
fn test_confirmation_detection() {
    let context = vec![Message {
        role: "assistant".to_string(),
        content: Some(vec![ContentPart::Text {
            text: "Do you want me to proceed?".to_string(),
        }]),
        tool_calls: None,
        tool_call_id: None,
    }];
    let info = ContextHandler::analyze_context(&context);
    assert!(info.expecting_confirmation);
}

#[test]
fn test_topic_detection() {
    let context = vec![Message {
        role: "user".to_string(),
        content: Some(vec![ContentPart::Text {
            text: "Can you write some code?".to_string(),
        }]),
        tool_calls: None,
        tool_call_id: None,
    }];
    let info = ContextHandler::analyze_context(&context);
    assert_eq!(info.topic.as_deref(), Some("coding"));
}

#[test]
fn test_repetition_detection() {
    let context = vec![
        Message {
            role: "user".to_string(),
            content: Some(vec![ContentPart::Text { text: "hello".to_string() }]),
            tool_calls: None,
            tool_call_id: None,
        },
        Message {
            role: "assistant".to_string(),
            content: Some(vec![ContentPart::Text { text: "Hi there!".to_string() }]),
            tool_calls: None,
            tool_call_id: None,
        },
        Message {
            role: "user".to_string(),
            content: Some(vec![ContentPart::Text { text: "hello".to_string() }]),
            tool_calls: None,
            tool_call_id: None,
        },
    ];
    let info = ContextHandler::analyze_context(&context);
    assert!(info.is_repeating);
}

#[test]
fn test_context_modifier_repeating() {
    let info = ContextInfo { is_repeating: true, ..Default::default() };
    assert!(ContextHandler::get_context_modifier(&info).is_some());
}

#[test]
fn test_context_modifier_long_conversation() {
    let info = ContextInfo { turn_count: 15, ..Default::default() };
    assert!(ContextHandler::get_context_modifier(&info).is_some());
}

#[test]
fn context_tracks_last_role_and_turns() {
    let context = vec![text_message("user", "hi"), text_message("assistant", "Hello, how can I help")];
    let info = ContextHandler::analyze_context(&context);
    assert_eq!(info.turn_count, 2);
    assert_eq!(info.last_role, "assistant");
    assert!(!info.expecting_confirmation);
    assert!(!info.is_repeating);
}

#[test]
fn context_repetition_is_case_insensitive() {
    let context = vec![text_message("user", "Hello"), text_message("assistant", "Hi"), text_message("user", "HELLO")];
    assert!(ContextHandler::analyze_context(&context).is_repeating);
}

#[test]
fn context_modifier_texts() {
    let repeating = ContextInfo { is_repeating: true, turn_count: 20, ..Default::default() };
    assert_eq!(
        ContextHandler::get_context_modifier(&repeating).as_deref(),
        Some("I notice you've asked this before. ")
    );
    let long = ContextInfo { turn_count: 11, ..Default::default() };
    assert_eq!(
        ContextHandler::get_context_modifier(&long).as_deref(),
        Some("We've been chatting for a while! ")
    );
    let short = ContextInfo { turn_count: 10, ..Default::default() };
    assert_eq!(ContextHandler::get_context_modifier(&short), None);
}
