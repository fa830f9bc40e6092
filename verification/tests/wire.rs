use crablet::types::{to_wire_messages, wire_content, ContentPart, ImageUrl, Message, WireContent};

#[test]
fn text_parts_are_joined() {
    let content = Some(vec![
        ContentPart::Text { text: "Hello, ".to_string() },
        ContentPart::Text { text: "world".to_string() },
    ]);
    match wire_content(&content) {
        Some(WireContent::Text(t)) => assert_eq!(t, "Hello, world"),
        _ => panic!("expected joined text"),
    }
}

#[test]
fn empty_content_is_omitted() {
    assert!(wire_content(&None).is_none());
    assert!(wire_content(&Some(Vec::new())).is_none());
    assert!(wire_content(&Some(vec![ContentPart::Text { text: String::new() }])).is_none());
}

#[test]
fn mixed_parts_are_sent_as_parts() {
    let content = Some(vec![
        ContentPart::Text { text: "look".to_string() },
        ContentPart::ImageUrl { image_url: ImageUrl { url: "http://x/y.png".to_string() } },
    ]);
    match wire_content(&content) {
        Some(WireContent::Parts(parts)) => assert_eq!(parts.len(), 2),
        _ => panic!("expected parts"),
    }
}

#[test]
fn wire_messages_keep_roles_in_order() {
    let messages = vec![Message::user("hi"), Message::new("assistant", "hello")];
    let wire = to_wire_messages(&messages);
    assert_eq!(wire.len(), 2);
    assert_eq!(wire[0].role, "user");
    assert_eq!(wire[1].role, "assistant");
    assert!(wire[1].tool_calls.is_none());
}
