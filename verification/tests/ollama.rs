use crablet::ollama::{chat_url, reply_text, resolve_model, to_ollama_message, to_ollama_messages};
use crablet::types::{ContentPart, FunctionCall, ImageUrl, Message, ToolCall};

#[test]
fn model_resolution() {
    assert_eq!(resolve_model("llama3", Some("x".to_string())), "llama3");
    assert_eq!(resolve_model("auto", Some("mistral".to_string())), "mistral");
    assert_eq!(resolve_model("", None), "qwen2.5:14b");
    assert_eq!(resolve_model("auto", None), "qwen2.5:14b");
}

#[test]
fn chat_url_strips_trailing_slashes() {
    assert_eq!(chat_url("http://localhost:11434"), "http://localhost:11434/api/chat");
    assert_eq!(chat_url("http://localhost:11434//"), "http://localhost:11434/api/chat");
    assert_eq!(chat_url(""), "/api/chat");
}

#[test]
fn messages_are_flattened() {
    let m = Message {
        role: "user".to_string(),
        content: Some(vec![
            ContentPart::Text { text: "Look at ".to_string() },
            ContentPart::ImageUrl { image_url: ImageUrl { url: "data:image/png;base64,AAAA".to_string() } },
            ContentPart::ImageUrl { image_url: ImageUrl { url: "https://example.com/x.png".to_string() } },
            ContentPart::Text { text: "this".to_string() },
        ]),
        tool_calls: None,
        tool_call_id: None,
    };
    let o = to_ollama_message(&m);
    assert_eq!(o.role, "user");
    assert_eq!(o.content, "Look at this");
    assert_eq!(o.images, Some(vec!["AAAA".to_string()]));
    assert!(o.tool_calls.is_none());

    let plain = to_ollama_message(&Message::user("hi"));
    assert_eq!(plain.images, None);
}

#[test]
fn tool_calls_are_carried_over() {
    let call = ToolCall {
        id: "c1".to_string(),
        call_type: "function".to_string(),
        function: FunctionCall { name: "search".to_string(), arguments: "{\"q\":1}".to_string() },
    };
    let m = Message { role: "assistant".to_string(), content: None, tool_calls: Some(vec![call]), tool_call_id: None };
    let o = to_ollama_message(&m);
    assert_eq!(o.content, "");
    let calls = o.tool_calls.expect("tool calls");
    assert_eq!(calls.len(), 1);
    assert_eq!(calls[0].id.as_deref(), Some("c1"));
    assert_eq!(calls[0].name, "search");
    assert_eq!(calls[0].arguments, "{\"q\":1}");
    let empty = Message { role: "assistant".to_string(), content: None, tool_calls: Some(vec![]), tool_call_id: None };
    assert!(to_ollama_message(&empty).tool_calls.is_none());
    assert_eq!(to_ollama_messages(&vec![Message::user("a"), Message::user("b")]).len(), 2);
}

#[test]
fn reply_text_is_the_first_text_part() {
    let m = Message {
        role: "assistant".to_string(),
        content: Some(vec![
            ContentPart::ImageUrl { image_url: ImageUrl { url: "u".to_string() } },
            ContentPart::Text { text: "first".to_string() },
            ContentPart::Text { text: "second".to_string() },
        ]),
        tool_calls: None,
        tool_call_id: None,
    };
    assert_eq!(reply_text(&m), "first");
    let none = Message { role: "assistant".to_string(), content: None, tool_calls: None, tool_call_id: None };
    assert_eq!(reply_text(&none), "");
}
