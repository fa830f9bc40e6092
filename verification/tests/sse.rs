use crablet::sse::{event_data, event_text, SseBuffer};

#[test]
fn events_end_at_blank_lines() {
    let mut buf = SseBuffer::new();
    buf.push(b"data: {\"a\":1}\n");
    assert_eq!(buf.next_event(), None);
    buf.push(b"\ndata: b\n\nda");
    assert_eq!(buf.next_event(), Some(b"data: {\"a\":1}\n\n".to_vec()));
    assert_eq!(buf.next_event(), Some(b"data: b\n\n".to_vec()));
    assert_eq!(buf.next_event(), None);
    buf.push(b"ta: c\n\n");
    assert_eq!(buf.next_event(), Some(b"data: c\n\n".to_vec()));
}

#[test]
fn data_lines_are_read_until_done() {
    assert_eq!(event_data("data: x\r\ndata: [DONE]\ndata: y\n\n"), vec!["x".to_string()]);
    assert_eq!(event_data(": comment\nevent: delta\ndata:  spaced \n"), vec![" spaced".to_string()]);
    assert_eq!(event_data("data: a\ndata: b\n\n"), vec!["a".to_string(), "b".to_string()]);
    assert!(event_data("").is_empty());
}

#[test]
fn event_text_needs_valid_utf8() {
    assert_eq!(event_text("data: 你好\n\n".as_bytes().to_vec()).as_deref(), Some("data: 你好\n\n"));
    assert_eq!(event_text(vec![0xff, 0xfe]), None);
}
