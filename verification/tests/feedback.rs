use crablet::feedback::{extract_query_pattern, extract_topic, inferred_style, ResponseStyle, RouteLog};

#[test]
fn query_pattern_keeps_long_lowercased_words() {
    assert_eq!(extract_query_pattern("What is the Weather today"), "what weather today");
    assert_eq!(extract_query_pattern("a bb ccc"), "");
    assert_eq!(extract_query_pattern("alpha beta gamma delta epsilon zeta"), "alpha beta gamma delta epsilon");
}

#[test]
fn topic_is_first_known_word() {
    assert_eq!(extract_topic("Show me the DATA about weather"), "weather");
    assert_eq!(extract_topic("please help with code"), "code");
    assert_eq!(extract_topic("hello"), "general");
}

#[test]
fn style_follows_length_and_rating() {
    assert_eq!(inferred_style("It's sunny today", 5), Some(ResponseStyle::Concise));
    assert_eq!(inferred_style(&"x".repeat(501), 1), Some(ResponseStyle::Detailed));
    assert_eq!(inferred_style(&"x".repeat(300), 1), None);
    assert_eq!(inferred_style("short", 0), None);
    assert_eq!(ResponseStyle::default(), ResponseStyle::Detailed);
}

#[test]
fn route_log_keeps_the_latest_thousand() {
    let mut log = RouteLog::new();
    for i in 0..1005 {
        log.push(format!("q{}", i), "System2".to_string());
    }
    assert_eq!(log.len(), 1005);
    log.trim();
    assert_eq!(log.len(), 1000);
    assert_eq!(log.get(0).0, "q5");
    assert_eq!(log.get(999).0, "q1004");
    log.trim();
    assert_eq!(log.len(), 1000);
}
