use crablet::pattern::{levenshtein_distance, MatchConfidence, Pattern, PatternMatcher};

#[test]
fn test_exact_match() {
    let mut matcher = PatternMatcher::new();
    let result = matcher.match_pattern("hello", &Pattern::Exact("hello".to_string()));
    assert!(result.is_some());
    assert_eq!(result.map(|r| r.0), Some(MatchConfidence::Exact));
}

#[test]
fn test_prefix_match() {
    let mut matcher = PatternMatcher::new();
    let result = matcher.match_pattern("hello there", &Pattern::Prefix("hello".to_string()));
    assert!(result.is_some());
    assert_eq!(result.map(|r| r.0), Some(MatchConfidence::High));
}

#[test]
fn test_contains_match() {
    let mut matcher = PatternMatcher::new();
    let result = matcher.match_pattern("say hello world", &Pattern::Contains("hello".to_string()));
    assert!(result.is_some());
    assert_eq!(result.map(|r| r.0), Some(MatchConfidence::Medium));
}

#[test]
fn test_regex_match() {
    let mut matcher = PatternMatcher::new();
    let result = matcher.match_pattern("hello!", &Pattern::Regex(r"^(?i)hello[!?.]*$".to_string()));
    assert!(result.is_some());
    assert_eq!(result.map(|r| r.0), Some(MatchConfidence::High));
}

#[test]
fn test_fuzzy_match() {
    let mut matcher = PatternMatcher::new();
    let result = matcher.match_pattern("helo", &Pattern::Fuzzy("hello".to_string(), 1));
    assert!(result.is_some());
    assert_eq!(result.map(|r| r.0), Some(MatchConfidence::Fuzzy));
}

#[test]
fn test_no_match() {
    let mut matcher = PatternMatcher::new();
    let result = matcher.match_pattern("goodbye", &Pattern::Exact("hello".to_string()));
    assert!(result.is_none());
}

#[test]
fn test_invalid_regex_skipped() {
    let mut matcher = PatternMatcher::new();
    let result = matcher.match_pattern("test", &Pattern::Regex("[invalid".to_string()));
    assert!(result.is_none());
}

#[test]
fn test_levenshtein_distance() {
    assert_eq!(levenshtein_distance("hello", "hello"), 0);
    assert_eq!(levenshtein_distance("hello", "helo"), 1);
    assert_eq!(levenshtein_distance("hello", "hallo"), 1);
    assert_eq!(levenshtein_distance("", "hello"), 5);
    assert_eq!(levenshtein_distance("hello", ""), 5);
}

#[test]
fn levenshtein_known_values() {
    assert_eq!(levenshtein_distance("kitten", "sitting"), 3);
    assert_eq!(levenshtein_distance("flaw", "lawn"), 2);
    assert_eq!(levenshtein_distance("日本語", "日本"), 1);
    assert_eq!(levenshtein_distance("abc", "cba"), 2);
}

#[test]
fn input_is_trimmed_and_lowercased() {
    let mut matcher = PatternMatcher::new();
    let exact = matcher.match_pattern("  HeLLo  ", &Pattern::Exact("hello".to_string()));
    assert_eq!(exact.map(|r| r.0), Some(MatchConfidence::Exact));
    let prefix = matcher.match_pattern("Hello", &Pattern::Prefix("hello there".to_string()));
    assert!(prefix.is_none());
    let fuzzy = matcher.match_pattern("heo", &Pattern::Fuzzy("hello".to_string(), 1));
    assert!(fuzzy.is_none());
}

#[test]
fn regex_named_groups_become_parameters() {
    let mut matcher = PatternMatcher::new();
    let pattern = Pattern::Regex(r"^weather in (?P<city>\w+)( on (?P<day>\w+))?$".to_string());
    let result = matcher.match_pattern("Weather in Paris", &pattern).unwrap();
    assert_eq!(result.0, MatchConfidence::High);
    assert_eq!(result.1, vec![("city".to_string(), "paris".to_string())]);
    let again = matcher.match_pattern("weather in rome on monday", &pattern).unwrap();
    assert_eq!(
        again.1,
        vec![("city".to_string(), "rome".to_string()), ("day".to_string(), "monday".to_string())]
    );
    assert!(matcher.match_pattern("sunny", &pattern).is_none());
}

#[test]
fn confidence_levels_are_ordered_by_score() {
    assert!(MatchConfidence::Exact > MatchConfidence::High);
    assert!(MatchConfidence::High > MatchConfidence::Medium);
    assert!(MatchConfidence::Low > MatchConfidence::Fuzzy);
    assert!(MatchConfidence::Fuzzy > MatchConfidence::NoMatch);
    assert_eq!(MatchConfidence::Exact.value(), 100);
    assert_eq!(MatchConfidence::Fuzzy.value(), 1);
    assert_eq!(MatchConfidence::NoMatch.value(), 0);
}
