use crablet::emotion::{Emotion, EmotionPatterns};

#[test]
fn detects_joy_and_relief() {
    let patterns = EmotionPatterns::new();
    let found = patterns.detect("太棒了！这个问题终于解决了！");
    assert!(!found.is_empty());
    let emotions: Vec<Emotion> = found.iter().map(|m| m.emotion).collect();
    assert!(emotions.contains(&Emotion::Joy));
    assert!(emotions.contains(&Emotion::Relief));
    assert!(found[0].emotion == Emotion::Joy || found[0].emotion == Emotion::Relief);
}

#[test]
fn repeated_indicators_come_first() {
    let patterns = EmotionPatterns::new();
    let found = patterns.detect("wow, great, great, great!");
    assert_eq!(found[0].emotion, Emotion::Joy);
    assert_eq!(found[0].indicator, "great");
    assert_eq!(found[0].occurrences, 3);
    assert!(found.iter().any(|m| m.emotion == Emotion::Surprise && m.indicator == "wow" && m.occurrences == 1));
}

#[test]
fn matching_ignores_case_and_keeps_table_order() {
    let patterns = EmotionPatterns::new();
    let found = patterns.detect("I am SO ANGRY and Sad");
    let names: Vec<&str> = found.iter().map(|m| m.indicator.as_str()).collect();
    assert_eq!(names, vec!["angry", "sad"]);
    assert!(patterns.detect("nothing here").is_empty());
}

#[test]
fn colors() {
    assert_eq!(Emotion::Joy.color(), "#FFD700");
    assert_eq!(Emotion::Skepticism.color(), "#808080");
}

#[test]
fn colors_are_distinct_upper_hex_codes() {
    let all = [
        Emotion::Joy,
        Emotion::Satisfaction,
        Emotion::Surprise,
        Emotion::Excitement,
        Emotion::Relief,
        Emotion::Sadness,
        Emotion::Frustration,
        Emotion::Anger,
        Emotion::Fear,
        Emotion::Anxiety,
        Emotion::Disappointment,
        Emotion::Confusion,
        Emotion::Curiosity,
        Emotion::Neutral,
        Emotion::Trust,
        Emotion::Skepticism,
    ];
    let mut seen: Vec<&str> = Vec::new();
    for e in all {
        let c = e.color();
        assert_eq!(c.len(), 7);
        assert!(c.starts_with('#'));
        assert!(c[1..].chars().all(|d| d.is_ascii_digit() || ('A'..='F').contains(&d)));
        assert!(!seen.contains(&c));
        seen.push(c);
    }
    assert_eq!(Emotion::Joy.color(), "#FFD700");
    assert_eq!(Emotion::Neutral.color(), "#C0C0C0");
}
