use crablet::emotion::Emotion;
use crablet::emotional::{
    adjust_response_tone, count_matches, determine_emotional_goal, emotions_to_avoid, pattern_type_for, trigger_words_of,
    EmotionalGoal, PatternBook, PatternType, emotion_distribution, EmotionalStats,
};

#[test]
fn test_emotion_valence() {
    assert!(Emotion::Joy.valence_tenths() > 0);
    assert!(Emotion::Sadness.valence_tenths() < 0);
    assert!(Emotion::Neutral.valence_tenths() == 0);
}

#[test]
fn valence_and_arousal_tables() {
    assert_eq!(Emotion::Joy.valence_tenths(), 9);
    assert_eq!(Emotion::Skepticism.valence_tenths(), -3);
    assert_eq!(Emotion::Surprise.arousal_tenths(), 9);
    assert_eq!(Emotion::Neutral.arousal_tenths(), 1);
}

#[test]
fn test_response_tone_adjustment() {
    let adjusted = adjust_response_tone("这是你的结果。", Some(EmotionalGoal::Comfort), Emotion::Sadness);
    assert!(adjusted.contains("理解"));
    assert_eq!(adjusted, "我理解你的感受。这是你的结果。");
}

#[test]
fn tone_follows_goal_and_mood() {
    assert_eq!(adjust_response_tone("ok", Some(EmotionalGoal::Brighten), Emotion::Fear), "ok 😊");
    assert_eq!(adjust_response_tone("ok", Some(EmotionalGoal::Brighten), Emotion::Joy), "ok");
    assert_eq!(adjust_response_tone("我明白", Some(EmotionalGoal::Comfort), Emotion::Sadness), "我明白");
    assert_eq!(adjust_response_tone("x", Some(EmotionalGoal::Calm), Emotion::Anxiety), "别担心，让我来帮你分析一下。x");
    assert_eq!(adjust_response_tone("x", Some(EmotionalGoal::Calm), Emotion::Anger), "x");
    assert_eq!(adjust_response_tone("x", None, Emotion::Anger), "x");
}

#[test]
fn goals_and_avoidances_follow_mood() {
    assert_eq!(determine_emotional_goal(Emotion::Anger), Some(EmotionalGoal::Calm));
    assert_eq!(determine_emotional_goal(Emotion::Sadness), Some(EmotionalGoal::Comfort));
    assert_eq!(determine_emotional_goal(Emotion::Confusion), Some(EmotionalGoal::Professional));
    assert_eq!(determine_emotional_goal(Emotion::Fear), Some(EmotionalGoal::Brighten));
    assert_eq!(determine_emotional_goal(Emotion::Skepticism), None);
    assert_eq!(determine_emotional_goal(Emotion::Joy), None);
    assert_eq!(emotions_to_avoid(Emotion::Frustration), vec![Emotion::Anger, Emotion::Skepticism]);
    assert_eq!(emotions_to_avoid(Emotion::Fear), vec![Emotion::Anxiety, Emotion::Disappointment]);
    assert!(emotions_to_avoid(Emotion::Joy).is_empty());
    assert_eq!(pattern_type_for(Emotion::Trust), PatternType::UserTrustsTopic);
    assert_eq!(pattern_type_for(Emotion::Anger), PatternType::UserHappyWhen);
}

#[test]
fn patterns_count_matching_words() {
    let words = trigger_words_of("i am so happy with the new release today okay");
    assert_eq!(words, vec!["happy", "with", "the", "new", "release"]);
    let mut book = PatternBook::new();
    book.record(&words, Emotion::Joy, "t0");
    assert_eq!(book.patterns().len(), 1);
    let p = &book.patterns()[0];
    assert!(p.id.starts_with("epat_"));
    assert_eq!(p.id.len(), 13);
    assert_eq!(p.frequency, 1);
    assert_eq!(p.pattern_type, PatternType::UserHappyWhen);

    let again = trigger_words_of("happy release newer");
    book.record(&again, Emotion::Joy, "t1");
    let p = &book.patterns()[0];
    assert_eq!(p.frequency, 4);
    assert_eq!(p.last_observed, "t1");

    book.record(&trigger_words_of("zzz qqq"), Emotion::Joy, "t2");
    assert_eq!(book.patterns()[0].frequency, 4);
    assert_eq!(book.patterns()[0].last_observed, "t1");
    book.record(&trigger_words_of("so confused"), Emotion::Confusion, "t3");
    assert_eq!(book.patterns().len(), 2);
    assert_eq!(book.find(Emotion::Confusion), Some(1));
}

#[test]
fn matches_are_counted_per_word() {
    let kws = vec!["new".to_string(), "happy".to_string()];
    let ws = vec!["newer".to_string(), "ne".to_string(), "sad".to_string(), "happy".to_string()];
    assert_eq!(count_matches(&ws, &kws), 3);
    assert_eq!(count_matches(&ws, &vec![]), 0);
}

#[test]
fn distribution_counts_first_emotions_in_order() {
    let firsts = vec![Some(Emotion::Joy), None, Some(Emotion::Sadness), Some(Emotion::Joy), Some(Emotion::Joy)];
    let d = emotion_distribution(&firsts);
    assert_eq!(d, vec![(Emotion::Joy, 3), (Emotion::Sadness, 1)]);
    assert!(emotion_distribution(&vec![None, None]).is_empty());
    let stats = EmotionalStats { active_sessions: 1, total_emotional_memories: 5, detected_patterns: 0, emotion_distribution: d };
    assert_eq!(stats.emotion_distribution.iter().map(|(_, c)| *c).sum::<u32>(), 4);
}
