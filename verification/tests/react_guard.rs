use crablet::guard::{check_step_limit, EnhancedLoopDetector, LoopDetectionResult, LoopDetector, TerminationReason};

#[test]
fn test_loop_detector_exact_match() {
    let mut detector = EnhancedLoopDetector::new();

    // First occurrence - no loop
    assert!(matches!(detector.is_looping("search", "{\"q\": \"test\"}"), LoopDetectionResult::NoLoop));

    // Second occurrence - still allowed
    assert!(matches!(detector.is_looping("search", "{\"q\": \"test\"}"), LoopDetectionResult::ExactLoop { count: 1 }));

    // Third occurrence - loop detected
    assert!(matches!(detector.is_looping("search", "{\"q\": \"test\"}"), LoopDetectionResult::ExactLoop { count: 2 }));
}

#[test]
fn test_react_guard_step_limit() {
    assert!(check_step_limit(0, 3).is_ok());
    assert!(check_step_limit(2, 3).is_ok());
    assert!(matches!(check_step_limit(3, 3), Err(TerminationReason::MaxStepsReached)));
}

#[test]
fn resource_overuse_is_detected() {
    let mut detector = EnhancedLoopDetector::new();
    for i in 0..3 {
        let args = format!("{{\"image_path\": \"a.png\", \"step\": {}}}", i);
        let r = detector.is_looping("see", &args);
        assert!(!matches!(r, LoopDetectionResult::ResourceLoop { .. }), "call {} gave {:?}", i, r);
    }
    let r = detector.is_looping("see", "{\"image_path\": \"a.png\", \"step\": 99}");
    assert_eq!(r, LoopDetectionResult::ResourceLoop { resource: "a.png".to_string(), count: 4 });
}

#[test]
fn near_identical_actions_are_detected() {
    let mut detector = EnhancedLoopDetector::new();
    let long = "one two three four five six seven eight nine ten eleven twelve";
    assert_eq!(detector.is_looping("search", long), LoopDetectionResult::NoLoop);
    let similar = "one two three four five six seven eight nine ten eleven twelve thirteen";
    match detector.is_looping("search", similar) {
        LoopDetectionResult::SemanticLoop { shared_words, all_words } => {
            assert_eq!(shared_words, 13);
            assert_eq!(all_words, 14);
        }
        other => panic!("expected a semantic loop, got {:?}", other),
    }
    assert_eq!(detector.is_looping("fetch", "completely different words"), LoopDetectionResult::NoLoop);
}

#[test]
fn reset_forgets_history() {
    let mut detector = EnhancedLoopDetector::default();
    assert_eq!(detector.is_looping("t", "x"), LoopDetectionResult::NoLoop);
    detector.reset();
    assert_eq!(detector.is_looping("t", "x"), LoopDetectionResult::NoLoop);
}

#[test]
fn basic_detector_tolerates_one_repeat() {
    let mut d = LoopDetector::new();
    assert!(!d.is_looping("search", "{\"q\": \"a\"}"));
    // A repeat counts once, and then is near-identical to the recent action.
    assert!(d.is_looping("search", "{\"q\": \"a\"}"));
    let mut d = LoopDetector::new();
    assert!(!d.is_looping("a", "1"));
    assert!(!d.is_looping("b", "2"));
    assert!(d.is_looping("a", "1"));
}

#[test]
fn basic_detector_counts_images_looked_at() {
    let mut d = LoopDetector::new();
    let args = |p: &str| format!("{{\"image_path\": \"x.png\", \"prompt\": \"{}\"}}", p);
    assert!(!d.is_looping("see", &args("one two three four five six seven")));
    assert!(!d.is_looping("see", &args("alpha beta gamma delta epsilon zeta eta")));
    assert!(!d.is_looping("see", &args("red green blue cyan magenta yellow black")));
    assert!(d.is_looping("see", &args("north south east west up down left")));
    // Other tools do not count images.
    let mut d = LoopDetector::new();
    for p in ["a1 b1 c1 d1 e1 f1", "a2 b2 c2 d2 e2 f2", "a3 b3 c3 d3 e3 f3", "a4 b4 c4 d4 e4 f4"] {
        assert!(!d.is_looping("look", &args(p)));
    }
}
