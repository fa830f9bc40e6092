use crablet::classifier::Intent;
use crablet::meta_router::{arm_index, choice_label, choice_of_arm, forced_choice, text_features, SystemChoice, TextFeatures};

#[test]
fn features_of_a_code_question() {
    let f = text_features("How do I write fn main in Rust?");
    assert_eq!(
        f,
        TextFeatures { input_length: 31, token_count: 8, has_code: true, has_question: true, has_research_keyword: false }
    );
}

#[test]
fn features_of_research_and_empty_input() {
    let f = text_features("请深入调研这个方案");
    assert_eq!(f.input_length, 27);
    assert_eq!(f.token_count, 1);
    assert!(f.has_research_keyword);
    assert!(!f.has_question);
    let empty = text_features("");
    assert_eq!(empty.token_count, 1);
    assert_eq!(empty.input_length, 0);
    // The marker "SELECT " is looked for in lowercased text, so it never matches.
    assert!(!text_features("SELECT * FROM t").has_code);
    assert!(text_features("```rust\nlet x = 1;\n```").has_code);
    assert!(text_features("全角问号？").has_question);
}

#[test]
fn intents_that_fix_the_system() {
    let plain = text_features("hello there");
    assert_eq!(forced_choice(Intent::DeepResearch, &plain), Some(SystemChoice::System3));
    assert_eq!(forced_choice(Intent::Greeting, &plain), Some(SystemChoice::System1));
    assert_eq!(forced_choice(Intent::Coding, &plain), None);
    let code = text_features("help with fn foo");
    assert_eq!(forced_choice(Intent::Help, &code), None);
    let research = text_features("benchmark these");
    assert_eq!(forced_choice(Intent::Greeting, &research), Some(SystemChoice::System3));
}

#[test]
fn labels_and_arms() {
    assert_eq!(choice_label(SystemChoice::System1), "system1");
    assert_eq!(choice_label(SystemChoice::System3), "system3");
    for c in [SystemChoice::System1, SystemChoice::System2, SystemChoice::System3] {
        assert_eq!(choice_of_arm(arm_index(c)), c);
    }
    assert_eq!(choice_of_arm(7), SystemChoice::System2);
}
