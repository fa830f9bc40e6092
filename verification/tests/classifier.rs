use crablet::classifier::{Classifier, Intent};

#[test]
fn test_classify_intent() {
    assert_eq!(Classifier::classify_intent("Hello world"), Intent::Greeting);
    assert_eq!(Classifier::classify_intent("Deep research on quantum physics"), Intent::DeepResearch);
    assert_eq!(Classifier::classify_intent("Write a rust function"), Intent::Coding);
    assert_eq!(Classifier::classify_intent("Analyze the stock market"), Intent::Analysis);
    assert_eq!(Classifier::classify_intent("Just a random sentence"), Intent::General);
}

#[test]
fn classify_intent_rule_order() {
    assert_eq!(Classifier::classify_intent("test"), Intent::Greeting);
    assert_eq!(Classifier::classify_intent("I need help with code"), Intent::Help);
    assert_eq!(Classifier::classify_intent("show system info"), Intent::Status);
    assert_eq!(Classifier::classify_intent("Who are you?"), Intent::Persona);
    assert_eq!(Classifier::classify_intent("你是谁"), Intent::Persona);
    assert_eq!(Classifier::classify_intent("How are you today"), Intent::Chat);
    assert_eq!(Classifier::classify_intent("research the market"), Intent::DeepResearch);
    assert_eq!(Classifier::classify_intent("please write story about cats"), Intent::Creative);
    assert_eq!(Classifier::classify_intent("calculate 2 + 2"), Intent::Math);
    assert_eq!(Classifier::classify_intent("first open it, then close it"), Intent::MultiStep);
    assert_eq!(Classifier::classify_intent("你好"), Intent::Greeting);
}
