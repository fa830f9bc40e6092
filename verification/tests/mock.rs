use crablet::mock::MockClient;
use crablet::types::Message;

#[test]
fn scripted_replies() {
    let m = MockClient;
    assert_eq!(m.model_name(), "mock-model");
    assert_eq!(
        m.reply(&vec![Message::user("Calculate 15 * 7 + 3")]),
        "Action: use calculator {\"expression\": \"15 * 7 + 3\"}"
    );
    assert_eq!(
        m.reply(&vec![Message::user("Calculate 15 * 7 + 3"), Message::user("Observation: 108")]),
        "The result is 108."
    );
    assert_eq!(m.reply(&vec![Message::user("hi")]), "(Mock LLM) Processed: hi");
    assert_eq!(m.reply(&[]), "(Mock LLM) Processed: ");
}
