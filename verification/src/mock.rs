//! A scripted stand-in for a language model, for tests and demos.
use vstd::prelude::*;
use vstd::string::StringExecFns;
use crate::ollama::{reply_text, reply_text_of};
use crate::text::{seq_contains, str_contains};
use crate::types::Message;

verus! {

broadcast use vstd::string::group_string_axioms;

/// The text the mock reads: the first text part of the last message.
pub open spec fn last_text(messages: Seq<Message>) -> Seq<char> {
    if messages.len() == 0 {
        Seq::empty()
    } else {
        reply_text_of(messages.last())
    }
}

/// The mock's answer to a conversation: a calculator action for the
/// scripted arithmetic question, the result once the observation holds it,
/// and otherwise an echo.
pub open spec fn mock_reply_of(messages: Seq<Message>) -> Seq<char> {
    let t = last_text(messages);
    if seq_contains(t, "Calculate 15 * 7 + 3"@) && !seq_contains(t, "Observation:"@) {
        "Action: use calculator {\"expression\": \"15 * 7 + 3\"}"@
    } else if seq_contains(t, "Observation:"@) && seq_contains(t, "108"@) {
        "The result is 108."@
    } else {
        "(Mock LLM) Processed: "@ + t
    }
}

/// A language model that answers from a script.
pub struct MockClient;

impl MockClient {
    /// The model's name.
    pub fn model_name(&self) -> (s: &'static str)
        ensures
            s@ == "mock-model"@,
    {
        "mock-model"
    }

    /// The scripted answer to `messages`.
    pub fn reply(&self, messages: &[Message]) -> (s: String)
        ensures
            s@ == mock_reply_of(messages@),
    {
        let t = if messages.len() == 0 {
            String::new()
        } else {
            reply_text(&messages[messages.len() - 1])
        };
        if str_contains(t.as_str(), "Calculate 15 * 7 + 3") && !str_contains(t.as_str(), "Observation:") {
            "Action: use calculator {\"expression\": \"15 * 7 + 3\"}".to_owned()
        } else if str_contains(t.as_str(), "Observation:") && str_contains(t.as_str(), "108") {
            "The result is 108.".to_owned()
        } else {
            let mut s = "(Mock LLM) Processed: ".to_owned();
            s.append(t.as_str());
            s
        }
    }
}

} // verus!
