//! The deterministic side of meta-cognitive routing: the features read from
//! an input, and the intents that fix the cognitive system outright.
use vstd::prelude::*;
use crate::classifier::{contains_any, contains_any_of, Intent};
use crate::text::{byte_len, byte_len_chars, chars_of, lowercase, seq_contains, split_whitespace_chars, str_contains, to_lower, words};

verus! {

broadcast use vstd::string::group_string_axioms;

/// The cognitive system an input is routed to.
#[derive(Debug, Clone, Copy, PartialEq, Eq, Structural)]
pub enum SystemChoice {
    /// Fast, pattern-based answers.
    System1,
    /// Deliberate reasoning.
    System2,
    /// Deep research.
    System3,
}

/// The label of a choice in reports.
pub open spec fn choice_label_of(c: SystemChoice) -> Seq<char> {
    match c {
        SystemChoice::System1 => "system1"@,
        SystemChoice::System2 => "system2"@,
        SystemChoice::System3 => "system3"@,
    }
}

/// The label of a choice in reports.
pub fn choice_label(c: SystemChoice) -> (s: &'static str)
    ensures
        s@ == choice_label_of(c),
{
    match c {
        SystemChoice::System1 => "system1",
        SystemChoice::System2 => "system2",
        SystemChoice::System3 => "system3",
    }
}

/// The features of an input that do not depend on a score.
#[derive(Debug, Clone, Copy, PartialEq, Eq, Structural)]
pub struct TextFeatures {
    /// Length in bytes (saturating at `usize::MAX`).
    pub input_length: usize,
    /// Whitespace-separated words, at least 1.
    pub token_count: usize,
    pub has_code: bool,
    pub has_question: bool,
    pub has_research_keyword: bool,
}

/// Markers of code, looked for in the lowercased input. (The last can never
/// occur in lowercased text.)
pub open spec fn code_markers() -> Seq<Seq<char>> {
    seq!["fn "@, "class "@, "import "@, "SELECT "@]
}

/// Words that ask for research, looked for in the lowercased input.
pub open spec fn research_keywords() -> Seq<Seq<char>> {
    seq!["research"@, "调研"@, "深入"@, "比较"@, "分析"@, "方案"@, "benchmark"@]
}

/// The features of `input`.
pub open spec fn text_features_of(input: Seq<char>) -> TextFeatures {
    let lower = lowercase(input);
    let n = words(input).len();
    TextFeatures {
        input_length: if byte_len(input) <= usize::MAX { byte_len(input) as usize } else { usize::MAX },
        token_count: if n == 0 { 1 } else { n as usize },
        has_code: seq_contains(input, "```"@) || contains_any(lower, code_markers()),
        has_question: seq_contains(input, "?"@) || seq_contains(input, "？"@),
        has_research_keyword: contains_any(lower, research_keywords()),
    }
}

/// Read the features of an input.
pub fn text_features(input: &str) -> (f: TextFeatures)
    ensures
        f == text_features_of(input@),
{
    let lower = to_lower(input);
    let v = chars_of(input);
    let tokens = split_whitespace_chars(v.as_slice());
    assert(tokens@.map_values(|w: Vec<char>| w@).len() == tokens@.len());
    let code: Vec<&str> = vec!["fn ", "class ", "import ", "SELECT "];
    assert(code@.map_values(|m: &str| m@) =~= code_markers());
    let research: Vec<&str> = vec!["research", "调研", "深入", "比较", "分析", "方案", "benchmark"];
    assert(research@.map_values(|m: &str| m@) =~= research_keywords());
    let has_code = str_contains(input, "```") || contains_any_of(lower.as_str(), &code, Ghost(code_markers()));
    let has_question = str_contains(input, "?") || str_contains(input, "？");
    let has_research_keyword = contains_any_of(lower.as_str(), &research, Ghost(research_keywords()));
    TextFeatures {
        input_length: byte_len_chars(v.as_slice()),
        token_count: if tokens.len() == 0 { 1 } else { tokens.len() },
        has_code,
        has_question,
        has_research_keyword,
    }
}

/// The system an intent and the input's features fix outright, if any:
/// research goes to System3; greetings, help and status requests without
/// code go to System1. Otherwise the learned policy chooses.
pub open spec fn forced_choice_of(intent: Intent, features: TextFeatures) -> Option<SystemChoice> {
    if intent == Intent::DeepResearch || features.has_research_keyword {
        Some(SystemChoice::System3)
    } else if (intent == Intent::Greeting || intent == Intent::Help || intent == Intent::Status)
        && !features.has_code {
        Some(SystemChoice::System1)
    } else {
        None
    }
}

/// The system an intent and the input's features fix outright, if any.
pub fn forced_choice(intent: Intent, features: &TextFeatures) -> (c: Option<SystemChoice>)
    ensures
        c == forced_choice_of(intent, *features),
{
    if intent == Intent::DeepResearch || features.has_research_keyword {
        Some(SystemChoice::System3)
    } else if (intent == Intent::Greeting || intent == Intent::Help || intent == Intent::Status)
        && !features.has_code {
        Some(SystemChoice::System1)
    } else {
        None
    }
}

/// The features of an input and the systems they fix. An input has code when
/// it holds ```` ``` ```` or its lower case holds `fn `, `class `, `import ` or
/// `SELECT `; it asks a question when it holds `?` or `？`; it asks for
/// research when its lower case mentions `research`, `调研`, `深入`, `比较`,
/// `分析`, `方案` or `benchmark`; its token count is its number of words, and 1
/// when it has none. Deep research, or a research keyword, fixes System 3;
/// otherwise a greeting, help or status request without code fixes System 1;
/// nothing else is fixed outright.
pub proof fn features_fix_the_system(input: Seq<char>, intent: Intent, f: TextFeatures)
    ensures
        text_features_of(input).has_code <==> (seq_contains(input, "```"@)
            || seq_contains(lowercase(input), "fn "@) || seq_contains(lowercase(input), "class "@)
            || seq_contains(lowercase(input), "import "@)
            || seq_contains(lowercase(input), "SELECT "@)),
        text_features_of(input).has_question <==> (seq_contains(input, "?"@) || seq_contains(
            input,
            "？"@,
        )),
        text_features_of(input).has_research_keyword <==> (seq_contains(lowercase(input), "research"@)
            || seq_contains(lowercase(input), "调研"@) || seq_contains(lowercase(input), "深入"@)
            || seq_contains(lowercase(input), "比较"@) || seq_contains(lowercase(input), "分析"@)
            || seq_contains(lowercase(input), "方案"@)
            || seq_contains(lowercase(input), "benchmark"@)),
        words(input).len() == 0 ==> text_features_of(input).token_count == 1,
        0 < words(input).len() <= usize::MAX ==> text_features_of(input).token_count == words(
            input,
        ).len(),
        intent is DeepResearch || f.has_research_keyword ==> forced_choice_of(intent, f) == Some(
            SystemChoice::System3,
        ),
        !(intent is DeepResearch) && !f.has_research_keyword && (intent is Greeting || intent is Help
            || intent is Status) && !f.has_code ==> forced_choice_of(intent, f) == Some(
            SystemChoice::System1,
        ),
        !(intent is DeepResearch) && !f.has_research_keyword && !((intent is Greeting || intent is Help
            || intent is Status) && !f.has_code) ==> forced_choice_of(intent, f) is None,
        arm_of(SystemChoice::System1) == 0 && arm_of(SystemChoice::System2) == 1 && arm_of(
            SystemChoice::System3,
        ) == 2,
{
    assert(code_markers()[0] == "fn "@);
    assert(code_markers()[1] == "class "@);
    assert(code_markers()[2] == "import "@);
    assert(code_markers()[3] == "SELECT "@);
    assert(research_keywords()[0] == "research"@);
    assert(research_keywords()[1] == "调研"@);
    assert(research_keywords()[2] == "深入"@);
    assert(research_keywords()[3] == "比较"@);
    assert(research_keywords()[4] == "分析"@);
    assert(research_keywords()[5] == "方案"@);
    assert(research_keywords()[6] == "benchmark"@);
}

/// The arm a choice is learned under.
pub open spec fn arm_of(c: SystemChoice) -> nat {
    match c {
        SystemChoice::System1 => 0,
        SystemChoice::System2 => 1,
        SystemChoice::System3 => 2,
    }
}

/// The arm a choice is learned under (0, 1 or 2).
pub fn arm_index(c: SystemChoice) -> (i: usize)
    ensures
        i == arm_of(c),
        i < 3,
{
    match c {
        SystemChoice::System1 => 0,
        SystemChoice::System2 => 1,
        SystemChoice::System3 => 2,
    }
}

/// The choice an arm stands for; any arm but 0 and 2 is System2.
pub fn choice_of_arm(i: usize) -> (c: SystemChoice)
    ensures
        i == 0 ==> c == SystemChoice::System1,
        i == 2 ==> c == SystemChoice::System3,
        i != 0 && i != 2 ==> c == SystemChoice::System2,
        i < 3 ==> arm_of(c) == i,
{
    match i {
        0 => SystemChoice::System1,
        2 => SystemChoice::System3,
        _ => SystemChoice::System2,
    }
}

} // verus!
