//! Keyword-based intent classification of user input.
use vstd::prelude::*;
use crate::text::{is_prefix, lowercase, seq_contains, str_contains, str_eq, str_starts_with, to_lower};

verus! {

broadcast use vstd::string::group_string_axioms;

/// The kind of request a user input expresses.
#[derive(Clone, Debug, PartialEq, Eq, Structural)]
pub enum Intent {
    Greeting,
    Help,
    Status,
    /// Questions about the assistant's identity.
    Persona,
    /// Small talk.
    Chat,
    DeepResearch,
    MultiStep,
    Coding,
    Analysis,
    Creative,
    Math,
    General,
}

/// Whether `t` contains one of `markers`.
pub open spec fn contains_any(t: Seq<char>, markers: Seq<Seq<char>>) -> bool {
    exists|k: int| 0 <= k < markers.len() && seq_contains(t, #[trigger] markers[k])
}

/// Whether `t` contains one of `markers`.
pub(crate) fn contains_any_of(t: &str, markers: &Vec<&str>, Ghost(spec_markers): Ghost<Seq<Seq<char>>>) -> (r: bool)
    requires
        markers@.map_values(|m: &str| m@) == spec_markers,
    ensures
        r == contains_any(t@, spec_markers),
{
    let mut i: usize = 0;
    while i < markers.len()
        invariant
            i <= markers@.len(),
            markers@.map_values(|m: &str| m@) == spec_markers,
            forall|k: int| 0 <= k < i ==> !seq_contains(t@, #[trigger] spec_markers[k]),
        decreases markers.len() - i,
    {
        assert(spec_markers[i as int] == markers@[i as int]@);
        if str_contains(t, markers[i]) {
            return true;
        }
        i += 1;
    }
    false
}

pub open spec fn persona_markers() -> Seq<Seq<char>> {
    seq![
        "who are you"@,
        "what are you"@,
        "your name"@,
        "introduce yourself"@,
        "你是谁"@,
        "你是什么"@,
        "你叫什么"@,
        "介绍一下"@,
        "你是干嘛"@,
        "你是做什么"@,
        "你的身份"@,
        "你的角色"@,
        "你是ai"@,
        "你是人工智能"@,
        "谁创造了你"@,
        "谁开发了"@,
    ]
}

pub open spec fn chat_markers() -> Seq<Seq<char>> {
    seq![
        "how are you"@,
        "what's up"@,
        "how's it going"@,
        "nice to meet"@,
        "你好吗"@,
        "最近怎么样"@,
        "很高兴认识"@,
        "谢谢"@,
        "你多大了"@,
        "你几岁了"@,
        "你喜欢什么"@,
        "你的爱好"@,
    ]
}

pub open spec fn coding_markers() -> Seq<Seq<char>> {
    seq![
        "code"@,
        "function"@,
        "implement"@,
        "代码"@,
        "编写"@,
        "实现"@,
        "debug"@,
        "programming"@,
    ]
}

pub open spec fn analysis_markers() -> Seq<Seq<char>> {
    seq!["analyze"@, "compare"@, "分析"@, "比较"@, "investigate"@]
}

pub open spec fn creative_markers() -> Seq<Seq<char>> {
    seq!["write story"@, "generate content"@, "creative"@]
}

pub open spec fn math_markers() -> Seq<Seq<char>> {
    seq!["calculate"@, "solve equation"@, "math"@]
}

/// The intent of lowercased input `t`, by the first rule that applies.
pub open spec fn intent_of(t: Seq<char>) -> Intent {
    if is_prefix("hi"@, t) || is_prefix("hello"@, t) || t == "test"@ || seq_contains(t, "你好"@)
        || is_prefix("嗨"@, t) {
        Intent::Greeting
    } else if seq_contains(t, "help"@) || seq_contains(t, "帮助"@) {
        Intent::Help
    } else if seq_contains(t, "status"@) || seq_contains(t, "system info"@) || seq_contains(t, "状态"@) {
        Intent::Status
    } else if contains_any(t, persona_markers()) {
        Intent::Persona
    } else if contains_any(t, chat_markers()) {
        Intent::Chat
    } else if is_prefix("research "@, t) || seq_contains(t, "deep research"@) || is_prefix("研究 "@, t)
        || seq_contains(t, "深度研究"@) {
        Intent::DeepResearch
    } else if contains_any(t, coding_markers()) {
        Intent::Coding
    } else if contains_any(t, analysis_markers()) {
        Intent::Analysis
    } else if contains_any(t, creative_markers()) {
        Intent::Creative
    } else if contains_any(t, math_markers()) {
        Intent::Math
    } else if (seq_contains(t, "first"@) && seq_contains(t, "then"@)) || (seq_contains(t, "首先"@)
        && seq_contains(t, "然后"@)) {
        Intent::MultiStep
    } else {
        Intent::General
    }
}

/// The keyword rules of classification, for lowercased input `t`. An input
/// that mentions `code`, `function`, `implement`, `代码`, `编写`, `实现`, `debug`
/// or `programming` is a coding request unless an earlier rule (greeting, help,
/// status, persona, chat or research) claims it; one that mentions `analyze`,
/// `compare`, `分析`, `比较` or `investigate` is an analysis request unless an
/// earlier rule or the coding rule claims it; likewise `write story`,
/// `generate content` or `creative` make a creative request, and `calculate`,
/// `solve equation` or `math` a math request. An input is general only when it
/// mentions none of these words.
pub proof fn keywords_decide_the_intent(t: Seq<char>)
    ensures
        is_prefix("hi"@, t) || is_prefix("hello"@, t) ==> intent_of(t) == Intent::Greeting,
        !(intent_of(t) is Greeting) && (seq_contains(t, "help"@) || seq_contains(t, "帮助"@))
            ==> intent_of(t) == Intent::Help,
        !(intent_of(t) is Greeting || intent_of(t) is Help || intent_of(t) is Status || intent_of(
            t,
        ) is Persona || intent_of(t) is Chat || intent_of(t) is DeepResearch) && (seq_contains(
            t,
            "code"@,
        ) || seq_contains(t, "function"@) || seq_contains(t, "implement"@) || seq_contains(
            t,
            "代码"@,
        ) || seq_contains(t, "编写"@) || seq_contains(t, "实现"@) || seq_contains(t, "debug"@)
            || seq_contains(t, "programming"@)) ==> intent_of(t) == Intent::Coding,
        !(intent_of(t) is Greeting || intent_of(t) is Help || intent_of(t) is Status || intent_of(
            t,
        ) is Persona || intent_of(t) is Chat || intent_of(t) is DeepResearch || intent_of(t) is Coding)
            && (seq_contains(t, "analyze"@) || seq_contains(t, "compare"@) || seq_contains(
            t,
            "分析"@,
        ) || seq_contains(t, "比较"@) || seq_contains(t, "investigate"@)) ==> intent_of(t)
            == Intent::Analysis,
        !(intent_of(t) is Greeting || intent_of(t) is Help || intent_of(t) is Status || intent_of(
            t,
        ) is Persona || intent_of(t) is Chat || intent_of(t) is DeepResearch || intent_of(t) is Coding
            || intent_of(t) is Analysis) && (seq_contains(t, "write story"@) || seq_contains(
            t,
            "generate content"@,
        ) || seq_contains(t, "creative"@)) ==> intent_of(t) == Intent::Creative,
        !(intent_of(t) is Greeting || intent_of(t) is Help || intent_of(t) is Status || intent_of(
            t,
        ) is Persona || intent_of(t) is Chat || intent_of(t) is DeepResearch || intent_of(t) is Coding
            || intent_of(t) is Analysis || intent_of(t) is Creative) && (seq_contains(
            t,
            "calculate"@,
        ) || seq_contains(t, "solve equation"@) || seq_contains(t, "math"@)) ==> intent_of(t)
            == Intent::Math,
        intent_of(t) is General ==> !seq_contains(t, "code"@) && !seq_contains(t, "function"@)
            && !seq_contains(t, "implement"@) && !seq_contains(t, "debug"@) && !seq_contains(
            t,
            "programming"@,
        ) && !seq_contains(t, "analyze"@) && !seq_contains(t, "compare"@) && !seq_contains(
            t,
            "investigate"@,
        ) && !seq_contains(t, "creative"@) && !seq_contains(t, "calculate"@) && !seq_contains(
            t,
            "math"@,
        ) && !seq_contains(t, "help"@) && !seq_contains(t, "status"@),
{
    assert(coding_markers()[0] == "code"@);
    assert(coding_markers()[1] == "function"@);
    assert(coding_markers()[2] == "implement"@);
    assert(coding_markers()[3] == "代码"@);
    assert(coding_markers()[4] == "编写"@);
    assert(coding_markers()[5] == "实现"@);
    assert(coding_markers()[6] == "debug"@);
    assert(coding_markers()[7] == "programming"@);
    assert(analysis_markers()[0] == "analyze"@);
    assert(analysis_markers()[1] == "compare"@);
    assert(analysis_markers()[2] == "分析"@);
    assert(analysis_markers()[3] == "比较"@);
    assert(analysis_markers()[4] == "investigate"@);
    assert(creative_markers()[0] == "write story"@);
    assert(creative_markers()[1] == "generate content"@);
    assert(creative_markers()[2] == "creative"@);
    assert(math_markers()[0] == "calculate"@);
    assert(math_markers()[1] == "solve equation"@);
    assert(math_markers()[2] == "math"@);
}

/// Keyword-based classifier.
pub struct Classifier;

impl Classifier {
    /// Classifies the input by keywords, after lowercasing it.
    pub fn classify_intent(input: &str) -> (r: Intent)
        ensures
            r == intent_of(lowercase(input@)),
    {
        let lowered = to_lower(input);
        let t = lowered.as_str();
        if str_starts_with(t, "hi") || str_starts_with(t, "hello") || str_eq(t, "test") || str_contains(
            t,
            "你好",
        ) || str_starts_with(t, "嗨") {
            return Intent::Greeting;
        }
        if str_contains(t, "help") || str_contains(t, "帮助") {
            return Intent::Help;
        }
        if str_contains(t, "status") || str_contains(t, "system info") || str_contains(t, "状态") {
            return Intent::Status;
        }
        let persona: Vec<&str> = vec![
            "who are you",
            "what are you",
            "your name",
            "introduce yourself",
            "你是谁",
            "你是什么",
            "你叫什么",
            "介绍一下",
            "你是干嘛",
            "你是做什么",
            "你的身份",
            "你的角色",
            "你是ai",
            "你是人工智能",
            "谁创造了你",
            "谁开发了",
        ];
        assert(persona@.map_values(|m: &str| m@) =~= persona_markers());
        if contains_any_of(t, &persona, Ghost(persona_markers())) {
            return Intent::Persona;
        }
        let chat: Vec<&str> = vec![
            "how are you",
            "what's up",
            "how's it going",
            "nice to meet",
            "你好吗",
            "最近怎么样",
            "很高兴认识",
            "谢谢",
            "你多大了",
            "你几岁了",
            "你喜欢什么",
            "你的爱好",
        ];
        assert(chat@.map_values(|m: &str| m@) =~= chat_markers());
        if contains_any_of(t, &chat, Ghost(chat_markers())) {
            return Intent::Chat;
        }
        if str_starts_with(t, "research ") || str_contains(t, "deep research") || str_starts_with(
            t,
            "研究 ",
        ) || str_contains(t, "深度研究") {
            return Intent::DeepResearch;
        }
        let coding: Vec<&str> = vec![
            "code",
            "function",
            "implement",
            "代码",
            "编写",
            "实现",
            "debug",
            "programming",
        ];
        assert(coding@.map_values(|m: &str| m@) =~= coding_markers());
        if contains_any_of(t, &coding, Ghost(coding_markers())) {
            return Intent::Coding;
        }
        let analysis: Vec<&str> = vec!["analyze", "compare", "分析", "比较", "investigate"];
        assert(analysis@.map_values(|m: &str| m@) =~= analysis_markers());
        if contains_any_of(t, &analysis, Ghost(analysis_markers())) {
            return Intent::Analysis;
        }
        let creative: Vec<&str> = vec!["write story", "generate content", "creative"];
        assert(creative@.map_values(|m: &str| m@) =~= creative_markers());
        if contains_any_of(t, &creative, Ghost(creative_markers())) {
            return Intent::Creative;
        }
        let math: Vec<&str> = vec!["calculate", "solve equation", "math"];
        assert(math@.map_values(|m: &str| m@) =~= math_markers());
        if contains_any_of(t, &math, Ghost(math_markers())) {
            return Intent::Math;
        }
        if (str_contains(t, "first") && str_contains(t, "then")) || (str_contains(t, "首先")
            && str_contains(t, "然后")) {
            return Intent::MultiStep;
        }
        Intent::General
    }
}

} // verus!
