//! Intent vocabulary of the advanced classifier, explicit skill invocations,
//! skill suggestions and the heuristic intent signals.
use vstd::prelude::*;
use crate::agents::{find_char, first_index_of};
use crate::classifier::{contains_any, contains_any_of};
use crate::text::{
    chars_of, is_prefix, lowercase, seq_contains, split_whitespace_chars, starts_with_chars,
    str_contains, str_starts_with, string_of, to_lower, trim, trim_chars, words,
};

verus! {

broadcast use vstd::string::group_string_axioms;

/// Intent types of the advanced classifier.
#[derive(Debug, Clone, PartialEq, Eq, Hash)]
pub enum Intent {
    Greeting,
    Help,
    Status,
    DeepResearch,
    MultiStep,
    Coding,
    Analysis,
    Creative,
    Math,
    /// A specific skill to execute.
    SkillExecution(String),
    General,
    Unknown,
}

/// Prefixes that introduce an explicit skill call.
pub open spec fn skill_prefixes() -> Seq<Seq<char>> {
    seq!["use "@, "run "@, "call "@, "execute "@, "skill "@, "使用"@, "运行"@, "调用"@]
}

/// Index of the first of `ps` (from `i` on) that starts `t`.
pub open spec fn first_prefix_from(t: Seq<char>, ps: Seq<Seq<char>>, i: int) -> Option<int>
    decreases ps.len() - i,
{
    if i < 0 || i >= ps.len() {
        None
    } else if is_prefix(ps[i], t) {
        Some(i)
    } else {
        first_prefix_from(t, ps, i + 1)
    }
}

/// The skill an input explicitly invokes, if any: the first word after a
/// call prefix (`use weather`), or the name before `(` when it is a single
/// token (`weather()`). Matching is on the trimmed, lowercased input.
pub open spec fn skill_invocation(input: Seq<char>) -> Option<Seq<char>> {
    let t = trim(lowercase(input));
    match first_prefix_from(t, skill_prefixes(), 0) {
        Some(k) => {
            let ws = words(trim(t.skip(skill_prefixes()[k].len() as int)));
            if ws.len() > 0 {
                Some(ws[0])
            } else {
                None
            }
        },
        None => match first_index_of(t, '(') {
            Some(start) => {
                let name = trim(t.take(start));
                if name.len() > 0 && !name.contains(' ') {
                    Some(name)
                } else {
                    None
                }
            },
            None => None,
        },
    }
}

/// The view of an optional string.
pub open spec fn opt_view(o: Option<String>) -> Option<Seq<char>> {
    match o {
        Some(s) => Some(s@),
        None => None,
    }
}

/// Whether `v` holds the character `c`.
fn has_char(v: &Vec<char>, c: char) -> (r: bool)
    ensures
        r == v@.contains(c),
{
    let mut i: usize = 0;
    while i < v.len()
        invariant
            i <= v@.len(),
            forall|j: int| 0 <= j < i ==> v@[j] != c,
        decreases v.len() - i,
    {
        if v[i] == c {
            return true;
        }
        i += 1;
    }
    false
}

/// Check if input is likely a skill invocation.
pub fn is_skill_invocation(input: &str) -> (r: Option<String>)
    ensures
        opt_view(r) == skill_invocation(input@),
{
    let lowered = to_lower(input);
    let lv = chars_of(lowered.as_str());
    let t = trim_chars(lv.as_slice());
    let ghost tv = trim(lowercase(input@));
    let prefixes: Vec<&str> = vec!["use ", "run ", "call ", "execute ", "skill ", "使用", "运行", "调用"];
    assert(prefixes@.map_values(|p: &str| p@) =~= skill_prefixes());
    let mut i: usize = 0;
    while i < prefixes.len()
        invariant
            i <= prefixes@.len(),
            t@ == tv,
            tv == trim(lowercase(input@)),
            prefixes@.map_values(|p: &str| p@) == skill_prefixes(),
            first_prefix_from(tv, skill_prefixes(), 0) == first_prefix_from(tv, skill_prefixes(), i as int),
        decreases prefixes.len() - i,
    {
        assert(skill_prefixes()[i as int] == prefixes@[i as int]@);
        let pv = chars_of(prefixes[i]);
        if starts_with_chars(t.as_slice(), pv.as_slice()) {
            let mut rest: Vec<char> = Vec::new();
            let mut j: usize = pv.len();
            while j < t.len()
                invariant
                    pv@.len() <= j <= t@.len(),
                    rest@ == t@.subrange(pv@.len() as int, j as int),
                decreases t.len() - j,
            {
                rest.push(t[j]);
                j += 1;
                assert(rest@ =~= t@.subrange(pv@.len() as int, j as int));
            }
            assert(rest@ =~= tv.skip(pv@.len() as int));
            let rt = trim_chars(rest.as_slice());
            let ws = split_whitespace_chars(rt.as_slice());
            if ws.len() == 0 {
                return None;
            }
            assert(ws@.map_values(|w: Vec<char>| w@)[0] == ws@[0]@);
            return Some(string_of(ws[0].as_slice()));
        }
        i += 1;
    }
    match find_char(&t, '(') {
        Some(start) => {
            let mut head: Vec<char> = Vec::new();
            let mut j: usize = 0;
            while j < start
                invariant
                    start <= t@.len(),
                    j <= start,
                    head@ == t@.take(j as int),
                decreases start - j,
            {
                head.push(t[j]);
                j += 1;
                assert(head@ =~= t@.take(j as int));
            }
            let name = trim_chars(head.as_slice());
            if name.len() > 0 && !has_char(&name, ' ') {
                Some(string_of(name.as_slice()))
            } else {
                None
            }
        },
        None => None,
    }
}

/// Skills worth suggesting for an intent, given the input.
pub open spec fn suggested_skills(intent: Intent, input: Seq<char>) -> Seq<Seq<char>> {
    let t = lowercase(input);
    match intent {
        Intent::Coding => {
            let a: Seq<Seq<char>> = if seq_contains(t, "rust"@) || seq_contains(t, "cargo"@) {
                seq!["rust_analyzer"@]
            } else {
                Seq::empty()
            };
            let b: Seq<Seq<char>> = if seq_contains(t, "python"@) || seq_contains(t, "pip"@) {
                seq!["python_runner"@]
            } else {
                Seq::empty()
            };
            let c: Seq<Seq<char>> = if seq_contains(t, "test"@) || seq_contains(t, "debug"@) {
                seq!["code_tester"@]
            } else {
                Seq::empty()
            };
            a + b + c + seq!["code_search"@]
        },
        Intent::Analysis => {
            let a: Seq<Seq<char>> = if seq_contains(t, "file"@) || seq_contains(t, "directory"@) {
                seq!["file_analyzer"@]
            } else {
                Seq::empty()
            };
            let b: Seq<Seq<char>> = if seq_contains(t, "data"@) || seq_contains(t, "csv"@) || seq_contains(
                t,
                "json"@,
            ) {
                seq!["data_analyzer"@]
            } else {
                Seq::empty()
            };
            a + b
        },
        Intent::DeepResearch => seq!["web_search"@, "knowledge_graph"@],
        Intent::SkillExecution(name) => seq![name@],
        _ => Seq::empty(),
    }
}

/// The skills suggested for an intent, on the lowercased input: for coding,
/// `rust_analyzer` exactly when it mentions `rust` or `cargo`, `python_runner`
/// exactly when it mentions `python` or `pip`, `code_tester` exactly when it
/// mentions `test` or `debug`, and always `code_search`, last; for analysis,
/// `file_analyzer` exactly when it mentions `file` or `directory` and
/// `data_analyzer` exactly when it mentions `data`, `csv` or `json`; for deep
/// research, `web_search` then `knowledge_graph`; for a named skill, that
/// skill; for every other intent, none.
pub proof fn suggestions_follow_their_keywords(intent: Intent, input: Seq<char>)
    ensures
        intent is Coding ==> {
            let r = suggested_skills(intent, input);
            let t = lowercase(input);
            &&& r.len() > 0 && r.last() == "code_search"@
            &&& r.contains("rust_analyzer"@) <==> (seq_contains(t, "rust"@) || seq_contains(t, "cargo"@))
            &&& r.contains("python_runner"@) <==> (seq_contains(t, "python"@) || seq_contains(t, "pip"@))
            &&& r.contains("code_tester"@) <==> (seq_contains(t, "test"@) || seq_contains(t, "debug"@))
            &&& forall|k: int| 0 <= k < r.len() ==> #[trigger] r[k] == "rust_analyzer"@ || r[k]
                == "python_runner"@ || r[k] == "code_tester"@ || r[k] == "code_search"@
        },
        intent is Analysis ==> {
            let r = suggested_skills(intent, input);
            let t = lowercase(input);
            &&& r.contains("file_analyzer"@) <==> (seq_contains(t, "file"@) || seq_contains(t, "directory"@))
            &&& r.contains("data_analyzer"@) <==> (seq_contains(t, "data"@) || seq_contains(t, "csv"@)
                || seq_contains(t, "json"@))
            &&& forall|k: int| 0 <= k < r.len() ==> #[trigger] r[k] == "file_analyzer"@ || r[k]
                == "data_analyzer"@
        },
        intent is DeepResearch ==> suggested_skills(intent, input) == seq!["web_search"@, "knowledge_graph"@],
        intent is SkillExecution ==> suggested_skills(intent, input) == seq![intent->SkillExecution_0@],
        !(intent is Coding || intent is Analysis || intent is DeepResearch || intent is SkillExecution)
            ==> suggested_skills(intent, input).len() == 0,
{
    reveal_strlit("rust_analyzer");
    reveal_strlit("python_runner");
    reveal_strlit("code_tester");
    reveal_strlit("code_search");
    reveal_strlit("file_analyzer");
    reveal_strlit("data_analyzer");
    reveal_strlit("web_search");
    reveal_strlit("knowledge_graph");
    assert("rust_analyzer"@[0] != "python_runner"@[0]);
    assert("rust_analyzer"@.len() != "code_tester"@.len());
    assert("rust_analyzer"@.len() != "code_search"@.len());
    assert("rust_analyzer"@[0] != "file_analyzer"@[0]);
    assert("rust_analyzer"@[0] != "data_analyzer"@[0]);
    assert("rust_analyzer"@.len() != "web_search"@.len());
    assert("rust_analyzer"@.len() != "knowledge_graph"@.len());
    assert("python_runner"@.len() != "code_tester"@.len());
    assert("python_runner"@.len() != "code_search"@.len());
    assert("python_runner"@[0] != "file_analyzer"@[0]);
    assert("python_runner"@[0] != "data_analyzer"@[0]);
    assert("python_runner"@.len() != "web_search"@.len());
    assert("python_runner"@.len() != "knowledge_graph"@.len());
    assert("code_tester"@[5] != "code_search"@[5]);
    assert("code_tester"@.len() != "file_analyzer"@.len());
    assert("code_tester"@.len() != "data_analyzer"@.len());
    assert("code_tester"@.len() != "web_search"@.len());
    assert("code_tester"@.len() != "knowledge_graph"@.len());
    assert("code_search"@.len() != "file_analyzer"@.len());
    assert("code_search"@.len() != "data_analyzer"@.len());
    assert("code_search"@.len() != "web_search"@.len());
    assert("code_search"@.len() != "knowledge_graph"@.len());
    assert("file_analyzer"@[0] != "data_analyzer"@[0]);
    assert("file_analyzer"@.len() != "web_search"@.len());
    assert("file_analyzer"@.len() != "knowledge_graph"@.len());
    assert("data_analyzer"@.len() != "web_search"@.len());
    assert("data_analyzer"@.len() != "knowledge_graph"@.len());
    assert("web_search"@.len() != "knowledge_graph"@.len());
    let r = suggested_skills(intent, input);
    let t = lowercase(input);
    let ra = seq_contains(t, "rust"@) || seq_contains(t, "cargo"@);
    let py = seq_contains(t, "python"@) || seq_contains(t, "pip"@);
    let te = seq_contains(t, "test"@) || seq_contains(t, "debug"@);
    let fi = seq_contains(t, "file"@) || seq_contains(t, "directory"@);
    let da = seq_contains(t, "data"@) || seq_contains(t, "csv"@) || seq_contains(t, "json"@);
    if intent is Coding {
        if ra && py && te {
            assert(r =~= seq!["rust_analyzer"@, "python_runner"@, "code_tester"@, "code_search"@]);
        }
        if ra && py && !te {
            assert(r =~= seq!["rust_analyzer"@, "python_runner"@, "code_search"@]);
        }
        if ra && !py && te {
            assert(r =~= seq!["rust_analyzer"@, "code_tester"@, "code_search"@]);
        }
        if ra && !py && !te {
            assert(r =~= seq!["rust_analyzer"@, "code_search"@]);
        }
        if !ra && py && te {
            assert(r =~= seq!["python_runner"@, "code_tester"@, "code_search"@]);
        }
        if !ra && py && !te {
            assert(r =~= seq!["python_runner"@, "code_search"@]);
        }
        if !ra && !py && te {
            assert(r =~= seq!["code_tester"@, "code_search"@]);
        }
        if !ra && !py && !te {
            assert(r =~= seq!["code_search"@]);
        }
    }
    if intent is Analysis {
        if fi && da {
            assert(r =~= seq!["file_analyzer"@, "data_analyzer"@]);
            assert(r[0] == "file_analyzer"@);
            assert(r[1] == "data_analyzer"@);
        }
        if fi && !da {
            assert(r =~= seq!["file_analyzer"@]);
            assert(r[0] == "file_analyzer"@);
            assert(!r.contains("data_analyzer"@));
        }
        if !fi && da {
            assert(r =~= seq!["data_analyzer"@]);
            assert(!r.contains("file_analyzer"@));
            assert(r[0] == "data_analyzer"@);
        }
        if !fi && !da {
            assert(r =~= Seq::<Seq<char>>::empty());
            assert(!r.contains("file_analyzer"@));
            assert(!r.contains("data_analyzer"@));
        }
    }
}

/// The views of a list of strings.
pub open spec fn strings_view(v: Seq<String>) -> Seq<Seq<char>> {
    v.map_values(|s: String| s@)
}

/// Suggest relevant skills based on intent.
pub fn suggest_skills(intent: &Intent, input: &str) -> (r: Vec<String>)
    ensures
        strings_view(r@) == suggested_skills(*intent, input@),
{
    let lowered = to_lower(input);
    let t = lowered.as_str();
    let mut suggestions: Vec<String> = Vec::new();
    match intent {
        Intent::Coding => {
            if str_contains(t, "rust") || str_contains(t, "cargo") {
                suggestions.push("rust_analyzer".to_owned());
            }
            if str_contains(t, "python") || str_contains(t, "pip") {
                suggestions.push("python_runner".to_owned());
            }
            if str_contains(t, "test") || str_contains(t, "debug") {
                suggestions.push("code_tester".to_owned());
            }
            suggestions.push("code_search".to_owned());
            assert(strings_view(suggestions@) =~= suggested_skills(*intent, input@));
        },
        Intent::Analysis => {
            if str_contains(t, "file") || str_contains(t, "directory") {
                suggestions.push("file_analyzer".to_owned());
            }
            if str_contains(t, "data") || str_contains(t, "csv") || str_contains(t, "json") {
                suggestions.push("data_analyzer".to_owned());
            }
            assert(strings_view(suggestions@) =~= suggested_skills(*intent, input@));
        },
        Intent::DeepResearch => {
            suggestions.push("web_search".to_owned());
            suggestions.push("knowledge_graph".to_owned());
            assert(strings_view(suggestions@) =~= suggested_skills(*intent, input@));
        },
        Intent::SkillExecution(skill_name) => {
            suggestions.push(skill_name.clone());
            assert(strings_view(suggestions@) =~= suggested_skills(*intent, input@));
        },
        _ => {
            assert(strings_view(suggestions@) =~= suggested_skills(*intent, input@));
        },
    }
    suggestions
}

/// Text that marks source code.
pub open spec fn code_markers() -> Seq<Seq<char>> {
    seq!["```"@, "fn "@, "def "@, "class "@, "import "@, "function"@]
}

/// Openings of how/what/why/when questions.
pub open spec fn question_openings() -> Seq<Seq<char>> {
    seq!["how "@, "what "@, "why "@, "when "@, "怎么"@, "什么"@, "为什么"@, "何时"@]
}

/// Words that mark steps of a procedure.
pub open spec fn step_markers() -> Seq<Seq<char>> {
    seq!["step"@, "stage"@, "phase"@, "part"@, "步骤"@, "阶段"@]
}

/// How many of `ms` occur in `t`.
pub open spec fn count_contained(t: Seq<char>, ms: Seq<Seq<char>>) -> nat
    decreases ms.len(),
{
    if ms.len() == 0 {
        0
    } else {
        count_contained(t, ms.drop_last()) + if seq_contains(t, ms.last()) {
            1nat
        } else {
            0nat
        }
    }
}

/// Whether `t` starts with one of `ms`.
pub open spec fn starts_with_any(t: Seq<char>, ms: Seq<Seq<char>>) -> bool {
    exists|k: int| 0 <= k < ms.len() && is_prefix(#[trigger] ms[k], t)
}

/// The heuristic intent signals of (lowercased) input `t`, each with its
/// score in hundredths: long inputs suggest research, code fragments coding,
/// how/what/why/when questions analysis, and step words a multi-step task.
pub open spec fn heuristic_signals(t: Seq<char>) -> Seq<(Intent, u32)> {
    let a: Seq<(Intent, u32)> = if words(t).len() > 20 {
        seq![(Intent::DeepResearch, 20u32)]
    } else {
        Seq::empty()
    };
    let b: Seq<(Intent, u32)> = if contains_any(t, code_markers()) {
        seq![(Intent::Coding, 40u32)]
    } else {
        Seq::empty()
    };
    let c: Seq<(Intent, u32)> = if (seq_contains(t, "?"@) || seq_contains(t, "？"@)) && starts_with_any(
        t,
        question_openings(),
    ) {
        seq![(Intent::Analysis, 20u32)]
    } else {
        Seq::empty()
    };
    let d: Seq<(Intent, u32)> = if count_contained(t, step_markers()) >= 2 || (seq_contains(t, "first"@)
        && seq_contains(t, "then"@)) {
        seq![(Intent::MultiStep, 50u32)]
    } else {
        Seq::empty()
    };
    a + b + c + d
}

/// The heuristic signals of lowercased input `t`, in this order: deep
/// research with 20 hundredths when it has more than twenty words; coding with
/// 40 when it holds ```` ``` ````, `fn `, `def `, `class `, `import ` or
/// `function`; analysis with 20 when it holds a question mark and opens with
/// `how `, `what `, `why `, `when `, `怎么`, `什么`, `为什么` or `何时`; a multi-step
/// task with 50 when it mentions two of `step`, `stage`, `phase`, `part`,
/// `步骤` and `阶段`, or both `first` and `then`. Each signal appears exactly when
/// its condition holds.
pub proof fn heuristic_signals_follow_their_markers(t: Seq<char>)
    ensures
        heuristic_signals(t).contains((Intent::DeepResearch, 20u32)) <==> words(t).len() > 20,
        heuristic_signals(t).contains((Intent::Coding, 40u32)) <==> (seq_contains(t, "```"@)
            || seq_contains(t, "fn "@) || seq_contains(t, "def "@) || seq_contains(t, "class "@)
            || seq_contains(t, "import "@) || seq_contains(t, "function"@)),
        heuristic_signals(t).contains((Intent::Analysis, 20u32)) <==> ((seq_contains(t, "?"@)
            || seq_contains(t, "？"@)) && (is_prefix("how "@, t) || is_prefix("what "@, t)
                || is_prefix("why "@, t) || is_prefix("when "@, t) || is_prefix("怎么"@, t)
                || is_prefix("什么"@, t) || is_prefix("为什么"@, t) || is_prefix("何时"@, t))),
        heuristic_signals(t).contains((Intent::MultiStep, 50u32)) <==> (count_contained(t, seq!["step"@, "stage"@, "phase"@, "part"@, "步骤"@, "阶段"@]) >= 2
            || (seq_contains(t, "first"@) && seq_contains(t, "then"@))),
        forall|k: int| 0 <= k < heuristic_signals(t).len() ==> #[trigger] heuristic_signals(t)[k]
            == (Intent::DeepResearch, 20u32) || heuristic_signals(t)[k] == (Intent::Coding, 40u32)
            || heuristic_signals(t)[k] == (Intent::Analysis, 20u32) || heuristic_signals(t)[k] == (
            Intent::MultiStep,
            50u32,
        ),
{
    assert(code_markers()[0] == "```"@);
    assert(code_markers()[1] == "fn "@);
    assert(code_markers()[2] == "def "@);
    assert(code_markers()[3] == "class "@);
    assert(code_markers()[4] == "import "@);
    assert(code_markers()[5] == "function"@);
    assert(question_openings()[0] == "how "@);
    assert(question_openings()[1] == "what "@);
    assert(question_openings()[2] == "why "@);
    assert(question_openings()[3] == "when "@);
    assert(question_openings()[4] == "怎么"@);
    assert(question_openings()[5] == "什么"@);
    assert(question_openings()[6] == "为什么"@);
    assert(question_openings()[7] == "何时"@);
    assert(step_markers() =~= seq!["step"@, "stage"@, "phase"@, "part"@, "步骤"@, "阶段"@]);
    let r = heuristic_signals(t);
    let lg = words(t).len() > 20;
    let cd = seq_contains(t, "```"@) || seq_contains(t, "fn "@) || seq_contains(t, "def "@)
        || seq_contains(t, "class "@) || seq_contains(t, "import "@)
        || seq_contains(t, "function"@);
    let qu = (seq_contains(t, "?"@) || seq_contains(t, "？"@)) && (is_prefix("how "@, t)
        || is_prefix("what "@, t) || is_prefix("why "@, t) || is_prefix("when "@, t)
        || is_prefix("怎么"@, t) || is_prefix("什么"@, t) || is_prefix("为什么"@, t)
        || is_prefix("何时"@, t));
    let st = count_contained(t, seq!["step"@, "stage"@, "phase"@, "part"@, "步骤"@, "阶段"@]) >= 2
        || (seq_contains(t, "first"@) && seq_contains(t, "then"@));
    assert(cd == contains_any(t, code_markers()));
    assert(qu == ((seq_contains(t, "?"@) || seq_contains(t, "？"@))
        && starts_with_any(t, question_openings())));
    if lg && cd && qu && st {
        assert(r =~= seq![(Intent::DeepResearch, 20u32), (Intent::Coding, 40u32), (Intent::Analysis, 20u32), (Intent::MultiStep, 50u32)]);
        assert(r[0] == (Intent::DeepResearch, 20u32));
        assert(r[1] == (Intent::Coding, 40u32));
        assert(r[2] == (Intent::Analysis, 20u32));
        assert(r[3] == (Intent::MultiStep, 50u32));
    }
    if lg && cd && qu && !st {
        assert(r =~= seq![(Intent::DeepResearch, 20u32), (Intent::Coding, 40u32), (Intent::Analysis, 20u32)]);
        assert(r[0] == (Intent::DeepResearch, 20u32));
        assert(r[1] == (Intent::Coding, 40u32));
        assert(r[2] == (Intent::Analysis, 20u32));
        assert(!r.contains((Intent::MultiStep, 50u32)));
    }
    if lg && cd && !qu && st {
        assert(r =~= seq![(Intent::DeepResearch, 20u32), (Intent::Coding, 40u32), (Intent::MultiStep, 50u32)]);
        assert(r[0] == (Intent::DeepResearch, 20u32));
        assert(r[1] == (Intent::Coding, 40u32));
        assert(!r.contains((Intent::Analysis, 20u32)));
        assert(r[2] == (Intent::MultiStep, 50u32));
    }
    if lg && cd && !qu && !st {
        assert(r =~= seq![(Intent::DeepResearch, 20u32), (Intent::Coding, 40u32)]);
        assert(r[0] == (Intent::DeepResearch, 20u32));
        assert(r[1] == (Intent::Coding, 40u32));
        assert(!r.contains((Intent::Analysis, 20u32)));
        assert(!r.contains((Intent::MultiStep, 50u32)));
    }
    if lg && !cd && qu && st {
        assert(r =~= seq![(Intent::DeepResearch, 20u32), (Intent::Analysis, 20u32), (Intent::MultiStep, 50u32)]);
        assert(r[0] == (Intent::DeepResearch, 20u32));
        assert(!r.contains((Intent::Coding, 40u32)));
        assert(r[1] == (Intent::Analysis, 20u32));
        assert(r[2] == (Intent::MultiStep, 50u32));
    }
    if lg && !cd && qu && !st {
        assert(r =~= seq![(Intent::DeepResearch, 20u32), (Intent::Analysis, 20u32)]);
        assert(r[0] == (Intent::DeepResearch, 20u32));
        assert(!r.contains((Intent::Coding, 40u32)));
        assert(r[1] == (Intent::Analysis, 20u32));
        assert(!r.contains((Intent::MultiStep, 50u32)));
    }
    if lg && !cd && !qu && st {
        assert(r =~= seq![(Intent::DeepResearch, 20u32), (Intent::MultiStep, 50u32)]);
        assert(r[0] == (Intent::DeepResearch, 20u32));
        assert(!r.contains((Intent::Coding, 40u32)));
        assert(!r.contains((Intent::Analysis, 20u32)));
        assert(r[1] == (Intent::MultiStep, 50u32));
    }
    if lg && !cd && !qu && !st {
        assert(r =~= seq![(Intent::DeepResearch, 20u32)]);
        assert(r[0] == (Intent::DeepResearch, 20u32));
        assert(!r.contains((Intent::Coding, 40u32)));
        assert(!r.contains((Intent::Analysis, 20u32)));
        assert(!r.contains((Intent::MultiStep, 50u32)));
    }
    if !lg && cd && qu && st {
        assert(r =~= seq![(Intent::Coding, 40u32), (Intent::Analysis, 20u32), (Intent::MultiStep, 50u32)]);
        assert(!r.contains((Intent::DeepResearch, 20u32)));
        assert(r[0] == (Intent::Coding, 40u32));
        assert(r[1] == (Intent::Analysis, 20u32));
        assert(r[2] == (Intent::MultiStep, 50u32));
    }
    if !lg && cd && qu && !st {
        assert(r =~= seq![(Intent::Coding, 40u32), (Intent::Analysis, 20u32)]);
        assert(!r.contains((Intent::DeepResearch, 20u32)));
        assert(r[0] == (Intent::Coding, 40u32));
        assert(r[1] == (Intent::Analysis, 20u32));
        assert(!r.contains((Intent::MultiStep, 50u32)));
    }
    if !lg && cd && !qu && st {
        assert(r =~= seq![(Intent::Coding, 40u32), (Intent::MultiStep, 50u32)]);
        assert(!r.contains((Intent::DeepResearch, 20u32)));
        assert(r[0] == (Intent::Coding, 40u32));
        assert(!r.contains((Intent::Analysis, 20u32)));
        assert(r[1] == (Intent::MultiStep, 50u32));
    }
    if !lg && cd && !qu && !st {
        assert(r =~= seq![(Intent::Coding, 40u32)]);
        assert(!r.contains((Intent::DeepResearch, 20u32)));
        assert(r[0] == (Intent::Coding, 40u32));
        assert(!r.contains((Intent::Analysis, 20u32)));
        assert(!r.contains((Intent::MultiStep, 50u32)));
    }
    if !lg && !cd && qu && st {
        assert(r =~= seq![(Intent::Analysis, 20u32), (Intent::MultiStep, 50u32)]);
        assert(!r.contains((Intent::DeepResearch, 20u32)));
        assert(!r.contains((Intent::Coding, 40u32)));
        assert(r[0] == (Intent::Analysis, 20u32));
        assert(r[1] == (Intent::MultiStep, 50u32));
    }
    if !lg && !cd && qu && !st {
        assert(r =~= seq![(Intent::Analysis, 20u32)]);
        assert(!r.contains((Intent::DeepResearch, 20u32)));
        assert(!r.contains((Intent::Coding, 40u32)));
        assert(r[0] == (Intent::Analysis, 20u32));
        assert(!r.contains((Intent::MultiStep, 50u32)));
    }
    if !lg && !cd && !qu && st {
        assert(r =~= seq![(Intent::MultiStep, 50u32)]);
        assert(!r.contains((Intent::DeepResearch, 20u32)));
        assert(!r.contains((Intent::Coding, 40u32)));
        assert(!r.contains((Intent::Analysis, 20u32)));
        assert(r[0] == (Intent::MultiStep, 50u32));
    }
    if !lg && !cd && !qu && !st {
        assert(r =~= Seq::<(Intent, u32)>::empty());
        assert(!r.contains((Intent::DeepResearch, 20u32)));
        assert(!r.contains((Intent::Coding, 40u32)));
        assert(!r.contains((Intent::Analysis, 20u32)));
        assert(!r.contains((Intent::MultiStep, 50u32)));
    }
}

/// Whether `t` starts with one of `ms`.
fn starts_with_any_of(t: &str, ms: &Vec<&str>, Ghost(spec_ms): Ghost<Seq<Seq<char>>>) -> (r: bool)
    requires
        ms@.map_values(|m: &str| m@) == spec_ms,
    ensures
        r == starts_with_any(t@, spec_ms),
{
    let mut i: usize = 0;
    while i < ms.len()
        invariant
            i <= ms@.len(),
            ms@.map_values(|m: &str| m@) == spec_ms,
            forall|k: int| 0 <= k < i ==> !is_prefix(#[trigger] spec_ms[k], t@),
        decreases ms.len() - i,
    {
        assert(spec_ms[i as int] == ms@[i as int]@);
        if str_starts_with(t, ms[i]) {
            return true;
        }
        i += 1;
    }
    false
}

/// How many of `ms` occur in `t`.
pub(crate) fn count_contained_of(t: &str, ms: &Vec<&str>, Ghost(spec_ms): Ghost<Seq<Seq<char>>>) -> (n: usize)
    requires
        ms@.map_values(|m: &str| m@) == spec_ms,
    ensures
        n == count_contained(t@, spec_ms),
{
    let mut n: usize = 0;
    let mut i: usize = 0;
    while i < ms.len()
        invariant
            i <= ms@.len(),
            ms@.map_values(|m: &str| m@) == spec_ms,
            n == count_contained(t@, spec_ms.take(i as int)),
            n <= i,
        decreases ms.len() - i,
    {
        assert(spec_ms.take(i + 1).drop_last() =~= spec_ms.take(i as int));
        assert(spec_ms[i as int] == ms@[i as int]@);
        if str_contains(t, ms[i]) {
            n += 1;
        }
        i += 1;
    }
    assert(spec_ms.take(ms@.len() as int) =~= spec_ms);
    n
}

/// Heuristic classification for complex cases: the signals of `input`
/// (already lowercased) with scores in hundredths.
pub fn heuristic_classification(input: &str) -> (r: Vec<(Intent, u32)>)
    ensures
        r@ == heuristic_signals(input@),
{
    let mut scores: Vec<(Intent, u32)> = Vec::new();
    let cv = chars_of(input);
    let ws = split_whitespace_chars(cv.as_slice());
    if ws.len() > 20 {
        scores.push((Intent::DeepResearch, 20));
    }
    let code: Vec<&str> = vec!["```", "fn ", "def ", "class ", "import ", "function"];
    assert(code@.map_values(|m: &str| m@) =~= code_markers());
    if contains_any_of(input, &code, Ghost(code_markers())) {
        scores.push((Intent::Coding, 40));
    }
    if str_contains(input, "?") || str_contains(input, "？") {
        let openings: Vec<&str> = vec!["how ", "what ", "why ", "when ", "怎么", "什么", "为什么", "何时"];
        assert(openings@.map_values(|m: &str| m@) =~= question_openings());
        if starts_with_any_of(input, &openings, Ghost(question_openings())) {
            scores.push((Intent::Analysis, 20));
        }
    }
    let steps: Vec<&str> = vec!["step", "stage", "phase", "part", "步骤", "阶段"];
    assert(steps@.map_values(|m: &str| m@) =~= step_markers());
    let step_count = count_contained_of(input, &steps, Ghost(step_markers()));
    if step_count >= 2 || (str_contains(input, "first") && str_contains(input, "then")) {
        scores.push((Intent::MultiStep, 50));
    }
    assert(scores@ =~= heuristic_signals(input@));
    scores
}

} // verus!
