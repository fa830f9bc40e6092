//! The rule patterns of the advanced intent classifier, and how strongly a
//! pattern matches an input.
use vstd::prelude::*;
use vstd::string::StringExecFns;
use crate::intents::Intent;
use crate::text::{chars_of, ends_with_chars, is_prefix, is_suffix, lowercase, occurs_at, seq_contains, str_contains, str_eq, str_starts_with, to_lower};

verus! {

broadcast use vstd::string::group_string_axioms;

/// The phrases that signal each intent.
pub open spec fn intent_pattern_table() -> Seq<(Intent, Seq<Seq<char>>)> {
    seq![
        (Intent::Greeting, seq![
            "hi"@, "hello"@, "hey"@, "greetings"@, "good morning"@, "good afternoon"@, "good evening"@,
            "你好"@, "嗨"@, "您好"@, "早上好"@, "下午好"@, "晚上好"@, "在吗"@, "在么"@,
        ]),
        (Intent::Help, seq![
            "help"@, "assist"@, "support"@, "how to"@, "how do i"@, "what can you do"@,
            "帮助"@, "怎么用"@, "如何使用"@, "你能做什么"@, "有什么功能"@,
        ]),
        (Intent::Status, seq![
            "status"@, "system info"@, "health"@, "check"@, "diagnostics"@,
            "状态"@, "系统信息"@, "健康检查"@, "诊断"@,
        ]),
        (Intent::DeepResearch, seq![
            "research"@, "deep research"@, "investigate"@, "explore in depth"@, "comprehensive analysis"@,
            "研究"@, "深度研究"@, "深入分析"@, "全面调查"@, "详细探讨"@,
        ]),
        (Intent::Coding, seq![
            "code"@, "function"@, "implement"@, "program"@, "debug"@, "refactor"@, "algorithm"@,
            "write"@, "develop"@, "script"@, "class"@, "module"@, "api"@,
            "代码"@, "编写"@, "实现"@, "函数"@, "调试"@, "程序"@, "算法"@, "开发"@,
        ]),
        (Intent::Analysis, seq![
            "analyze"@, "compare"@, "evaluate"@, "assess"@, "review"@, "examine"@,
            "analysis"@, "comparison"@, "pros and cons"@, "advantages"@,
            "分析"@, "比较"@, "评估"@, "评价"@, "优缺点"@, "优势劣势"@,
        ]),
        (Intent::Creative, seq![
            "write"@, "create"@, "generate"@, "compose"@, "draft"@, "story"@, "poem"@, "article"@,
            "creative"@, "imagine"@, "design"@,
            "写"@, "创作"@, "生成"@, "故事"@, "诗歌"@, "文章"@, "创意"@,
        ]),
        (Intent::Math, seq![
            "calculate"@, "compute"@, "solve"@, "equation"@, "formula"@, "math"@, "mathematics"@,
            "sum"@, "add"@, "subtract"@, "multiply"@, "divide"@, "percentage"@, "statistics"@,
            "计算"@, "求解"@, "方程"@, "数学"@, "公式"@, "统计"@,
        ]),
        (Intent::MultiStep, seq![
            "first"@, "then"@, "next"@, "after"@, "finally"@, "step by step"@,
            "首先"@, "然后"@, "接着"@, "最后"@, "一步步"@, "步骤"@,
        ]),
    ]
}

/// The views of a list of phrases.
pub open spec fn phrases_view(v: Seq<&str>) -> Seq<Seq<char>> {
    v.map_values(|s: &str| s@)
}

/// The views of a pattern table.
pub open spec fn table_view(v: Seq<(Intent, Vec<&str>)>) -> Seq<(Intent, Seq<Seq<char>>)> {
    v.map_values(|e: (Intent, Vec<&str>)| (e.0, phrases_view(e.1@)))
}

/// The rule patterns of each intent.
pub fn intent_patterns() -> (r: Vec<(Intent, Vec<&'static str>)>)
    ensures
        table_view(r@) == intent_pattern_table(),
{
    let greeting: Vec<&'static str> = vec![
        "hi", "hello", "hey", "greetings", "good morning", "good afternoon", "good evening",
        "你好", "嗨", "您好", "早上好", "下午好", "晚上好", "在吗", "在么",
    ];
    let help: Vec<&'static str> = vec![
        "help", "assist", "support", "how to", "how do i", "what can you do",
        "帮助", "怎么用", "如何使用", "你能做什么", "有什么功能",
    ];
    let status: Vec<&'static str> = vec![
        "status", "system info", "health", "check", "diagnostics",
        "状态", "系统信息", "健康检查", "诊断",
    ];
    let research: Vec<&'static str> = vec![
        "research", "deep research", "investigate", "explore in depth", "comprehensive analysis",
        "研究", "深度研究", "深入分析", "全面调查", "详细探讨",
    ];
    let coding: Vec<&'static str> = vec![
        "code", "function", "implement", "program", "debug", "refactor", "algorithm",
        "write", "develop", "script", "class", "module", "api",
        "代码", "编写", "实现", "函数", "调试", "程序", "算法", "开发",
    ];
    let analysis: Vec<&'static str> = vec![
        "analyze", "compare", "evaluate", "assess", "review", "examine",
        "analysis", "comparison", "pros and cons", "advantages",
        "分析", "比较", "评估", "评价", "优缺点", "优势劣势",
    ];
    let creative: Vec<&'static str> = vec![
        "write", "create", "generate", "compose", "draft", "story", "poem", "article",
        "creative", "imagine", "design",
        "写", "创作", "生成", "故事", "诗歌", "文章", "创意",
    ];
    let math: Vec<&'static str> = vec![
        "calculate", "compute", "solve", "equation", "formula", "math", "mathematics",
        "sum", "add", "subtract", "multiply", "divide", "percentage", "statistics",
        "计算", "求解", "方程", "数学", "公式", "统计",
    ];
    let steps: Vec<&'static str> = vec![
        "first", "then", "next", "after", "finally", "step by step",
        "首先", "然后", "接着", "最后", "一步步", "步骤",
    ];
    let ghost t = intent_pattern_table();
    assert(phrases_view(greeting@) =~= t[0].1);
    assert(phrases_view(help@) =~= t[1].1);
    assert(phrases_view(status@) =~= t[2].1);
    assert(phrases_view(research@) =~= t[3].1);
    assert(phrases_view(coding@) =~= t[4].1);
    assert(phrases_view(analysis@) =~= t[5].1);
    assert(phrases_view(creative@) =~= t[6].1);
    assert(phrases_view(math@) =~= t[7].1);
    assert(phrases_view(steps@) =~= t[8].1);
    let r = vec![
        (Intent::Greeting, greeting),
        (Intent::Help, help),
        (Intent::Status, status),
        (Intent::DeepResearch, research),
        (Intent::Coding, coding),
        (Intent::Analysis, analysis),
        (Intent::Creative, creative),
        (Intent::Math, math),
        (Intent::MultiStep, steps),
    ];
    assert(table_view(r@) =~= t);
    r
}

/// How strongly the (lowercased) pattern `p` matches the (lowercased) input
/// `t`, in tenths: 10 for the whole input, 9 for a prefix, 8 for a whole
/// word, 6 for a substring, 0 otherwise.
pub open spec fn match_level(t: Seq<char>, p: Seq<char>) -> u32 {
    if t == p {
        10
    } else if is_prefix(p, t) {
        9
    } else if seq_contains(t, " "@ + p + " "@) || is_prefix(p + " "@, t) || is_suffix(" "@ + p, t) {
        8
    } else if seq_contains(t, p) {
        6
    } else {
        0
    }
}

proof fn lemma_occurs_within(t: Seq<char>, w: Seq<char>, i: int, q: Seq<char>, o: int)
    requires
        occurs_at(t, w, i),
        0 <= o,
        o + q.len() <= w.len(),
        w.subrange(o, o + q.len()) == q,
    ensures
        occurs_at(t, q, i + o),
{
    assert forall|j: int| 0 <= j < q.len() implies #[trigger] t.subrange(i + o, i + o + q.len())[j] == q[j] by {
        assert(t.subrange(i, i + w.len())[o + j] == t[i + o + j]);
        assert(w.subrange(o, o + q.len())[j] == w[o + j]);
    }
    assert(t.subrange(i + o, i + o + q.len()) =~= q);
}

/// Match levels rank how a pattern occurs in an input: 10 for the whole
/// input, 9 for a proper prefix, at least 6 for any occurrence, and 0 for a
/// pattern that does not occur.
pub proof fn match_levels_rank_occurrences(t: Seq<char>, p: Seq<char>)
    ensures
        match_level(t, t) == 10,
        is_prefix(p, t) && t != p ==> match_level(t, p) == 9,
        seq_contains(t, p) ==> match_level(t, p) >= 6,
        !seq_contains(t, p) ==> match_level(t, p) == 0,
{
    reveal_strlit(" ");
    let n = p.len() as int;
    if is_prefix(p, t) || t == p {
        assert(t.subrange(0, n) =~= p);
        assert(occurs_at(t, p, 0));
    }
    let sp = " "@ + p + " "@;
    if seq_contains(t, sp) {
        let i = choose|i: int| occurs_at(t, sp, i);
        assert(sp.subrange(1, 1 + n) =~= p);
        lemma_occurs_within(t, sp, i, p, 1);
    }
    let pt = p + " "@;
    if is_prefix(pt, t) {
        assert(t.subrange(0, pt.len() as int) == pt);
        assert(occurs_at(t, pt, 0));
        assert(pt.subrange(0, n) =~= p);
        lemma_occurs_within(t, pt, 0, p, 0);
    }
    let s2 = " "@ + p;
    if is_suffix(s2, t) {
        let i = t.len() - s2.len();
        assert(occurs_at(t, s2, i));
        assert(s2.subrange(1, 1 + n) =~= p);
        lemma_occurs_within(t, s2, i, p, 1);
    }
}

/// The best level of several patterns is the level of one of them (or 0
/// when there are none) and at least the level of each.
pub proof fn best_level_is_the_strongest(t: Seq<char>, ps: Seq<Seq<char>>)
    ensures
        forall|k: int| 0 <= k < ps.len() ==> best_match_level(t, ps) >= match_level(t, lowercase(#[trigger] ps[k])),
        best_match_level(t, ps) == 0 || exists|k: int| 0 <= k < ps.len()
            && best_match_level(t, ps) == match_level(
            t,
            lowercase(#[trigger] ps[k]),
        ),
    decreases ps.len(),
{
    if ps.len() > 0 {
        let init = ps.drop_last();
        best_level_is_the_strongest(t, init);
        assert forall|k: int| 0 <= k < ps.len() implies best_match_level(t, ps) >= match_level(t, lowercase(#[trigger] ps[k])) by {
            if k < ps.len() - 1 {
                assert(init[k] == ps[k]);
            }
        }
        if best_match_level(t, ps) != 0 {
            if best_match_level(t, ps) == match_level(t, lowercase(ps.last())) {
                assert(ps[ps.len() - 1] == ps.last());
            } else {
                let k = choose|k: int| 0 <= k < init.len()
                    && best_match_level(t, init) == match_level(t, lowercase(#[trigger] init[k]));
                assert(init[k] == ps[k]);
            }
        }
    }
}

/// The strongest match of any of `ps`, each lowercased, in `t`.
pub open spec fn best_match_level(t: Seq<char>, ps: Seq<Seq<char>>) -> u32
    decreases ps.len(),
{
    if ps.len() == 0 {
        0
    } else {
        let rest = best_match_level(t, ps.drop_last());
        let l = match_level(t, lowercase(ps.last()));
        if l > rest {
            l
        } else {
            rest
        }
    }
}

/// How strongly one pattern matches, in tenths.
fn level_of(input: &str, pattern: &str) -> (l: u32)
    ensures
        l == match_level(input@, pattern@),
{
    if str_eq(input, pattern) {
        return 10;
    }
    if str_starts_with(input, pattern) {
        return 9;
    }
    let mut spaced = " ".to_owned();
    spaced.append(pattern);
    spaced.append(" ");
    let mut leading = pattern.to_owned();
    leading.append(" ");
    let mut trailing = " ".to_owned();
    trailing.append(pattern);
    let iv = chars_of(input);
    let tv = chars_of(trailing.as_str());
    if str_contains(input, spaced.as_str()) || str_starts_with(input, leading.as_str()) || ends_with_chars(
        iv.as_slice(),
        tv.as_slice(),
    ) {
        return 8;
    }
    if str_contains(input, pattern) {
        return 6;
    }
    0
}

/// How strongly the best of `patterns` (each lowercased) matches the
/// lowercased input, in tenths; fuzzy similarity is left to the caller.
pub fn pattern_level(input_lower: &str, patterns: &Vec<&str>) -> (l: u32)
    ensures
        l == best_match_level(input_lower@, phrases_view(patterns@)),
        l <= 10,
{
    let ghost pv = phrases_view(patterns@);
    let mut best: u32 = 0;
    let mut i: usize = 0;
    while i < patterns.len()
        invariant
            i <= patterns@.len(),
            pv == phrases_view(patterns@),
            best == best_match_level(input_lower@, pv.take(i as int)),
            best <= 10,
        decreases patterns.len() - i,
    {
        assert(pv.take(i + 1).drop_last() =~= pv.take(i as int));
        assert(pv[i as int] == patterns@[i as int]@);
        let p = to_lower(patterns[i]);
        let l = level_of(input_lower, p.as_str());
        if l > best {
            best = l;
        }
        i += 1;
    }
    assert(pv.take(patterns@.len() as int) =~= pv);
    best
}

} // verus!
