//! Learning task patterns from experience: the features read from a task,
//! the bounded store of patterns with its least-used eviction, and the
//! knowledge recorded when a new kind of task is seen.
use vstd::prelude::*;
use crate::classifier::{contains_any, contains_any_of};
use crate::graph::fresh_uuid;
use crate::intents::strings_view;
use crate::logic::{decimal, digit_char, digit_of};
use crate::optimizer::push_decimal_u64;
use crate::reflector::{debug_str, str_debug};
use crate::text::{
    byte_len, byte_len_chars, chars_of, lowercase, push_char, seq_contains, split_whitespace_chars, str_contains,
    string_of, to_lower, words,
};

verus! {

broadcast use vstd::string::group_string_axioms;

/// The kinds of learned pattern.
#[derive(Debug, Clone, Copy, PartialEq, Eq, Structural)]
pub enum PatternType {
    TaskPattern,
    StrategyPattern,
    ErrorPattern,
}

/// Words that mark a coding task.
pub open spec fn coding_markers() -> Seq<Seq<char>> {
    seq!["code"@, "function"@, "class"@]
}

/// Words that mark an analysis task.
pub open spec fn analysis_markers() -> Seq<Seq<char>> {
    seq!["analyze"@, "research"@]
}

/// Words that mark an explanation task.
pub open spec fn explanation_markers() -> Seq<Seq<char>> {
    seq!["explain"@, "describe"@]
}

/// Words that mark a debugging task.
pub open spec fn debugging_markers() -> Seq<Seq<char>> {
    seq!["fix"@, "debug"@]
}

/// The category of a task, from its lowercased text.
pub open spec fn task_category(lower: Seq<char>) -> Seq<char> {
    if contains_any(lower, coding_markers()) {
        "coding"@
    } else if contains_any(lower, analysis_markers()) {
        "analysis"@
    } else if contains_any(lower, explanation_markers()) {
        "explanation"@
    } else if contains_any(lower, debugging_markers()) {
        "debugging"@
    } else {
        "general"@
    }
}

/// The words longer than four bytes, at most five of them, in order.
pub open spec fn task_keywords(ws: Seq<Seq<char>>) -> Seq<Seq<char>>
    decreases ws.len(),
{
    if ws.len() == 0 {
        Seq::empty()
    } else {
        let rest = task_keywords(ws.drop_last());
        if rest.len() < 5 && byte_len(ws.last()) > 4 {
            rest.push(ws.last())
        } else {
            rest
        }
    }
}

/// The complexity of a task with `n` words, in hundredths: one hundredth
/// for every half word, at most one whole.
pub open spec fn complexity_of(n: nat) -> u32 {
    (if n < 50 { 2 * n } else { 100 }) as u32
}

/// A task is a coding task when its lower case mentions `code`, `function` or
/// `class`; otherwise an analysis task for `analyze` or `research`, an
/// explanation for `explain` or `describe`, debugging for `fix` or `debug`, and
/// a general task when it mentions none of these. Its complexity grows by two
/// hundredths a word up to one whole, never falling as words are added; its
/// keywords are at most five of its words, each longer than four bytes.
pub proof fn task_features_follow_their_words(lower: Seq<char>, n: nat, m: nat, ws: Seq<Seq<char>>)
    ensures
        seq_contains(lower, "code"@) || seq_contains(lower, "function"@) || seq_contains(lower, "class"@)
            ==> task_category(lower) == "coding"@,
        !(task_category(lower) == "coding"@) && (seq_contains(lower, "analyze"@) || seq_contains(
            lower,
            "research"@,
        )) ==> task_category(lower) == "analysis"@,
        !(task_category(lower) == "coding"@ || task_category(lower) == "analysis"@) && (seq_contains(
            lower,
            "explain"@,
        ) || seq_contains(lower, "describe"@)) ==> task_category(lower) == "explanation"@,
        !(task_category(lower) == "coding"@ || task_category(lower) == "analysis"@ || task_category(lower)
            == "explanation"@) && (seq_contains(lower, "fix"@) || seq_contains(lower, "debug"@))
            ==> task_category(lower) == "debugging"@,
        !seq_contains(lower, "code"@) && !seq_contains(lower, "function"@) && !seq_contains(lower, "class"@)
            && !seq_contains(lower, "analyze"@) && !seq_contains(lower, "research"@) && !seq_contains(
            lower,
            "explain"@,
        ) && !seq_contains(lower, "describe"@) && !seq_contains(lower, "fix"@) && !seq_contains(
            lower,
            "debug"@,
        ) ==> task_category(lower) == "general"@,
        n < 50 ==> complexity_of(n) == 2 * n,
        n >= 50 ==> complexity_of(n) == 100,
        n <= m ==> complexity_of(n) <= complexity_of(m),
        task_keywords(ws).len() <= 5,
        forall|k: int| 0 <= k < task_keywords(ws).len() ==> byte_len(#[trigger] task_keywords(ws)[k]) > 4
            && ws.contains(task_keywords(ws)[k]),
{
    assert(coding_markers()[0] == "code"@ && coding_markers()[1] == "function"@ && coding_markers()[2]
        == "class"@);
    assert(analysis_markers()[0] == "analyze"@ && analysis_markers()[1] == "research"@);
    assert(explanation_markers()[0] == "explain"@ && explanation_markers()[1] == "describe"@);
    assert(debugging_markers()[0] == "fix"@ && debugging_markers()[1] == "debug"@);
    lemma_task_keywords(ws);
}

proof fn lemma_task_keywords(ws: Seq<Seq<char>>)
    ensures
        task_keywords(ws).len() <= 5,
        forall|k: int| 0 <= k < task_keywords(ws).len() ==> byte_len(#[trigger] task_keywords(ws)[k]) > 4
            && ws.contains(task_keywords(ws)[k]),
    decreases ws.len(),
{
    if ws.len() > 0 {
        let init = ws.drop_last();
        lemma_task_keywords(init);
        let rest = task_keywords(init);
        assert forall|k: int| 0 <= k < task_keywords(ws).len() implies byte_len(#[trigger] task_keywords(ws)[k]) > 4
            && ws.contains(task_keywords(ws)[k]) by {
            if k < rest.len() {
                assert(task_keywords(ws)[k] == rest[k]);
                let j = choose|j: int| 0 <= j < init.len() && init[j] == rest[k];
                assert(ws[j] == init[j]);
            } else {
                assert(task_keywords(ws)[k] == ws.last());
                assert(ws[ws.len() - 1] == ws.last());
            }
        }
    }
}

/// What a task is taken to be: its category, its complexity in hundredths
/// and its keywords.
pub struct TaskFeatures {
    pub category: String,
    pub complexity_hundredths: u32,
    pub keywords: Vec<String>,
}

/// Reads the features of a task.
pub fn analyze_task_features(task: &str) -> (f: TaskFeatures)
    ensures
        f.category@ == task_category(lowercase(task@)),
        f.complexity_hundredths == complexity_of(words(task@).len()),
        f.complexity_hundredths <= 100,
        strings_view(f.keywords@) == task_keywords(words(task@)),
{
    let lower = to_lower(task);
    let coding: Vec<&str> = vec!["code", "function", "class"];
    let analysis: Vec<&str> = vec!["analyze", "research"];
    let explanation: Vec<&str> = vec!["explain", "describe"];
    let debugging: Vec<&str> = vec!["fix", "debug"];
    assert(coding@.map_values(|m: &str| m@) =~= coding_markers());
    assert(analysis@.map_values(|m: &str| m@) =~= analysis_markers());
    assert(explanation@.map_values(|m: &str| m@) =~= explanation_markers());
    assert(debugging@.map_values(|m: &str| m@) =~= debugging_markers());
    let category = if contains_any_of(lower.as_str(), &coding, Ghost(coding_markers())) {
        "coding"
    } else if contains_any_of(lower.as_str(), &analysis, Ghost(analysis_markers())) {
        "analysis"
    } else if contains_any_of(lower.as_str(), &explanation, Ghost(explanation_markers())) {
        "explanation"
    } else if contains_any_of(lower.as_str(), &debugging, Ghost(debugging_markers())) {
        "debugging"
    } else {
        "general"
    };
    let v = chars_of(task);
    let ws = split_whitespace_chars(v.as_slice());
    let ghost wv = ws@.map_values(|w: Vec<char>| w@);
    let n = ws.len();
    let complexity: u32 = if n < 50 { (2 * n) as u32 } else { 100 };
    let mut keywords: Vec<String> = Vec::new();
    let mut i: usize = 0;
    while i < ws.len()
        invariant
            i <= ws@.len(),
            wv == ws@.map_values(|w: Vec<char>| w@),
            wv == words(task@),
            strings_view(keywords@) == task_keywords(wv.take(i as int)),
        decreases ws.len() - i,
    {
        assert(wv.take(i + 1).drop_last() =~= wv.take(i as int));
        assert(wv[i as int] == ws@[i as int]@);
        let b = byte_len_chars(ws[i].as_slice());
        if keywords.len() < 5 && b > 4 {
            let ghost before = keywords@;
            keywords.push(string_of(ws[i].as_slice()));
            assert(strings_view(keywords@) =~= strings_view(before).push(wv[i as int]));
        }
        i += 1;
    }
    assert(wv.take(ws@.len() as int) =~= wv);
    TaskFeatures { category: category.to_owned(), complexity_hundredths: complexity, keywords }
}

/// `h` hundredths written with two decimals, as `{:.2}` writes them.
pub open spec fn two_decimals(h: nat) -> Seq<char> {
    decimal(h / 100) + "."@ + seq![digit_char((h / 10) % 10), digit_char(h % 10)]
}

/// Appends `h` hundredths with two decimals.
pub(crate) fn push_two_decimals(out: &mut String, h: u32)
    ensures
        final(out)@ == old(out)@ + two_decimals(h as nat),
{
    push_decimal_u64(out, (h / 100) as u64);
    out.append(".");
    push_char(out, digit_of(((h / 10) % 10) as usize));
    push_char(out, digit_of((h % 10) as usize));
    assert(final(out)@ =~= old(out)@ + two_decimals(h as nat));
}

/// A list of strings as `{:?}` writes a `Vec<String>`.
pub open spec fn list_debug(items: Seq<Seq<char>>) -> Seq<char> {
    "["@ + joined_debug(items) + "]"@
}

/// The items, each as `{:?}` writes a string, separated by `", "`.
pub open spec fn joined_debug(items: Seq<Seq<char>>) -> Seq<char>
    decreases items.len(),
{
    if items.len() == 0 {
        Seq::empty()
    } else if items.len() == 1 {
        str_debug(items[0])
    } else {
        joined_debug(items.drop_last()) + ", "@ + str_debug(items.last())
    }
}

/// Appends the strings as `{:?}` writes a `Vec<String>`.
fn push_list_debug(out: &mut String, items: &Vec<String>)
    ensures
        final(out)@ == old(out)@ + list_debug(strings_view(items@)),
{
    let ghost sv = strings_view(items@);
    let ghost start = out@;
    out.append("[");
    let mut i: usize = 0;
    while i < items.len()
        invariant
            i <= items@.len(),
            sv == strings_view(items@),
            out@ == start + "["@ + joined_debug(sv.take(i as int)),
        decreases items.len() - i,
    {
        assert(sv.take(i + 1).drop_last() =~= sv.take(i as int));
        assert(sv[i as int] == items@[i as int]@);
        if i > 0 {
            out.append(", ");
        }
        let d = debug_str(items[i].as_str());
        out.append(d.as_str());
        i += 1;
        assert(sv.take(i as int).last() == sv[i - 1]);
        if i == 1 {
            assert(sv.take(1)[0] == sv[0]);
        }
    }
    assert(sv.take(items@.len() as int) =~= sv);
    out.append("]");
    assert(out@ =~= start + list_debug(sv));
}

/// A learned pattern. Its success rate is `success_count / usage_count`.
pub struct Pattern {
    pub id: String,
    pub pattern_type: PatternType,
    pub name: String,
    pub description: String,
    pub trigger_conditions: Vec<String>,
    pub usage_count: u64,
    pub success_count: u64,
    pub created_at: String,
    pub updated_at: String,
}

/// A task pattern that one of the trigger conditions of `p` names
/// `category` in.
pub open spec fn similar_to(p: Pattern, category: Seq<char>) -> bool {
    &&& p.pattern_type == PatternType::TaskPattern
    &&& exists|j: int| 0 <= j < p.trigger_conditions@.len() && seq_contains(#[trigger] p.trigger_conditions@[j]@, category)
}

/// Pattern `i` is the first one similar to `category`.
pub open spec fn first_similar_at(ps: Seq<Pattern>, i: int, category: Seq<char>) -> bool {
    &&& 0 <= i < ps.len()
    &&& similar_to(ps[i], category)
    &&& forall|j: int| 0 <= j < i ==> !similar_to(#[trigger] ps[j], category)
}

/// Some pattern is similar to `category`.
pub open spec fn has_similar(ps: Seq<Pattern>, category: Seq<char>) -> bool {
    exists|i: int| 0 <= i < ps.len() && similar_to(#[trigger] ps[i], category)
}

/// A trigger condition of `p` names `category` or a complexity.
pub open spec fn relevant_to(p: Pattern, category: Seq<char>) -> bool {
    exists|j: int|
        0 <= j < p.trigger_conditions@.len() && (seq_contains(#[trigger] p.trigger_conditions@[j]@, category)
            || seq_contains(p.trigger_conditions@[j]@, "complexity"@))
}

/// `q` is `p` used once more, successfully or not, at `now`.
pub open spec fn used_from(q: Pattern, p: Pattern, success: bool, now: Seq<char>) -> bool {
    &&& q.id == p.id
    &&& q.pattern_type == p.pattern_type
    &&& q.name == p.name
    &&& q.description == p.description
    &&& q.trigger_conditions == p.trigger_conditions
    &&& q.usage_count == p.usage_count + 1
    &&& q.success_count == p.success_count + if success { 1int } else { 0int }
    &&& q.created_at == p.created_at
    &&& q.updated_at@ == now
}

/// `s` with `x` inserted after the patterns used no more often than `x`.
pub open spec fn insert_by_usage(s: Seq<Pattern>, x: Pattern) -> Seq<Pattern>
    decreases s.len(),
{
    if s.len() == 0 {
        seq![x]
    } else if s.last().usage_count > x.usage_count {
        insert_by_usage(s.drop_last(), x).push(s.last())
    } else {
        s.push(x)
    }
}

/// `s` stably sorted by usage count, least used first.
pub open spec fn sort_by_usage(s: Seq<Pattern>) -> Seq<Pattern>
    decreases s.len(),
{
    if s.len() == 0 {
        Seq::empty()
    } else {
        insert_by_usage(sort_by_usage(s.drop_last()), s.last())
    }
}

/// The patterns kept when a new one arrives: all of them while there is
/// room; else, sorted by usage count, all but the first (least used).
pub open spec fn kept_for_new(s: Seq<Pattern>, max: nat) -> Seq<Pattern> {
    if s.len() >= max {
        sort_by_usage(s).drop_first()
    } else {
        s
    }
}

/// Usage counts never go down along `s`.
pub open spec fn usage_ordered(s: Seq<Pattern>) -> bool {
    forall|i: int, j: int| 0 <= i < j < s.len() ==> #[trigger] s[i].usage_count <= #[trigger] s[j].usage_count
}

proof fn lemma_insert_by_usage(s: Seq<Pattern>, x: Pattern)
    requires
        usage_ordered(s),
    ensures
        usage_ordered(insert_by_usage(s, x)),
        insert_by_usage(s, x).len() == s.len() + 1,
        insert_by_usage(s, x).to_multiset() =~= s.to_multiset().insert(x),
    decreases s.len(),
{
    broadcast use {vstd::seq_lib::group_to_multiset_ensures, vstd::multiset::group_multiset_axioms};

    let r = insert_by_usage(s, x);
    if s.len() == 0 {
        assert(r =~= Seq::<Pattern>::empty().push(x));
    } else if s.last().usage_count > x.usage_count {
        let d = s.drop_last();
        assert(usage_ordered(d)) by {
            assert forall|i: int, j: int| 0 <= i < j < d.len() implies #[trigger] d[i].usage_count
                <= #[trigger] d[j].usage_count by {
                assert(d[i] == s[i] && d[j] == s[j]);
            }
        }
        lemma_insert_by_usage(d, x);
        let m = insert_by_usage(d, x);
        assert(s =~= d.push(s.last()));
        assert forall|i: int| 0 <= i < m.len() implies #[trigger] m[i].usage_count <= s.last().usage_count by {
            assert(m.to_multiset().count(m[i]) > 0);
            assert(m.to_multiset().contains(m[i]));
            if m[i] != x {
                assert(d.to_multiset().contains(m[i]));
                assert(d.contains(m[i]));
                let k = choose|k: int| 0 <= k < d.len() && d[k] == m[i];
                assert(s[k] == d[k]);
                assert(s[k].usage_count <= s[s.len() - 1].usage_count);
            }
        }
        assert forall|i: int, j: int| 0 <= i < j < r.len() implies #[trigger] r[i].usage_count
            <= #[trigger] r[j].usage_count by {
            if j == r.len() - 1 {
                assert(r[i] == m[i]);
            } else {
                assert(r[i] == m[i] && r[j] == m[j]);
            }
        }
    } else {
        assert forall|i: int, j: int| 0 <= i < j < r.len() implies #[trigger] r[i].usage_count
            <= #[trigger] r[j].usage_count by {
            if j == r.len() - 1 {
                assert(r[i] == s[i]);
                if i < s.len() - 1 {
                    assert(s[i].usage_count <= s[s.len() - 1].usage_count);
                }
            } else {
                assert(r[i] == s[i] && r[j] == s[j]);
            }
        }
    }
}

/// Sorting by usage keeps exactly the same patterns and puts the least used
/// first.
pub proof fn sort_by_usage_is_ordered(s: Seq<Pattern>)
    ensures
        usage_ordered(sort_by_usage(s)),
        sort_by_usage(s).len() == s.len(),
        sort_by_usage(s).to_multiset() =~= s.to_multiset(),
    decreases s.len(),
{
    broadcast use {vstd::seq_lib::group_to_multiset_ensures, vstd::multiset::group_multiset_axioms};

    if s.len() > 0 {
        sort_by_usage_is_ordered(s.drop_last());
        lemma_insert_by_usage(sort_by_usage(s.drop_last()), s.last());
        assert(s =~= s.drop_last().push(s.last()));
    }
}

/// Dropping the first pattern of the usage-sorted store drops one of the
/// least used patterns, and keeps all the others.
pub proof fn eviction_drops_a_least_used(s: Seq<Pattern>, max: nat)
    requires
        0 < max <= s.len(),
    ensures
        exists|e: Pattern|
            #![trigger s.to_multiset().remove(e)]
            s.contains(e) && (forall|i: int| 0 <= i < s.len() ==> e.usage_count <= #[trigger] s[i].usage_count)
                && kept_for_new(s, max).to_multiset() == s.to_multiset().remove(e),
{
    broadcast use {vstd::seq_lib::group_to_multiset_ensures, vstd::multiset::group_multiset_axioms};

    sort_by_usage_is_ordered(s);
    let t = sort_by_usage(s);
    let e = t[0];
    assert(t.to_multiset().count(e) > 0);
    assert(s.to_multiset().count(e) > 0);
    assert(s.contains(e));
    assert forall|i: int| 0 <= i < s.len() implies e.usage_count <= #[trigger] s[i].usage_count by {
        assert(s.to_multiset().count(s[i]) > 0);
        assert(t.contains(s[i]));
        let k = choose|k: int| 0 <= k < t.len() && t[k] == s[i];
        if k > 0 {
            assert(t[0].usage_count <= t[k].usage_count);
        }
    }
    assert(t.remove(0) =~= t.drop_first());
    assert(kept_for_new(s, max).to_multiset() == s.to_multiset().remove(e));
}


/// The knowledge recorded when a new kind of task is seen.
pub open spec fn task_knowledge_content(category: Seq<char>, complexity: u32, keywords: Seq<Seq<char>>) -> Seq<char> {
    "Task category: "@ + category + ", complexity: "@ + two_decimals(complexity as nat) + ", keywords: "@
        + list_debug(keywords)
}

/// Four fifths of a complexity, in hundredths, rounded.
pub open spec fn trigger_threshold(complexity: u32) -> nat {
    ((8 * complexity + 5) / 10) as nat
}

/// `p` is the new task pattern `id` for `category` and `complexity`, first
/// used at `now`, successfully or not.
pub open spec fn new_task_pattern(
    p: Pattern,
    id: Seq<char>,
    category: Seq<char>,
    complexity: u32,
    success: bool,
    now: Seq<char>,
) -> bool {
    &&& p.id@ == id
    &&& p.pattern_type == PatternType::TaskPattern
    &&& p.name@ == "Task Pattern: "@ + category
    &&& p.description@ == "Pattern for tasks in category '"@ + category + "' with complexity "@ + two_decimals(
        complexity as nat,
    )
    &&& strings_view(p.trigger_conditions@) == seq![
        "category = '"@ + category + "'"@,
        "complexity > "@ + two_decimals(trigger_threshold(complexity)),
    ]
    &&& p.usage_count == 1
    &&& p.success_count == if success { 1u64 } else { 0u64 }
    &&& p.created_at@ == now
    &&& p.updated_at@ == now
}

/// A bounded store of learned patterns.
pub struct PatternStore {
    patterns: Vec<Pattern>,
    max_patterns: usize,
}

impl PatternStore {
    /// The stored patterns, in order.
    pub closed spec fn patterns_view(&self) -> Seq<Pattern> {
        self.patterns@
    }

    /// The most patterns the store keeps.
    pub closed spec fn max(&self) -> nat {
        self.max_patterns as nat
    }

    /// The store is within its bound, and no pattern succeeded more often
    /// than it was used.
    pub open spec fn wf(&self) -> bool {
        &&& self.patterns_view().len() <= self.max()
        &&& forall|i: int|
            0 <= i < self.patterns_view().len() ==> #[trigger] self.patterns_view()[i].success_count
                <= self.patterns_view()[i].usage_count
    }

    /// An empty store keeping at most `max_patterns` patterns.
    pub fn new(max_patterns: usize) -> (st: Self)
        ensures
            st.wf(),
            st.patterns_view() == Seq::<Pattern>::empty(),
            st.max() == max_patterns,
    {
        PatternStore { patterns: Vec::new(), max_patterns }
    }

    /// The stored patterns, in order.
    pub fn patterns(&self) -> (r: &Vec<Pattern>)
        ensures
            r@ == self.patterns_view(),
    {
        &self.patterns
    }

    /// The most patterns the store keeps.
    pub fn max_patterns(&self) -> (m: usize)
        ensures
            m == self.max(),
    {
        self.max_patterns
    }

    /// The position of the first task pattern one of whose trigger
    /// conditions names `category`.
    pub fn find_similar(&self, category: &str) -> (r: Option<usize>)
        ensures
            match r {
                Some(i) => first_similar_at(self.patterns_view(), i as int, category@),
                None => !has_similar(self.patterns_view(), category@),
            },
    {
        let ghost ps = self.patterns@;
        let mut i: usize = 0;
        while i < self.patterns.len()
            invariant
                i <= ps.len(),
                ps == self.patterns@,
                forall|j: int| 0 <= j < i ==> !similar_to(#[trigger] ps[j], category@),
            decreases self.patterns.len() - i,
        {
            let p = &self.patterns[i];
            if p.pattern_type == PatternType::TaskPattern {
                let mut j: usize = 0;
                while j < p.trigger_conditions.len()
                    invariant
                        i < ps.len(),
                        ps == self.patterns@,
                        forall|k: int| 0 <= k < i ==> !similar_to(#[trigger] ps[k], category@),
                        ps[i as int] == *p,
                        p.pattern_type == PatternType::TaskPattern,
                        j <= p.trigger_conditions@.len(),
                        forall|k: int| 0 <= k < j ==> !seq_contains(#[trigger] p.trigger_conditions@[k]@, category@),
                    decreases p.trigger_conditions.len() - j,
                {
                    if str_contains(p.trigger_conditions[j].as_str(), category) {
                        assert(similar_to(ps[i as int], category@));
                        return Some(i);
                    }
                    j += 1;
                }
            }
            i += 1;
        }
        None
    }

    /// The positions, in order, of the patterns one of whose trigger
    /// conditions names `category` or a complexity.
    pub fn relevant(&self, category: &str) -> (r: Vec<usize>)
        ensures
            forall|k: int| 0 <= k < r@.len() ==> #[trigger] r@[k] < self.patterns_view().len(),
            r@.map_values(|i: usize| i as int) == Seq::new(self.patterns_view().len(), |i: int| i).filter(
                |i: int| relevant_to(self.patterns_view()[i], category@),
            ),
    {
        let ghost ps = self.patterns@;
        let ghost idx = Seq::new(ps.len(), |i: int| i);
        let ghost pred = |i: int| relevant_to(ps[i], category@);
        let mut out: Vec<usize> = Vec::new();
        let mut i: usize = 0;
        while i < self.patterns.len()
            invariant
                i <= ps.len(),
                ps == self.patterns@,
                idx == Seq::new(ps.len(), |i: int| i),
                pred == (|i: int| relevant_to(ps[i], category@)),
                forall|k: int| 0 <= k < out@.len() ==> #[trigger] out@[k] < i,
                out@.map_values(|i: usize| i as int) == idx.take(i as int).filter(pred),
            decreases self.patterns.len() - i,
        {
            let p = &self.patterns[i];
            let mut found = false;
            let mut j: usize = 0;
            while j < p.trigger_conditions.len()
                invariant
                    j <= p.trigger_conditions@.len(),
                    !found ==> forall|k: int|
                        0 <= k < j ==> !(seq_contains(#[trigger] p.trigger_conditions@[k]@, category@)
                            || seq_contains(p.trigger_conditions@[k]@, "complexity"@)),
                    found ==> relevant_to(*p, category@),
                decreases p.trigger_conditions.len() - j,
            {
                if !found && (str_contains(p.trigger_conditions[j].as_str(), category) || str_contains(
                    p.trigger_conditions[j].as_str(),
                    "complexity",
                )) {
                    found = true;
                }
                j += 1;
            }
            proof {
                reveal(Seq::filter);
                assert(idx.take(i + 1).drop_last() =~= idx.take(i as int));
                assert(idx.take(i + 1).last() == i as int);
                assert(found == pred(i as int));
            }
            let ghost before = out@;
            if found {
                out.push(i);
                assert(out@.map_values(|i: usize| i as int) =~= before.map_values(|i: usize| i as int).push(i as int));
            } else {
                assert(out@.map_values(|i: usize| i as int) == before.map_values(|i: usize| i as int));
            }
            i += 1;
        }
        assert(idx.take(ps.len() as int) =~= idx);
        out
    }

    /// Records one more use of pattern `i`, successful or not, at `now`.
    pub fn record_use(&mut self, i: usize, success: bool, now: String)
        requires
            old(self).wf(),
            i < old(self).patterns_view().len(),
            old(self).patterns_view()[i as int].usage_count < u64::MAX,
        ensures
            final(self).wf(),
            final(self).max() == old(self).max(),
            final(self).patterns_view().len() == old(self).patterns_view().len(),
            used_from(final(self).patterns_view()[i as int], old(self).patterns_view()[i as int], success, now@),
            forall|j: int|
                0 <= j < old(self).patterns_view().len() && j != i ==> #[trigger] final(self).patterns_view()[j]
                    == old(self).patterns_view()[j],
    {
        let u = self.patterns[i].usage_count;
        let c = self.patterns[i].success_count;
        assert(c <= u);
        self.patterns[i].usage_count = u + 1;
        if success {
            self.patterns[i].success_count = c + 1;
        }
        self.patterns[i].updated_at = now;
    }

    /// Sorts the patterns by usage count, least used first, keeping the
    /// order of equally used ones.
    fn sort_by_usage(&mut self)
        requires
            old(self).wf(),
        ensures
            final(self).patterns_view() == sort_by_usage(old(self).patterns_view()),
            final(self).max() == old(self).max(),
            final(self).wf(),
    {
        let ghost s = self.patterns@;
        proof {
            sort_by_usage_is_ordered(s);
        }
        let mut rest: Vec<Pattern> = Vec::new();
        std::mem::swap(&mut rest, &mut self.patterns);
        let mut sorted: Vec<Pattern> = Vec::new();
        let mut i: usize = 0;
        assert(s.take(0) =~= Seq::<Pattern>::empty());
        assert(s.skip(0) =~= s);
        while rest.len() > 0
            invariant
                i <= s.len(),
                s.len() <= usize::MAX,
                rest@ == s.skip(i as int),
                sorted@ == sort_by_usage(s.take(i as int)),
            decreases rest.len(),
        {
            assert(s.take(i + 1).drop_last() =~= s.take(i as int));
            let x = rest.remove(0);
            assert(x == s[i as int]);
            assert(rest@ =~= s.skip(i + 1));
            let key = x.usage_count;
            let ghost s0 = sorted@;
            let mut k = sorted.len();
            assert(s0.take(k as int) =~= s0);
            assert(s0.skip(k as int) =~= Seq::<Pattern>::empty());
            while k > 0 && sorted[k - 1].usage_count > key
                invariant
                    k <= sorted@.len(),
                    s0 == sorted@,
                    x.usage_count == key,
                    insert_by_usage(s0, x) == insert_by_usage(s0.take(k as int), x) + s0.skip(k as int),
                decreases k,
            {
                assert(s0.take(k as int).drop_last() =~= s0.take(k - 1));
                assert(s0.take(k as int).last() == s0[k - 1]);
                assert(insert_by_usage(s0.take(k as int), x) == insert_by_usage(s0.take(k - 1), x).push(s0[k - 1]));
                assert(seq![s0[k - 1]] + s0.skip(k as int) =~= s0.skip(k - 1));
                k -= 1;
            }
            proof {
                if k > 0 {
                    assert(s0.take(k as int).last() == s0[k - 1]);
                }
            }
            sorted.insert(k, x);
            assert(sorted@ =~= s0.take(k as int) + seq![x] + s0.skip(k as int));
            assert(insert_by_usage(s0.take(k as int), x) =~= s0.take(k as int).push(x));
            i += 1;
        }
        assert(s.take(i as int) =~= s);
        self.patterns = sorted;
        assert forall|j: int|
            0 <= j < self.patterns_view().len() implies #[trigger] self.patterns_view()[j].success_count
                <= self.patterns_view()[j].usage_count by {
            broadcast use {vstd::seq_lib::group_to_multiset_ensures, vstd::multiset::group_multiset_axioms};

            let t = self.patterns_view();
            assert(t.to_multiset().count(t[j]) > 0);
            assert(s.contains(t[j]));
        }
    }

    /// Adds a pattern. When the store is full, it is first sorted by usage
    /// count and its least used pattern dropped.
    pub fn insert(&mut self, pattern: Pattern)
        requires
            old(self).wf(),
            old(self).max() > 0,
            pattern.success_count <= pattern.usage_count,
        ensures
            final(self).wf(),
            final(self).max() == old(self).max(),
            final(self).patterns_view() == kept_for_new(old(self).patterns_view(), old(self).max()).push(pattern),
    {
        if self.patterns.len() >= self.max_patterns {
            self.sort_by_usage();
            proof {
                sort_by_usage_is_ordered(old(self).patterns_view());
            }
            let _ = self.patterns.remove(0);
            assert(self.patterns@ =~= sort_by_usage(old(self).patterns_view()).drop_first());
        }
        self.patterns.push(pattern);
    }
    /// Learns from one execution of a task with features `f`: when a task
    /// pattern for its category is already stored, that pattern is used once
    /// more and nothing new is learned; otherwise a new task pattern with a
    /// fresh random id is stored and its id is returned with the knowledge
    /// recorded for it.
    pub fn learn_task_pattern(&mut self, f: &TaskFeatures, success: bool, now: &str) -> (r: Option<(String, String)>)
        requires
            old(self).wf(),
            old(self).max() > 0,
            f.complexity_hundredths <= 100,
            forall|i: int|
                first_similar_at(old(self).patterns_view(), i, f.category@)
                    ==> #[trigger] old(self).patterns_view()[i].usage_count < u64::MAX,
        ensures
            final(self).wf(),
            final(self).max() == old(self).max(),
            ({
                let cat = f.category@;
                let c = f.complexity_hundredths;
                let ps = old(self).patterns_view();
                &&& has_similar(ps, cat) ==> {
                    &&& r is None
                    &&& final(self).patterns_view().len() == ps.len()
                    &&& forall|i: int|
                        first_similar_at(ps, i, cat) ==> {
                            &&& used_from(final(self).patterns_view()[i], ps[i], success, now@)
                            &&& forall|j: int|
                                0 <= j < ps.len() && j != i ==> #[trigger] final(self).patterns_view()[j] == ps[j]
                        }
                }
                &&& !has_similar(ps, cat) ==> (r matches Some((id, content)) && {
                    &&& content@ == task_knowledge_content(cat, c, strings_view(f.keywords@))
                    &&& final(self).patterns_view().drop_last() == kept_for_new(ps, old(self).max())
                    &&& new_task_pattern(final(self).patterns_view().last(), id@, cat, c, success, now@)
                })
            }),
    {
        let cat = f.category.as_str();
        match self.find_similar(cat) {
            Some(i) => {
                let ghost ps = self.patterns_view();
                proof {
                    assert forall|k: int| first_similar_at(ps, k, cat@) implies k == i as int by {
                        if k < i {
                            assert(!similar_to(ps[k], cat@));
                        } else if k > i {
                            assert(!similar_to(ps[i as int], cat@));
                        }
                    }
                }
                self.record_use(i, success, now.to_owned());
                None
            },
            None => {
                let c = f.complexity_hundredths;
                let mut name = "Task Pattern: ".to_owned();
                name.append(cat);
                let mut description = "Pattern for tasks in category '".to_owned();
                description.append(cat);
                description.append("' with complexity ");
                push_two_decimals(&mut description, c);
                let mut by_category = "category = '".to_owned();
                by_category.append(cat);
                by_category.append("'");
                let mut by_complexity = "complexity > ".to_owned();
                assert(c <= 100);
                push_two_decimals(&mut by_complexity, (8 * c + 5) / 10);
                let triggers = vec![by_category, by_complexity];
                let id = fresh_uuid();
                let pattern = Pattern {
                    id: id.clone(),
                    pattern_type: PatternType::TaskPattern,
                    name,
                    description,
                    trigger_conditions: triggers,
                    usage_count: 1,
                    success_count: if success { 1 } else { 0 },
                    created_at: now.to_owned(),
                    updated_at: now.to_owned(),
                };
                assert(strings_view(pattern.trigger_conditions@) =~= seq![
                    "category = '"@ + cat@ + "'"@,
                    "complexity > "@ + two_decimals(trigger_threshold(c)),
                ]);
                self.insert(pattern);
                let mut content = "Task category: ".to_owned();
                content.append(cat);
                content.append(", complexity: ");
                push_two_decimals(&mut content, c);
                content.append(", keywords: ");
                push_list_debug(&mut content, &f.keywords);
                assert(self.patterns_view().drop_last() =~= kept_for_new(old(self).patterns_view(), old(self).max()));
                Some((id, content))
            },
        }
    }
}

} // verus!
