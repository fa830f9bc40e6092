//! Loop prevention for ReAct reasoning: repeated actions, overused
//! resources and near-identical actions are detected before they run.
use vstd::prelude::*;
use vstd::string::StringExecFns;
use crate::text::{chars_eq, chars_of, split_whitespace_chars, str_eq, words};

verus! {

broadcast use vstd::string::group_string_axioms;

/// Loop detection result.
#[derive(Debug, Clone, PartialEq, Eq)]
pub enum LoopDetectionResult {
    NoLoop,
    /// The same tool call was made before; `count` counts the repeats.
    ExactLoop { count: usize },
    /// A resource was used by a tool more often than allowed.
    ResourceLoop { resource: String, count: usize },
    /// The action shares most of its words with a recent one: the words in
    /// common and the words of both together.
    SemanticLoop { shared_words: usize, all_words: usize },
}

/// Reason for terminating ReAct execution.
#[derive(Debug, Clone, PartialEq, Eq)]
pub enum TerminationReason {
    MaxStepsReached,
    Timeout,
    ConfidenceDecay,
    LoopDetected(LoopDetectionResult),
    UserRequest,
    Success,
}

/// Check if max steps reached.
pub fn check_step_limit(current_step: usize, max_steps: usize) -> (r: Result<(), TerminationReason>)
    ensures
        r is Ok <==> current_step < max_steps,
        r is Err ==> r == Err::<(), TerminationReason>(TerminationReason::MaxStepsReached),
{
    if current_step >= max_steps {
        return Err(TerminationReason::MaxStepsReached);
    }
    Ok(())
}

/// The distinct entries of `ws`, in order of first occurrence.
pub open spec fn distinct(ws: Seq<Seq<char>>) -> Seq<Seq<char>>
    decreases ws.len(),
{
    if ws.len() == 0 {
        Seq::empty()
    } else {
        let rest = distinct(ws.drop_last());
        if rest.contains(ws.last()) {
            rest
        } else {
            rest.push(ws.last())
        }
    }
}

/// How many of `xs` occur in `ys`.
pub open spec fn count_in(xs: Seq<Seq<char>>, ys: Seq<Seq<char>>) -> nat
    decreases xs.len(),
{
    if xs.len() == 0 {
        0
    } else {
        count_in(xs.drop_last(), ys) + if ys.contains(xs.last()) {
            1nat
        } else {
            0nat
        }
    }
}

/// Words the two texts have in common (each counted once).
pub open spec fn shared_words(a: Seq<char>, b: Seq<char>) -> nat {
    count_in(distinct(words(a)), words(b))
}

/// Words of the two texts together (each counted once).
pub open spec fn all_words(a: Seq<char>, b: Seq<char>) -> nat {
    (distinct(words(a)).len() + distinct(words(b)).len() - shared_words(a, b)) as nat
}

/// Whether two actions are near-identical: their word sets overlap by more
/// than 85% (Jaccard similarity).
pub open spec fn near_identical(a: Seq<char>, b: Seq<char>) -> bool {
    all_words(a, b) > 0 && shared_words(a, b) * 100 > 85 * all_words(a, b)
}

proof fn lemma_count_in_bound(xs: Seq<Seq<char>>, ys: Seq<Seq<char>>)
    ensures
        count_in(xs, ys) <= xs.len(),
    decreases xs.len(),
{
    if xs.len() > 0 {
        lemma_count_in_bound(xs.drop_last(), ys);
    }
}

proof fn lemma_distinct_bound(ws: Seq<Seq<char>>)
    ensures
        distinct(ws).len() <= ws.len(),
    decreases ws.len(),
{
    if ws.len() > 0 {
        lemma_distinct_bound(ws.drop_last());
    }
}

proof fn lemma_distinct_members(ws: Seq<Seq<char>>)
    ensures
        forall|i: int| 0 <= i < ws.len() ==> distinct(ws).contains(#[trigger] ws[i]),
        forall|i: int| 0 <= i < distinct(ws).len() ==> ws.contains(#[trigger] distinct(ws)[i]),
        ws.len() > 0 ==> distinct(ws).len() > 0,
    decreases ws.len(),
{
    if ws.len() > 0 {
        let init = ws.drop_last();
        lemma_distinct_members(init);
        let rest = distinct(init);
        assert forall|i: int| 0 <= i < ws.len() implies distinct(ws).contains(#[trigger] ws[i]) by {
            if i < ws.len() - 1 {
                assert(init[i] == ws[i]);
                let j = choose|j: int| 0 <= j < rest.len() && rest[j] == init[i];
                if !rest.contains(ws.last()) {
                    assert(distinct(ws)[j] == ws[i]);
                }
            } else if !rest.contains(ws.last()) {
                assert(distinct(ws)[rest.len() as int] == ws[i]);
            }
        }
        assert forall|i: int| 0 <= i < distinct(ws).len() implies ws.contains(#[trigger] distinct(ws)[i]) by {
            if i < rest.len() {
                assert(distinct(ws)[i] == rest[i]);
                let j = choose|j: int| 0 <= j < init.len() && init[j] == rest[i];
                assert(ws[j] == init[j]);
            } else {
                assert(distinct(ws)[i] == ws[ws.len() - 1]);
            }
        }
        if rest.len() == 0 {
            assert(!rest.contains(ws.last()));
        }
    }
}

proof fn lemma_count_in_all_or_none(xs: Seq<Seq<char>>, ys: Seq<Seq<char>>)
    ensures
        (forall|i: int| 0 <= i < xs.len() ==> ys.contains(#[trigger] xs[i])) ==> count_in(xs, ys) == xs.len(),
        (forall|i: int| 0 <= i < xs.len() ==> !ys.contains(#[trigger] xs[i])) ==> count_in(xs, ys) == 0,
    decreases xs.len(),
{
    if xs.len() > 0 {
        let init = xs.drop_last();
        lemma_count_in_all_or_none(init, ys);
        if forall|i: int| 0 <= i < xs.len() ==> ys.contains(#[trigger] xs[i]) {
            assert forall|i: int| 0 <= i < init.len() implies ys.contains(#[trigger] init[i]) by {
                assert(init[i] == xs[i]);
            }
            assert(ys.contains(xs[xs.len() - 1]));
        }
        if forall|i: int| 0 <= i < xs.len() ==> !ys.contains(#[trigger] xs[i]) {
            assert forall|i: int| 0 <= i < init.len() implies !ys.contains(#[trigger] init[i]) by {
                assert(init[i] == xs[i]);
            }
            assert(!ys.contains(xs[xs.len() - 1]));
        }
    }
}

/// Repeating an action word for word is near-identical, and two actions
/// with no word in common are not: an action with at least one word shares
/// all of its words with itself, a word overlap of 100%, above the 85%
/// threshold, while disjoint actions overlap by 0%.
pub proof fn repeats_are_near_identical(a: Seq<char>, b: Seq<char>)
    ensures
        words(a).len() > 0 ==> near_identical(a, a),
        (forall|i: int| 0 <= i < words(a).len() ==> !words(b).contains(#[trigger] words(a)[i])) ==> !near_identical(a, b),
{
    let wa = words(a);
    lemma_distinct_members(wa);
    let da = distinct(wa);
    assert forall|i: int| 0 <= i < da.len() implies wa.contains(#[trigger] da[i]) by {}
    lemma_count_in_all_or_none(da, wa);
    assert(shared_words(a, a) == da.len());
    if forall|i: int| 0 <= i < wa.len() ==> !words(b).contains(#[trigger] wa[i]) {
        assert forall|i: int| 0 <= i < da.len() implies !words(b).contains(#[trigger] da[i]) by {
            let j = choose|j: int| 0 <= j < wa.len() && wa[j] == da[i];
            assert(!words(b).contains(wa[j]));
        }
        lemma_count_in_all_or_none(da, words(b));
        assert(shared_words(a, b) == 0);
    }
}

/// Whether `ws` holds `w`.
pub(crate) fn holds_word(ws: &Vec<Vec<char>>, w: &Vec<char>) -> (r: bool)
    ensures
        r == ws@.map_values(|x: Vec<char>| x@).contains(w@),
{
    let ghost views = ws@.map_values(|x: Vec<char>| x@);
    let mut i: usize = 0;
    while i < ws.len()
        invariant
            i <= ws@.len(),
            views == ws@.map_values(|x: Vec<char>| x@),
            forall|j: int| 0 <= j < i ==> views[j] != w@,
        decreases ws.len() - i,
    {
        if chars_eq(ws[i].as_slice(), w.as_slice()) {
            assert(views[i as int] == w@);
            return true;
        }
        i += 1;
    }
    false
}

/// The distinct words of `t`.
fn distinct_words(t: &str) -> (r: Vec<Vec<char>>)
    ensures
        r@.map_values(|x: Vec<char>| x@) == distinct(words(t@)),
{
    let v = chars_of(t);
    let ws = split_whitespace_chars(v.as_slice());
    let ghost wv = ws@.map_values(|x: Vec<char>| x@);
    let mut out: Vec<Vec<char>> = Vec::new();
    let mut i: usize = 0;
    while i < ws.len()
        invariant
            i <= ws@.len(),
            wv == ws@.map_values(|x: Vec<char>| x@),
            wv == words(t@),
            out@.map_values(|x: Vec<char>| x@) == distinct(wv.take(i as int)),
        decreases ws.len() - i,
    {
        assert(wv.take(i + 1).drop_last() =~= wv.take(i as int));
        assert(wv[i as int] == ws@[i as int]@);
        if !holds_word(&out, &ws[i]) {
            let ghost before = out@;
            let w = ws[i].clone();
            out.push(w);
            assert(out@.map_values(|x: Vec<char>| x@) =~= before.map_values(|x: Vec<char>| x@).push(wv[i as int]));
        }
        i += 1;
    }
    assert(wv.take(ws@.len() as int) =~= wv);
    out
}

/// The words in common and the words together of two texts.
fn overlap(a: &str, b: &str) -> (r: (usize, u128))
    ensures
        r.0 == shared_words(a@, b@),
        r.1 == all_words(a@, b@),
        r.1 <= 2 * usize::MAX,
{
    let da = distinct_words(a);
    let db = distinct_words(b);
    let vb = chars_of(b);
    let wb = split_whitespace_chars(vb.as_slice());
    let ghost dav = da@.map_values(|x: Vec<char>| x@);
    let mut shared: usize = 0;
    let mut i: usize = 0;
    while i < da.len()
        invariant
            i <= da@.len(),
            dav == da@.map_values(|x: Vec<char>| x@),
            dav == distinct(words(a@)),
            wb@.map_values(|x: Vec<char>| x@) == words(b@),
            shared == count_in(dav.take(i as int), words(b@)),
            shared <= i,
        decreases da.len() - i,
    {
        assert(dav.take(i + 1).drop_last() =~= dav.take(i as int));
        assert(dav[i as int] == da@[i as int]@);
        if holds_word(&wb, &da[i]) {
            shared += 1;
        }
        i += 1;
    }
    assert(dav.take(da@.len() as int) =~= dav);
    proof {
        lemma_count_in_bound(dav, words(b@));
        lemma_distinct_bound(words(b@));
    }
    (shared, (da.len() - shared) as u128 + db.len() as u128)
}

/// A count held in a `usize`: at most `usize::MAX`.
pub open spec fn capped(n: nat) -> nat {
    if n > usize::MAX {
        usize::MAX as nat
    } else {
        n
    }
}

/// Whether two actions are near-identical, with the word counts.
fn similarity(a: &str, b: &str) -> (r: (bool, usize, usize))
    ensures
        r.0 == near_identical(a@, b@),
        r.1 == shared_words(a@, b@),
        r.2 == capped(all_words(a@, b@)),
{
    let (shared, all) = overlap(a, b);
    let similar = all > 0 && (shared as u128) * 100 > 85 * all;
    let all_capped: usize = if all > usize::MAX as u128 { usize::MAX } else { all as usize };
    (similar, shared, all_capped)
}

/// The string under key `field` of the JSON object that `args` parses to
/// (`serde_json::from_str`, then `Value::get` and `Value::as_str`).
pub uninterp spec fn json_str_field(args: Seq<char>, field: Seq<char>) -> Option<Seq<char>>;

/// Parses `args` as JSON and reads the string under `field`, if any.
#[verifier::external_body]
fn json_string_field(args: &str, field: &str) -> (r: Option<String>)
    ensures
        match r {
            Some(v) => json_str_field(args@, field@) == Some(v@),
            None => json_str_field(args@, field@) is None,
        },
{
    serde_json::from_str::<serde_json::Value>(args).ok().and_then(
        |v| v.get(field).and_then(|f| f.as_str()).map(|f| f.to_string()),
    )
}

/// Argument fields that name the resource a tool works on.
pub open spec fn resource_fields() -> Seq<Seq<char>> {
    seq!["image_path"@, "file_path"@, "url"@, "path"@, "resource"@]
}

/// A usage counter: (tool, resource, uses).
pub type UsageView = (Seq<char>, Seq<char>, nat);

/// Uses of `resource` by `tool` so far.
pub open spec fn uses(u: Seq<UsageView>, tool: Seq<char>, resource: Seq<char>) -> nat
    decreases u.len(),
{
    if u.len() == 0 {
        0
    } else if u[0].0 == tool && u[0].1 == resource {
        u[0].2
    } else {
        uses(u.drop_first(), tool, resource)
    }
}

/// The counters after one more use of `resource` by `tool`.
pub open spec fn bump(u: Seq<UsageView>, tool: Seq<char>, resource: Seq<char>) -> Seq<UsageView>
    decreases u.len(),
{
    if u.len() == 0 {
        seq![(tool, resource, 1nat)]
    } else if u[0].0 == tool && u[0].1 == resource {
        u.update(0, (tool, resource, capped(u[0].2 + 1)))
    } else {
        seq![u[0]] + bump(u.drop_first(), tool, resource)
    }
}

/// Counts the resources the arguments name, field by field from `i`; the
/// first resource used more than `limit` times ends the scan.
pub open spec fn scan_resources(
    u: Seq<UsageView>,
    tool: Seq<char>,
    args: Seq<char>,
    limit: nat,
    i: int,
) -> (Option<(Seq<char>, nat)>, Seq<UsageView>)
    decreases resource_fields().len() - i,
{
    if i < 0 || i >= resource_fields().len() {
        (None, u)
    } else {
        match json_str_field(args, resource_fields()[i]) {
            Some(res) => {
                let u2 = bump(u, tool, res);
                if uses(u2, tool, res) > limit {
                    (Some((res, uses(u2, tool, res))), u2)
                } else {
                    scan_resources(u2, tool, args, limit, i + 1)
                }
            },
            None => scan_resources(u, tool, args, limit, i + 1),
        }
    }
}

/// Index of the first recent action near-identical to `action`, if any.
pub open spec fn first_similar(window: Seq<Seq<char>>, action: Seq<char>, i: int) -> Option<int>
    decreases window.len() - i,
{
    if i < 0 || i >= window.len() {
        None
    } else if near_identical(window[i], action) {
        Some(i)
    } else {
        first_similar(window, action, i + 1)
    }
}

/// Enhanced loop detector with multi-level analysis.
pub struct EnhancedLoopDetector {
    /// Exact match history (tool name, arguments).
    exact_history: Vec<(String, String)>,
    /// Resource usage (tool, resource, uses).
    resource_usage: Vec<(String, String, usize)>,
    /// Recent actions, oldest first.
    semantic_window: Vec<String>,
    /// Repeat counter.
    consecutive_repeats: usize,
    max_window: usize,
    max_resource_usage: usize,
}

impl EnhancedLoopDetector {
    /// The tool calls seen, as (tool, arguments).
    pub closed spec fn history(self) -> Seq<(Seq<char>, Seq<char>)> {
        self.exact_history@.map_values(|e: (String, String)| (e.0@, e.1@))
    }

    /// The resource usage counters.
    pub closed spec fn usage(self) -> Seq<UsageView> {
        self.resource_usage@.map_values(|e: (String, String, usize)| (e.0@, e.1@, e.2 as nat))
    }

    /// The recent actions, oldest first.
    pub closed spec fn window(self) -> Seq<Seq<char>> {
        self.semantic_window@.map_values(|a: String| a@)
    }

    /// The repeat counter.
    pub closed spec fn repeats(self) -> nat {
        self.consecutive_repeats as nat
    }

    /// How many recent actions are compared.
    pub closed spec fn window_size(self) -> nat {
        self.max_window as nat
    }

    /// How often a tool may use one resource.
    pub closed spec fn resource_limit(self) -> nat {
        self.max_resource_usage as nat
    }

    /// A detector with nothing seen, comparing the last 5 actions and
    /// allowing 3 uses of a resource per tool.
    pub fn new() -> (d: Self)
        ensures
            d.history().len() == 0,
            d.usage().len() == 0,
            d.window().len() == 0,
            d.repeats() == 0,
            d.window_size() == 5,
            d.resource_limit() == 3,
    {
        EnhancedLoopDetector {
            exact_history: Vec::new(),
            resource_usage: Vec::new(),
            semantic_window: Vec::new(),
            consecutive_repeats: 0,
            max_window: 5,
            max_resource_usage: 3,
        }
    }

    /// Forgets everything seen.
    pub fn reset(&mut self)
        ensures
            final(self).history().len() == 0,
            final(self).usage().len() == 0,
            final(self).window().len() == 0,
            final(self).repeats() == 0,
            final(self).window_size() == old(self).window_size(),
            final(self).resource_limit() == old(self).resource_limit(),
    {
        self.exact_history = Vec::new();
        self.resource_usage = Vec::new();
        self.semantic_window = Vec::new();
        self.consecutive_repeats = 0;
    }
}

impl EnhancedLoopDetector {
    /// Whether this tool call was seen before.
    fn seen(&self, tool: &str, args: &str) -> (r: bool)
        ensures
            r == self.history().contains((tool@, args@)),
    {
        let ghost h = self.history();
        let mut i: usize = 0;
        while i < self.exact_history.len()
            invariant
                i <= self.exact_history@.len(),
                h == self.history(),
                h == self.exact_history@.map_values(|e: (String, String)| (e.0@, e.1@)),
                forall|j: int| 0 <= j < i ==> h[j] != (tool@, args@),
            decreases self.exact_history.len() - i,
        {
            if str_eq(self.exact_history[i].0.as_str(), tool) && str_eq(self.exact_history[i].1.as_str(), args) {
                assert(h[i as int] == (tool@, args@));
                return true;
            }
            i += 1;
        }
        false
    }

    /// Counts one more use of `resource` by `tool`; returns the new count.
    fn count_use(&mut self, tool: &str, resource: &str) -> (n: usize)
        ensures
            final(self).usage() == bump(old(self).usage(), tool@, resource@),
            n == uses(final(self).usage(), tool@, resource@),
            final(self).history() == old(self).history(),
            final(self).window() == old(self).window(),
            final(self).repeats() == old(self).repeats(),
            final(self).window_size() == old(self).window_size(),
            final(self).resource_limit() == old(self).resource_limit(),
    {
        let ghost u = self.usage();
        let mut i: usize = 0;
        while i < self.resource_usage.len()
            invariant
                i <= self.resource_usage@.len(),
                *self == *old(self),
                u == self.usage(),
                u == self.resource_usage@.map_values(|e: (String, String, usize)| (e.0@, e.1@, e.2 as nat)),
                forall|j: int| 0 <= j < i ==> !(u[j].0 == tool@ && u[j].1 == resource@),
            decreases self.resource_usage.len() - i,
        {
            if str_eq(self.resource_usage[i].0.as_str(), tool) && str_eq(self.resource_usage[i].1.as_str(), resource) {
                let c = self.resource_usage[i].2;
                let next: usize = if c < usize::MAX { c + 1 } else { usize::MAX };
                let entry = (self.resource_usage[i].0.clone(), self.resource_usage[i].1.clone(), next);
                self.resource_usage.set(i, entry);
                proof {
                    lemma_bump_at(u, tool@, resource@, i as int);
                    assert(self.usage() =~= u.update(i as int, (tool@, resource@, capped(u[i as int].2 + 1))));
                    lemma_uses_at(self.usage(), tool@, resource@, i as int);
                }
                return next;
            }
            i += 1;
        }
        self.resource_usage.push((tool.to_owned(), resource.to_owned(), 1));
        proof {
            lemma_bump_absent(u, tool@, resource@);
            assert(self.usage() =~= u.push((tool@, resource@, 1nat)));
            lemma_uses_at(self.usage(), tool@, resource@, u.len() as int);
        }
        1
    }
}

proof fn lemma_bump_at(u: Seq<UsageView>, tool: Seq<char>, resource: Seq<char>, i: int)
    requires
        0 <= i < u.len(),
        u[i].0 == tool && u[i].1 == resource,
        forall|j: int| 0 <= j < i ==> !(u[j].0 == tool && u[j].1 == resource),
    ensures
        bump(u, tool, resource) == u.update(i, (tool, resource, capped(u[i].2 + 1))),
    decreases i,
{
    if i > 0 {
        let t = u.drop_first();
        assert forall|j: int| 0 <= j < i - 1 implies !(t[j].0 == tool && t[j].1 == resource) by {
            assert(t[j] == u[j + 1]);
        }
        lemma_bump_at(t, tool, resource, i - 1);
        assert(seq![u[0]] + t.update(i - 1, (tool, resource, capped(t[i - 1].2 + 1))) =~= u.update(
            i,
            (tool, resource, capped(u[i].2 + 1)),
        ));
    }
}

proof fn lemma_bump_absent(u: Seq<UsageView>, tool: Seq<char>, resource: Seq<char>)
    requires
        forall|j: int| 0 <= j < u.len() ==> !(u[j].0 == tool && u[j].1 == resource),
    ensures
        bump(u, tool, resource) == u.push((tool, resource, 1nat)),
    decreases u.len(),
{
    if u.len() > 0 {
        let t = u.drop_first();
        assert forall|j: int| 0 <= j < t.len() implies !(t[j].0 == tool && t[j].1 == resource) by {
            assert(t[j] == u[j + 1]);
        }
        lemma_bump_absent(t, tool, resource);
        assert(seq![u[0]] + t.push((tool, resource, 1nat)) =~= u.push((tool, resource, 1nat)));
    } else {
        assert(seq![(tool, resource, 1nat)] =~= u.push((tool, resource, 1nat)));
    }
}

proof fn lemma_uses_at(u: Seq<UsageView>, tool: Seq<char>, resource: Seq<char>, i: int)
    requires
        0 <= i < u.len(),
        u[i].0 == tool && u[i].1 == resource,
        forall|j: int| 0 <= j < i ==> !(u[j].0 == tool && u[j].1 == resource),
    ensures
        uses(u, tool, resource) == u[i].2,
    decreases i,
{
    if i > 0 {
        let t = u.drop_first();
        assert forall|j: int| 0 <= j < i - 1 implies !(t[j].0 == tool && t[j].1 == resource) by {
            assert(t[j] == u[j + 1]);
        }
        lemma_uses_at(t, tool, resource, i - 1);
    }
}

impl Default for EnhancedLoopDetector {
    fn default() -> (d: Self)
        ensures
            d.history().len() == 0,
            d.usage().len() == 0,
            d.window().len() == 0,
            d.repeats() == 0,
            d.window_size() == 5,
            d.resource_limit() == 3,
    {
        EnhancedLoopDetector::new()
    }
}

/// The action text compared for near-identity: tool and arguments.
pub open spec fn action_text(tool: Seq<char>, args: Seq<char>) -> Seq<char> {
    tool + seq![' '] + args
}

impl EnhancedLoopDetector {
    /// Counts the resources named in `args`; reports the first one overused.
    fn check_resource_loop(&mut self, tool: &str, args: &str) -> (r: Option<(String, usize)>)
        ensures
            ({
                let (res, u2) = scan_resources(old(self).usage(), tool@, args@, old(self).resource_limit(), 0);
                &&& final(self).usage() == u2
                &&& match r {
                    Some(p) => res == Some((p.0@, p.1 as nat)),
                    None => res is None,
                }
            }),
            final(self).history() == old(self).history(),
            final(self).window() == old(self).window(),
            final(self).repeats() == old(self).repeats(),
            final(self).window_size() == old(self).window_size(),
            final(self).resource_limit() == old(self).resource_limit(),
    {
        let fields: Vec<&str> = vec!["image_path", "file_path", "url", "path", "resource"];
        assert(fields@.map_values(|f: &str| f@) =~= resource_fields());
        let ghost limit = self.resource_limit();
        let mut i: usize = 0;
        while i < fields.len()
            invariant
                i <= fields@.len(),
                fields@.map_values(|f: &str| f@) == resource_fields(),
                limit == old(self).resource_limit(),
                scan_resources(old(self).usage(), tool@, args@, limit, 0) == scan_resources(
                    self.usage(),
                    tool@,
                    args@,
                    limit,
                    i as int,
                ),
                self.history() == old(self).history(),
                self.window() == old(self).window(),
                self.repeats() == old(self).repeats(),
                self.window_size() == old(self).window_size(),
                self.resource_limit() == old(self).resource_limit(),
            decreases fields.len() - i,
        {
            assert(resource_fields()[i as int] == fields@[i as int]@);
            match json_string_field(args, fields[i]) {
                Some(resource) => {
                    let count = self.count_use(tool, resource.as_str());
                    if count > self.max_resource_usage {
                        return Some((resource, count));
                    }
                },
                None => {},
            }
            i += 1;
        }
        None
    }

    /// Compares the action with the recent ones; a new action joins the
    /// window, which keeps the last `window_size` actions.
    fn check_semantic_loop(&mut self, tool: &str, args: &str) -> (r: Option<(usize, usize)>)
        ensures
            ({
                let action = action_text(tool@, args@);
                match first_similar(old(self).window(), action, 0) {
                    Some(j) => {
                        &&& r == Some((
                            shared_words(old(self).window()[j], action) as usize,
                            capped(all_words(old(self).window()[j], action)) as usize,
                        ))
                        &&& final(self).window() == old(self).window()
                    },
                    None => {
                        &&& r is None
                        &&& final(self).window() == (if old(self).window().len() >= old(self).window_size()
                            && old(self).window().len() > 0 {
                            old(self).window().drop_first()
                        } else {
                            old(self).window()
                        }).push(action)
                    },
                }
            }),
            final(self).history() == old(self).history(),
            final(self).usage() == old(self).usage(),
            final(self).repeats() == old(self).repeats(),
            final(self).window_size() == old(self).window_size(),
            final(self).resource_limit() == old(self).resource_limit(),
    {
        let mut action = tool.to_owned();
        crate::text::push_char(&mut action, ' ');
        action.append(args);
        let ghost w = self.window();
        let mut i: usize = 0;
        while i < self.semantic_window.len()
            invariant
                i <= self.semantic_window@.len(),
                *self == *old(self),
                w == self.window(),
                w == self.semantic_window@.map_values(|a: String| a@),
                action@ == action_text(tool@, args@),
                first_similar(w, action@, 0) == first_similar(w, action@, i as int),
            decreases self.semantic_window.len() - i,
        {
            assert(w[i as int] == self.semantic_window@[i as int]@);
            let (similar, shared, all) = similarity(self.semantic_window[i].as_str(), action.as_str());
            if similar {
                return Some((shared, all));
            }
            i += 1;
        }
        if self.semantic_window.len() >= self.max_window && self.semantic_window.len() > 0 {
            self.semantic_window.remove(0);
        }
        let ghost before = self.semantic_window@;
        self.semantic_window.push(action);
        proof {
            assert(self.window() =~= before.map_values(|a: String| a@).push(action_text(tool@, args@)));
            if w.len() >= old(self).window_size() && w.len() > 0 {
                assert(before.map_values(|a: String| a@) =~= w.drop_first());
            }
        }
        None
    }

    /// Check if the action indicates looping behavior: a tool call made
    /// before, a resource used too often, or an action near-identical to a
    /// recent one, checked in that order.
    pub fn is_looping(&mut self, tool: &str, args: &str) -> (r: LoopDetectionResult)
        ensures
            final(self).window_size() == old(self).window_size(),
            final(self).resource_limit() == old(self).resource_limit(),
            final(self).history().contains((tool@, args@)),
            old(self).history().contains((tool@, args@)) ==> {
                &&& r == LoopDetectionResult::ExactLoop { count: capped(old(self).repeats() + 1) as usize }
                &&& final(self).repeats() == capped(old(self).repeats() + 1)
                &&& final(self).history() == old(self).history()
                &&& final(self).usage() == old(self).usage()
                &&& final(self).window() == old(self).window()
            },
            !old(self).history().contains((tool@, args@)) ==> {
                let (res, u2) = scan_resources(old(self).usage(), tool@, args@, old(self).resource_limit(), 0);
                let action = action_text(tool@, args@);
                &&& final(self).repeats() == 0
                &&& final(self).history() == old(self).history().push((tool@, args@))
                &&& final(self).usage() == u2
                &&& match res {
                    Some(found) => {
                        &&& r matches LoopDetectionResult::ResourceLoop { resource, count } && resource@
                            == found.0 && count == found.1
                        &&& final(self).window() == old(self).window()
                    },
                    None => match first_similar(old(self).window(), action, 0) {
                        Some(j) => {
                            &&& r == LoopDetectionResult::SemanticLoop {
                                shared_words: shared_words(old(self).window()[j], action) as usize,
                                all_words: capped(all_words(old(self).window()[j], action)) as usize,
                            }
                            &&& final(self).window() == old(self).window()
                        },
                        None => {
                            &&& r == LoopDetectionResult::NoLoop
                            &&& final(self).window() == (if old(self).window().len()
                                >= old(self).window_size() && old(self).window().len() > 0 {
                                old(self).window().drop_first()
                            } else {
                                old(self).window()
                            }).push(action)
                        },
                    },
                }
            },
    {
        if self.seen(tool, args) {
            self.consecutive_repeats = if self.consecutive_repeats < usize::MAX {
                self.consecutive_repeats + 1
            } else {
                usize::MAX
            };
            return LoopDetectionResult::ExactLoop { count: self.consecutive_repeats };
        }
        self.consecutive_repeats = 0;
        self.exact_history.push((tool.to_owned(), args.to_owned()));
        assert(self.history() =~= old(self).history().push((tool@, args@)));
        assert(self.history()[self.history().len() - 1] == (tool@, args@));
        match self.check_resource_loop(tool, args) {
            Some((resource, count)) => {
                return LoopDetectionResult::ResourceLoop { resource, count };
            },
            None => {},
        }
        match self.check_semantic_loop(tool, args) {
            Some((shared, all)) => LoopDetectionResult::SemanticLoop { shared_words: shared, all_words: all },
            None => LoopDetectionResult::NoLoop,
        }
    }
}

/// The loop detector of the basic reasoning loop: it tolerates one repeat
/// of a call, counts the images the `see` tool looks at, and tolerates one
/// action near-identical to a recent one.
pub struct LoopDetector {
    exact_history: Vec<(String, String)>,
    resource_usage: Vec<(String, String, usize)>,
    window: Vec<String>,
    consecutive_repeats: usize,
}

/// A detector's state as (calls seen, resource uses, recent actions, repeats).
pub type DetectorView = (Seq<(Seq<char>, Seq<char>)>, Seq<UsageView>, Seq<Seq<char>>, nat);

/// How a call changes the basic detector, and whether it is a loop. A call
/// seen before adds a repeat, and is a loop from the second repeat on; a new
/// call resets the repeats and is remembered. Then a `see` call counts its
/// image, and is a loop past three looks at one image. Then an action
/// near-identical to a recent one is a loop if there was a repeat, and adds
/// one otherwise; a different action joins the last five.
pub open spec fn basic_loop_next(d: DetectorView, tool: Seq<char>, args: Seq<char>) -> (DetectorView, bool) {
    let seen = d.0.contains((tool, args));
    let hist = if seen { d.0 } else { d.0.push((tool, args)) };
    let rep = if seen { capped(d.3 + 1) } else { 0nat };
    if seen && rep >= 2 {
        ((hist, d.1, d.2, rep), true)
    } else {
        let image = if tool == "see"@ { json_str_field(args, "image_path"@) } else { None };
        let usage = match image {
            Some(p) => bump(d.1, tool, p),
            None => d.1,
        };
        if image is Some && uses(usage, tool, image->0) > 3 {
            ((hist, usage, d.2, rep), true)
        } else {
            let action = action_text(tool, args);
            match first_similar(d.2, action, 0) {
                Some(_) => if rep >= 1 {
                    ((hist, usage, d.2, rep), true)
                } else {
                    ((hist, usage, d.2, rep + 1), false)
                },
                None => (
                    (
                        hist,
                        usage,
                        (if d.2.len() >= 5 { d.2.drop_first() } else { d.2 }).push(action),
                        rep,
                    ),
                    false,
                ),
            }
        }
    }
}

impl LoopDetector {
    /// The detector's state.
    pub closed spec fn state(self) -> DetectorView {
        (
            self.exact_history@.map_values(|e: (String, String)| (e.0@, e.1@)),
            self.resource_usage@.map_values(|e: (String, String, usize)| (e.0@, e.1@, e.2 as nat)),
            self.window@.map_values(|a: String| a@),
            self.consecutive_repeats as nat,
        )
    }

    /// A detector that has seen nothing.
    pub fn new() -> (d: Self)
        ensures
            d.state() == (Seq::<(Seq<char>, Seq<char>)>::empty(), Seq::<UsageView>::empty(), Seq::<Seq<char>>::empty(), 0nat),
    {
        let d = LoopDetector { exact_history: Vec::new(), resource_usage: Vec::new(), window: Vec::new(), consecutive_repeats: 0 };
        assert(d.state().0 =~= Seq::<(Seq<char>, Seq<char>)>::empty());
        assert(d.state().1 =~= Seq::<UsageView>::empty());
        assert(d.state().2 =~= Seq::<Seq<char>>::empty());
        d
    }

    fn seen(&self, tool: &str, args: &str) -> (r: bool)
        ensures
            r == self.state().0.contains((tool@, args@)),
    {
        let ghost h = self.state().0;
        let mut i: usize = 0;
        while i < self.exact_history.len()
            invariant
                i <= self.exact_history@.len(),
                h == self.exact_history@.map_values(|e: (String, String)| (e.0@, e.1@)),
                forall|j: int| 0 <= j < i ==> h[j] != (tool@, args@),
            decreases self.exact_history.len() - i,
        {
            if str_eq(self.exact_history[i].0.as_str(), tool) && str_eq(self.exact_history[i].1.as_str(), args) {
                assert(h[i as int] == (tool@, args@));
                return true;
            }
            i += 1;
        }
        false
    }

    fn count_use(&mut self, tool: &str, resource: &str) -> (n: usize)
        ensures
            final(self).state() == (old(self).state().0, bump(old(self).state().1, tool@, resource@), old(self).state().2, old(self).state().3),
            n == uses(final(self).state().1, tool@, resource@),
    {
        let ghost u = self.state().1;
        let mut i: usize = 0;
        while i < self.resource_usage.len()
            invariant
                i <= self.resource_usage@.len(),
                *self == *old(self),
                u == self.resource_usage@.map_values(|e: (String, String, usize)| (e.0@, e.1@, e.2 as nat)),
                forall|j: int| 0 <= j < i ==> !(u[j].0 == tool@ && u[j].1 == resource@),
            decreases self.resource_usage.len() - i,
        {
            if str_eq(self.resource_usage[i].0.as_str(), tool) && str_eq(self.resource_usage[i].1.as_str(), resource) {
                let c = self.resource_usage[i].2;
                let next: usize = if c < usize::MAX { c + 1 } else { usize::MAX };
                self.resource_usage.set(i, (tool.to_owned(), resource.to_owned(), next));
                proof {
                    lemma_bump_at(u, tool@, resource@, i as int);
                    assert(self.state().1 =~= u.update(i as int, (tool@, resource@, capped(u[i as int].2 + 1))));
                    lemma_uses_at(self.state().1, tool@, resource@, i as int);
                    assert(self.state().0 =~= old(self).state().0);
                    assert(self.state().2 =~= old(self).state().2);
                }
                return next;
            }
            i += 1;
        }
        self.resource_usage.push((tool.to_owned(), resource.to_owned(), 1));
        proof {
            lemma_bump_absent(u, tool@, resource@);
            assert(self.state().1 =~= u.push((tool@, resource@, 1nat)));
            lemma_uses_at(self.state().1, tool@, resource@, u.len() as int);
        }
        1
    }

    /// Whether the call is a loop, by `basic_loop_next`.
    pub fn is_looping(&mut self, tool: &str, args: &str) -> (r: bool)
        ensures
            (final(self).state(), r) == basic_loop_next(old(self).state(), tool@, args@),
    {
        proof {
            reveal_strlit("see");
            reveal_strlit("image_path");
        }
        let ghost d = old(self).state();
        let ghost sn = d.0.contains((tool@, args@));
        let ghost hist = if sn { d.0 } else { d.0.push((tool@, args@)) };
        let ghost rep = if sn { capped(d.3 + 1) } else { 0nat };
        let seen = self.seen(tool, args);
        if seen {
            self.consecutive_repeats = if self.consecutive_repeats < usize::MAX {
                self.consecutive_repeats + 1
            } else {
                usize::MAX
            };
            if self.consecutive_repeats >= 2 {
                return true;
            }
        } else {
            self.consecutive_repeats = 0;
            self.exact_history.push((tool.to_owned(), args.to_owned()));
            assert(self.state().0 =~= old(self).state().0.push((tool@, args@)));
        }
        assert(self.state().1 =~= d.1);
        assert(self.state().2 =~= d.2);
        assert(self.state() == (hist, d.1, d.2, rep));
        let ghost image = if tool@ == "see"@ { json_str_field(args@, "image_path"@) } else { None };
        let ghost usage = match image {
            Some(p) => bump(d.1, tool@, p),
            None => d.1,
        };
        if str_eq(tool, "see") {
            match json_string_field(args, "image_path") {
                Some(path) => {
                    let n = self.count_use(tool, path.as_str());
                    if n > 3 {
                        return true;
                    }
                },
                None => {},
            }
        }
        assert(self.state() == (hist, usage, d.2, rep));
        assert(!(image is Some && uses(usage, tool@, image->0) > 3));
        let ghost mid2 = self.state();
        let mut action = tool.to_owned();
        crate::text::push_char(&mut action, ' ');
        action.append(args);
        let ghost w = self.window@.map_values(|a: String| a@);
        let ghost expected = match first_similar(w, action@, 0) {
            Some(_) => if mid2.3 >= 1 {
                (mid2, true)
            } else {
                ((mid2.0, mid2.1, mid2.2, mid2.3 + 1), false)
            },
            None => ((mid2.0, mid2.1, (if w.len() >= 5 { w.drop_first() } else { w }).push(action@), mid2.3), false),
        };
        assert(w == mid2.2);
        assert(!(sn && rep >= 2));
        assert(action@ == action_text(tool@, args@));
        assert(basic_loop_next(old(self).state(), tool@, args@) == expected);
        let mut i: usize = 0;
        while i < self.window.len()
            invariant
                i <= self.window@.len(),
                self.state() == mid2,
                basic_loop_next(old(self).state(), tool@, args@) == expected,
                first_similar(w, action@, 0) is Some ==> expected == (if mid2.3 >= 1 {
                    (mid2, true)
                } else {
                    ((mid2.0, mid2.1, mid2.2, mid2.3 + 1), false)
                }),
                first_similar(w, action@, 0) is None ==> expected == (
                    (mid2.0, mid2.1, (if w.len() >= 5 { w.drop_first() } else { w }).push(action@), mid2.3),
                    false,
                ),
                w == self.window@.map_values(|a: String| a@),
                action@ == action_text(tool@, args@),
                first_similar(w, action@, 0) == first_similar(w, action@, i as int),
            decreases self.window.len() - i,
        {
            assert(w[i as int] == self.window@[i as int]@);
            let (similar, _, _) = similarity(self.window[i].as_str(), action.as_str());
            if similar {
                assert(first_similar(w, action@, i as int) == Some(i as int));
                assert(first_similar(w, action@, 0) is Some);
                if self.consecutive_repeats >= 1 {
                    assert(expected == (mid2, true));
                    return true;
                }
                self.consecutive_repeats = self.consecutive_repeats + 1;
                assert(self.state().0 =~= mid2.0);
                assert(self.state().1 =~= mid2.1);
                assert(self.state().2 =~= mid2.2);
                assert(expected == ((mid2.0, mid2.1, mid2.2, mid2.3 + 1), false));
                return false;
            }
            i += 1;
        }
        if self.window.len() >= 5 {
            self.window.remove(0);
        }
        let ghost before = self.window@;
        self.window.push(action);
        proof {
            assert(self.window@.map_values(|a: String| a@) =~= before.map_values(|a: String| a@).push(action_text(tool@, args@)));
            if w.len() >= 5 {
                assert(before.map_values(|a: String| a@) =~= w.drop_first());
            }
        }
        false
    }
}

} // verus!
