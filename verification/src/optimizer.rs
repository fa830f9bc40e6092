//! Decisions of the meta-cognitive optimizer: how learned knowledge is read,
//! which configuration changes prevent a recurring error, and which strategy
//! and role profile fit a task category.
use vstd::prelude::*;
use vstd::string::StringExecFns;
use crate::logic::{decimal, digit_of};
use crate::text::{chars_of, seq_contains, str_contains, str_eq, string_of, string_of_range, trim, trim_chars};

verus! {

broadcast use vstd::string::group_string_axioms;

/// One configuration change.
#[derive(Debug, Clone)]
pub struct ConfigChange {
    pub key: String,
    pub old_value: Option<String>,
    pub new_value: String,
    pub reason: String,
}

/// The value of a string of decimal digits.
pub open spec fn digits_value(s: Seq<char>) -> nat
    decreases s.len(),
{
    if s.len() == 0 {
        0
    } else {
        digits_value(s.drop_last()) * 10 + (s.last() as nat - '0' as nat) as nat
    }
}

/// Whether every character of `s` is an ASCII digit.
pub open spec fn all_digits(s: Seq<char>) -> bool {
    forall|i: int| 0 <= i < s.len() ==> '0' <= #[trigger] s[i] <= '9'
}

/// What `str::parse` gives for an unsigned integer type whose largest value
/// is `max`: an optional `+`, then one or more ASCII digits, with a value
/// that fits.
pub open spec fn parse_unsigned(s: Seq<char>, max: nat) -> Option<nat> {
    let body = if s.len() > 0 && s[0] == '+' {
        s.drop_first()
    } else {
        s
    };
    if body.len() == 0 || !all_digits(body) || digits_value(body) > max {
        None
    } else {
        Some(digits_value(body))
    }
}

/// `str::parse::<u64>`.
pub fn parse_u64(s: &str) -> (r: Option<u64>)
    ensures
        match r {
            Some(v) => parse_unsigned(s@, u64::MAX as nat) == Some(v as nat),
            None => parse_unsigned(s@, u64::MAX as nat) is None,
        },
{
    let v = chars_of(s);
    let start: usize = if v.len() > 0 && v[0] == '+' { 1 } else { 0 };
    let ghost body = if s@.len() > 0 && s@[0] == '+' { s@.drop_first() } else { s@ };
    assert(body =~= v@.skip(start as int));
    if start >= v.len() {
        return None;
    }
    let mut value: u64 = 0;
    let mut i: usize = start;
    assert(v@.subrange(start as int, start as int) =~= Seq::<char>::empty());
    while i < v.len()
        invariant
            start <= i <= v@.len(),
            v@ == s@,
            body == (if s@.len() > 0 && s@[0] == '+' { s@.drop_first() } else { s@ }),
            body =~= v@.skip(start as int),
            all_digits(v@.subrange(start as int, i as int)),
            value as nat == digits_value(v@.subrange(start as int, i as int)),
        decreases v.len() - i,
    {
        let c = v[i];
        let ghost pre = v@.subrange(start as int, i as int);
        let ghost next = v@.subrange(start as int, i + 1);
        assert(next.drop_last() =~= pre);
        if c < '0' || c > '9' {
            assert(!all_digits(body)) by {
                assert(body[i - start] == c);
            }
            return None;
        }
        let d = (c as u32 - '0' as u32) as u64;
        assert(d as nat == (c as nat - '0' as nat) as nat);
        if value > (u64::MAX - d) / 10 {
            proof {
                assert(value * 10 + d > u64::MAX) by (nonlinear_arith)
                    requires
                        value > (u64::MAX - d) / 10,
                        d <= 9,
                ;
                assert(digits_value(next) == digits_value(pre) * 10 + d);
                assert(next =~= body.take(i - start + 1));
                if all_digits(body) {
                    lemma_digits_prefix_bound(body, (i - start + 1) as int);
                }
            }
            return None;
        }
        value = value * 10 + d;
        i += 1;
    }
    assert(v@.subrange(start as int, v@.len() as int) =~= body);
    Some(value)
}

/// A longer digit string is worth at least as much as its prefix.
proof fn lemma_digits_prefix_bound(s: Seq<char>, k: int)
    requires
        0 <= k <= s.len(),
        all_digits(s),
    ensures
        digits_value(s.take(k)) > u64::MAX ==> digits_value(s) > u64::MAX,
    decreases s.len() - k,
{
    if k < s.len() {
        assert(s.take(k + 1).drop_last() =~= s.take(k));
        assert('0' <= s[k] <= '9');
        lemma_digits_prefix_bound(s, k + 1);
    } else {
        assert(s.take(k) =~= s);
    }
}

/// Appends the decimal digits of `n`.
pub(crate) fn push_decimal_u64(out: &mut String, n: u64)
    ensures
        final(out)@ == old(out)@ + decimal(n as nat),
    decreases n,
{
    if n >= 10 {
        push_decimal_u64(out, n / 10);
    }
    crate::text::push_char(out, digit_of((n % 10) as usize));
    assert(final(out)@ =~= old(out)@ + decimal(n as nat));
}

/// `s` cut at every `c` (`str::split` with a character pattern).
pub open spec fn split_on(s: Seq<char>, c: char) -> Seq<Seq<char>>
    decreases s.len(),
{
    if s.len() == 0 {
        seq![Seq::empty()]
    } else {
        let rest = split_on(s.drop_last(), c);
        if s.last() == c {
            rest.push(Seq::empty())
        } else {
            rest.update(rest.len() - 1, rest.last().push(s.last()))
        }
    }
}

proof fn lemma_split_nonempty(s: Seq<char>, c: char)
    ensures
        split_on(s, c).len() >= 1,
    decreases s.len(),
{
    if s.len() > 0 {
        lemma_split_nonempty(s.drop_last(), c);
    }
}

/// The pieces of `v` between the separator `c`.
pub(crate) fn split_chars(v: &Vec<char>, c: char) -> (r: Vec<Vec<char>>)
    ensures
        r@.map_values(|w: Vec<char>| w@) == split_on(v@, c),
        r@.len() >= 1,
{
    let mut pieces: Vec<Vec<char>> = Vec::new();
    let mut cur: Vec<char> = Vec::new();
    let mut i: usize = 0;
    assert(v@.take(0) =~= Seq::<char>::empty());
    while i < v.len()
        invariant
            i <= v@.len(),
            pieces@.map_values(|w: Vec<char>| w@) + seq![cur@] == split_on(v@.take(i as int), c),
        decreases v.len() - i,
    {
        let ghost p = split_on(v@.take(i as int), c);
        assert(v@.take(i + 1).drop_last() =~= v@.take(i as int));
        assert(v@.take(i + 1).last() == v[i as int]);
        let ghost old_pieces = pieces@;
        if v[i] == c {
            pieces.push(cur);
            cur = Vec::new();
            assert(pieces@.map_values(|w: Vec<char>| w@) =~= old_pieces.map_values(|w: Vec<char>| w@).push(p.last()));
            assert(pieces@.map_values(|w: Vec<char>| w@) + seq![cur@] =~= p.push(Seq::<char>::empty()));
        } else {
            cur.push(v[i]);
            assert(pieces@.map_values(|w: Vec<char>| w@) + seq![cur@] =~= p.update(p.len() - 1, p.last().push(v[i as int])));
        }
        i += 1;
    }
    assert(v@.take(v@.len() as int) =~= v@);
    let ghost before = pieces@;
    pieces.push(cur);
    assert(pieces@.map_values(|w: Vec<char>| w@) =~= before.map_values(|w: Vec<char>| w@) + seq![cur@]);
    pieces
}

/// The category of a task-pattern description: the trimmed text after the
/// last `:` of its first comma-separated part.
pub open spec fn category_of(content: Seq<char>) -> Seq<char> {
    let first = split_on(content, ',')[0];
    trim(split_on(first, ':').last())
}

/// The error type of an error-pattern description: its third `:`-separated
/// field, trimmed, or `unknown`.
pub open spec fn error_type_of(content: Seq<char>) -> Seq<char> {
    let parts = split_on(content, ':');
    if parts.len() > 2 {
        trim(parts[2])
    } else {
        "unknown"@
    }
}

/// The strategy named by a successful-strategy description: the trimmed
/// text after its last `:`.
pub open spec fn strategy_of(content: Seq<char>) -> Seq<char> {
    trim(split_on(content, ':').last())
}

/// The task category named by `content`.
pub fn extract_category(content: &str) -> (r: String)
    ensures
        r@ == category_of(content@),
{
    let v = chars_of(content);
    let parts = split_chars(&v, ',');
    assert(parts@.map_values(|w: Vec<char>| w@)[0] == parts@[0]@);
    let fields = split_chars(&parts[0], ':');
    let last = fields.len() - 1;
    assert(fields@.map_values(|w: Vec<char>| w@).last() == fields@[last as int]@);
    let t = trim_chars(fields[last].as_slice());
    string_of(t.as_slice())
}

/// The error type named by `content`.
pub fn extract_error_type(content: &str) -> (r: String)
    ensures
        r@ == error_type_of(content@),
{
    let v = chars_of(content);
    let parts = split_chars(&v, ':');
    if parts.len() > 2 {
        assert(parts@.map_values(|w: Vec<char>| w@)[2] == parts@[2]@);
        let t = trim_chars(parts[2].as_slice());
        string_of(t.as_slice())
    } else {
        "unknown".to_owned()
    }
}

/// The strategy named by `content`.
pub fn extract_strategy(content: &str) -> (r: String)
    ensures
        r@ == strategy_of(content@),
{
    let v = chars_of(content);
    let parts = split_chars(&v, ':');
    let last = parts.len() - 1;
    assert(parts@.map_values(|w: Vec<char>| w@).last() == parts@[last as int]@);
    let t = trim_chars(parts[last].as_slice());
    string_of(t.as_slice())
}

/// `n` clamped to `[lo, hi]`.
pub open spec fn clamp(n: nat, lo: nat, hi: nat) -> nat {
    if n < lo {
        lo
    } else if n > hi {
        hi
    } else {
        n
    }
}

/// A parsed setting, or the default when it does not parse.
pub open spec fn setting_or(s: Seq<char>, max: nat, default: nat) -> nat {
    match parse_unsigned(s, max) {
        Some(v) => v,
        None => default,
    }
}

/// The view of an optional string.
pub open spec fn opt_view(o: Option<String>) -> Option<Seq<char>> {
    match o {
        Some(s) => Some(s@),
        None => None,
    }
}

/// A configuration change as (key, old value, new value, reason).
pub type ChangeView = (Seq<char>, Option<Seq<char>>, Seq<char>, Seq<char>);

/// The view of a change.
pub open spec fn change_view(c: ConfigChange) -> ChangeView {
    (c.key@, opt_view(c.old_value), c.new_value@, c.reason@)
}

/// The current values the error prevention reads.
pub struct CurrentSettings {
    /// `swarm.default_timeout_ms`, if set.
    pub default_timeout_ms: Option<String>,
    /// `swarm.max_concurrent`, if set.
    pub max_concurrent: Option<String>,
    /// `cognitive.validation_strictness`, if set.
    pub validation_strictness: Option<String>,
}

/// What preventing an error of a type does: the configuration changes, and
/// whether the web search tool is throttled.
pub open spec fn prevention_plan(
    error_type: Seq<char>,
    current: CurrentSettings,
    now: Seq<char>,
) -> (Seq<ChangeView>, bool) {
    if error_type == "timeout"@ || error_type == "llm_timeout"@ {
        let old = match opt_view(current.default_timeout_ms) {
            Some(v) => v,
            None => "30000"@,
        };
        let new = decimal(clamp(setting_or(old, u64::MAX as nat, 30000) * 12 / 10, 30000, 300000));
        (
            seq![("swarm.default_timeout_ms"@, Some(old), new, "Timeout error prevention: "@ + old + " -> "@ + new)],
            true,
        )
    } else if error_type == "rate_limit"@ || error_type == "api_error"@ {
        let old = match opt_view(current.max_concurrent) {
            Some(v) => v,
            None => "20"@,
        };
        let half = setting_or(old, u64::MAX as nat, 20) / 2;
        let new = decimal(if half < 1 { 1 } else { half });
        (
            seq![("swarm.max_concurrent"@, Some(old), new, "Rate limit prevention: concurrency "@ + old + " -> "@ + new)],
            false,
        )
    } else if error_type == "hallucination"@ || error_type == "incorrect_output"@ {
        (
            seq![(
                "cognitive.validation_strictness"@,
                opt_view(current.validation_strictness),
                "high"@,
                "Hallucination prevention: strict validation"@,
            )],
            false,
        )
    } else {
        (
            seq![(
                "error_pattern.blacklist."@ + error_type.map_values(|c: char| if c == ' ' { '_' } else { c }),
                None,
                now,
                "Generic error prevention for: "@ + error_type,
            )],
            false,
        )
    }
}

/// The value a setting parses to, or the default.
fn parsed_or(s: &str, default: u64) -> (r: u64)
    ensures
        r == setting_or(s@, u64::MAX as nat, default as nat),
{
    match parse_u64(s) {
        Some(v) => v,
        None => default,
    }
}

/// `s` with spaces replaced by underscores.
fn underscored(s: &str) -> (r: String)
    ensures
        r@ == s@.map_values(|c: char| if c == ' ' { '_' } else { c }),
{
    let v = chars_of(s);
    let mut out = String::new();
    let mut i: usize = 0;
    while i < v.len()
        invariant
            i <= v@.len(),
            v@ == s@,
            out@ == s@.take(i as int).map_values(|c: char| if c == ' ' { '_' } else { c }),
        decreases v.len() - i,
    {
        let c = if v[i] == ' ' { '_' } else { v[i] };
        crate::text::push_char(&mut out, c);
        assert(s@.take(i + 1).map_values(|c: char| if c == ' ' { '_' } else { c }) =~= s@.take(
            i as int,
        ).map_values(|c: char| if c == ' ' { '_' } else { c }).push(c));
        i += 1;
    }
    assert(s@.take(v@.len() as int) =~= s@);
    out
}

/// Applies error prevention for `error_type`: the configuration changes to
/// make and whether to throttle the web search tool. A timeout raises the
/// default timeout by a fifth (kept within 30 s and 300 s); a rate limit
/// halves concurrency (at least 1); a hallucination asks for strict
/// validation; anything else is blacklisted at time `now`.
pub fn error_prevention(error_type: &str, current: &CurrentSettings, now: &str) -> (r: (
    Vec<ConfigChange>,
    bool,
))
    requires
        (error_type@ == "timeout"@ || error_type@ == "llm_timeout"@) ==> setting_or(
            match opt_view(current.default_timeout_ms) {
                Some(v) => v,
                None => "30000"@,
            },
            u64::MAX as nat,
            30000,
        ) * 12 <= u64::MAX,
    ensures
        r.0@.map_values(|c: ConfigChange| change_view(c)) == prevention_plan(error_type@, *current, now@).0,
        r.1 == prevention_plan(error_type@, *current, now@).1,
{
    let mut changes: Vec<ConfigChange> = Vec::new();
    if str_eq(error_type, "timeout") || str_eq(error_type, "llm_timeout") {
        let old = match &current.default_timeout_ms {
            Some(v) => v.clone(),
            None => "30000".to_owned(),
        };
        let scaled = parsed_or(old.as_str(), 30000) * 12 / 10;
        let bounded = if scaled < 30000 { 30000 } else if scaled > 300000 { 300000 } else { scaled };
        let mut new = String::new();
        push_decimal_u64(&mut new, bounded);
        let mut reason = "Timeout error prevention: ".to_owned();
        reason.append(old.as_str());
        reason.append(" -> ");
        reason.append(new.as_str());
        changes.push(ConfigChange {
            key: "swarm.default_timeout_ms".to_owned(),
            old_value: Some(old),
            new_value: new,
            reason,
        });
        assert(changes@.map_values(|c: ConfigChange| change_view(c)) =~= prevention_plan(
            error_type@,
            *current,
            now@,
        ).0);
        return (changes, true);
    }
    if str_eq(error_type, "rate_limit") || str_eq(error_type, "api_error") {
        let old = match &current.max_concurrent {
            Some(v) => v.clone(),
            None => "20".to_owned(),
        };
        let half = parsed_or(old.as_str(), 20) / 2;
        let bounded = if half < 1 { 1 } else { half };
        let mut new = String::new();
        push_decimal_u64(&mut new, bounded);
        let mut reason = "Rate limit prevention: concurrency ".to_owned();
        reason.append(old.as_str());
        reason.append(" -> ");
        reason.append(new.as_str());
        changes.push(ConfigChange {
            key: "swarm.max_concurrent".to_owned(),
            old_value: Some(old),
            new_value: new,
            reason,
        });
        assert(changes@.map_values(|c: ConfigChange| change_view(c)) =~= prevention_plan(
            error_type@,
            *current,
            now@,
        ).0);
        return (changes, false);
    }
    if str_eq(error_type, "hallucination") || str_eq(error_type, "incorrect_output") {
        let old = match &current.validation_strictness {
            Some(v) => Some(v.clone()),
            None => None,
        };
        changes.push(ConfigChange {
            key: "cognitive.validation_strictness".to_owned(),
            old_value: old,
            new_value: "high".to_owned(),
            reason: "Hallucination prevention: strict validation".to_owned(),
        });
        assert(changes@.map_values(|c: ConfigChange| change_view(c)) =~= prevention_plan(
            error_type@,
            *current,
            now@,
        ).0);
        return (changes, false);
    }
    let mut key = "error_pattern.blacklist.".to_owned();
    let tail = underscored(error_type);
    key.append(tail.as_str());
    let mut reason = "Generic error prevention for: ".to_owned();
    reason.append(error_type);
    changes.push(ConfigChange { key, old_value: None, new_value: now.to_owned(), reason });
    assert(changes@.map_values(|c: ConfigChange| change_view(c)) =~= prevention_plan(
        error_type@,
        *current,
        now@,
    ).0);
    (changes, false)
}

/// The batch-size change a performance bottleneck calls for: when the
/// description mentions `slow` or `timeout`, the batch size doubles (to at
/// least 5); otherwise nothing changes.
pub open spec fn performance_plan(content: Seq<char>, old_batch: Option<Seq<char>>) -> Seq<ChangeView> {
    if seq_contains(content, "slow"@) || seq_contains(content, "timeout"@) {
        let old = match old_batch {
            Some(v) => v,
            None => "1"@,
        };
        let doubled = setting_or(old, usize::MAX as nat, 1) * 2;
        let new = decimal(if doubled < 5 { 5 } else { doubled });
        seq![("tools.batch_size"@, Some(old), new, "Performance optimization: increase batch size"@)]
    } else {
        Seq::empty()
    }
}

/// The configuration changes for a performance bottleneck described by `content`.
pub fn optimize_performance(content: &str, old_batch: &Option<String>) -> (r: Vec<ConfigChange>)
    requires
        setting_or(
            match opt_view(*old_batch) {
                Some(v) => v,
                None => "1"@,
            },
            usize::MAX as nat,
            1,
        ) * 2 <= usize::MAX,
    ensures
        r@.map_values(|c: ConfigChange| change_view(c)) == performance_plan(content@, opt_view(*old_batch)),
{
    let mut changes: Vec<ConfigChange> = Vec::new();
    if str_contains(content, "slow") || str_contains(content, "timeout") {
        let old = match old_batch {
            Some(v) => v.clone(),
            None => "1".to_owned(),
        };
        let parsed: u64 = match parse_u64(old.as_str()) {
            Some(v) => if v <= usize::MAX as u64 { v } else { 1 },
            None => 1,
        };
        proof {
            assert(parse_unsigned(old@, usize::MAX as nat) == (match parse_unsigned(old@, u64::MAX as nat) {
                Some(v) => if v <= usize::MAX { Some(v) } else { None },
                None => None,
            }));
        }
        let doubled = parsed * 2;
        let bounded = if doubled < 5 { 5 } else { doubled };
        let mut new = String::new();
        push_decimal_u64(&mut new, bounded);
        changes.push(ConfigChange {
            key: "tools.batch_size".to_owned(),
            old_value: Some(old),
            new_value: new,
            reason: "Performance optimization: increase batch size".to_owned(),
        });
    }
    assert(changes@.map_values(|c: ConfigChange| change_view(c)) =~= performance_plan(
        content@,
        opt_view(*old_batch),
    ));
    changes
}

/// Kinds of learned knowledge the optimizer acts on.
#[derive(Debug, Clone, Copy, PartialEq, Eq, Structural)]
pub enum KnowledgeKind {
    TaskPattern,
    ErrorPattern,
    SuccessfulStrategy,
    PerformanceBottleneck,
    /// Any other kind: skipped.
    Other,
}

/// The kind a knowledge type names.
pub open spec fn knowledge_kind(t: Seq<char>) -> KnowledgeKind {
    if t == "task_pattern"@ {
        KnowledgeKind::TaskPattern
    } else if t == "error_pattern"@ {
        KnowledgeKind::ErrorPattern
    } else if t == "successful_strategy"@ {
        KnowledgeKind::SuccessfulStrategy
    } else if t == "performance_bottleneck"@ {
        KnowledgeKind::PerformanceBottleneck
    } else {
        KnowledgeKind::Other
    }
}

impl KnowledgeKind {
    /// The kind of a knowledge type.
    pub fn of(knowledge_type: &str) -> (k: KnowledgeKind)
        ensures
            k == knowledge_kind(knowledge_type@),
    {
        if str_eq(knowledge_type, "task_pattern") {
            KnowledgeKind::TaskPattern
        } else if str_eq(knowledge_type, "error_pattern") {
            KnowledgeKind::ErrorPattern
        } else if str_eq(knowledge_type, "successful_strategy") {
            KnowledgeKind::SuccessfulStrategy
        } else if str_eq(knowledge_type, "performance_bottleneck") {
            KnowledgeKind::PerformanceBottleneck
        } else {
            KnowledgeKind::Other
        }
    }

    /// Whether knowledge of this kind counts as an applied improvement.
    pub fn counts_as_improvement(&self) -> (b: bool)
        ensures
            b == (*self != KnowledgeKind::Other),
    {
        match self {
            KnowledgeKind::Other => false,
            _ => true,
        }
    }
}

/// Whether a strategy suits a task category: `enhanced` for coding and
/// analysis, `fast` for explanations and general tasks, `default` for all.
pub open spec fn strategy_suits(strategy: Seq<char>, category: Seq<char>) -> bool {
    (strategy == "enhanced"@ && (category == "coding"@ || category == "analysis"@)) || (strategy == "fast"@
        && (category == "explanation"@ || category == "general"@)) || strategy == "default"@
}

/// Whether `strategy` suits `category`.
pub fn is_strategy_suitable_for_category(strategy: &str, category: &str) -> (b: bool)
    ensures
        b == strategy_suits(strategy@, category@),
{
    (str_eq(strategy, "enhanced") && (str_eq(category, "coding") || str_eq(category, "analysis"))) || (
    str_eq(strategy, "fast") && (str_eq(category, "explanation") || str_eq(category, "general")))
        || str_eq(strategy, "default")
}

/// The role whose resources a proven strategy raises.
pub open spec fn strategy_role(strategy: Seq<char>) -> Seq<char> {
    if seq_contains(strategy, "coding"@) {
        "coder"@
    } else if seq_contains(strategy, "analysis"@) {
        "analyst"@
    } else {
        "researcher"@
    }
}

/// The role whose resources a proven strategy raises.
pub fn role_for_strategy(strategy: &str) -> (r: &'static str)
    ensures
        r@ == strategy_role(strategy@),
{
    if str_contains(strategy, "coding") {
        "coder"
    } else if str_contains(strategy, "analysis") {
        "analyst"
    } else {
        "researcher"
    }
}

/// A role profile: timeout, concurrency limit and reflection switch.
#[derive(Debug, Clone, Copy, PartialEq, Eq, Structural)]
pub struct RoleProfile {
    pub timeout_ms: u64,
    pub concurrency_limit: i64,
    pub enable_reflection: bool,
}

/// The role and profile a task category calls for.
pub open spec fn category_profile(category: Seq<char>) -> Option<(Seq<char>, RoleProfile)> {
    if category == "coding"@ {
        Some(("coder"@, RoleProfile { timeout_ms: 90_000, concurrency_limit: 3, enable_reflection: true }))
    } else if category == "analysis"@ {
        Some(("analyst"@, RoleProfile { timeout_ms: 120_000, concurrency_limit: 5, enable_reflection: true }))
    } else if category == "explanation"@ || category == "general"@ {
        Some(("drafter"@, RoleProfile { timeout_ms: 30_000, concurrency_limit: 4, enable_reflection: false }))
    } else {
        None
    }
}

/// The role and profile for a task category, if any.
pub fn role_profile_for_category(category: &str) -> (r: Option<(&'static str, RoleProfile)>)
    ensures
        match r {
            Some(p) => category_profile(category@) == Some((p.0@, p.1)),
            None => category_profile(category@) is None,
        },
{
    if str_eq(category, "coding") {
        Some(("coder", RoleProfile { timeout_ms: 90_000, concurrency_limit: 3, enable_reflection: true }))
    } else if str_eq(category, "analysis") {
        Some(("analyst", RoleProfile { timeout_ms: 120_000, concurrency_limit: 5, enable_reflection: true }))
    } else if str_eq(category, "explanation") || str_eq(category, "general") {
        Some(("drafter", RoleProfile { timeout_ms: 30_000, concurrency_limit: 4, enable_reflection: false }))
    } else {
        None
    }
}

/// What acting on one item of learned knowledge came to.
#[derive(Debug)]
pub enum KnowledgeOutcome {
    /// A task pattern, with the strategy that was boosted for it, if any.
    TaskPattern(Option<String>),
    /// An error pattern, with the configuration changes that prevent it.
    ErrorPattern(Vec<ConfigChange>),
    /// A successful strategy, with the strategy that was reinforced, if any.
    SuccessfulStrategy(Option<String>),
    /// A performance bottleneck, with the configuration changes for it.
    PerformanceBottleneck(Vec<ConfigChange>),
    /// Knowledge of another type: skipped.
    Other,
}

/// The naming tables of self-improvement. The knowledge types `task_pattern`,
/// `error_pattern`, `successful_strategy` and `performance_bottleneck` name
/// their kinds, and every other name is skipped. The `default` strategy suits
/// every category, `enhanced` suits coding and analysis, `fast` suits
/// explanations and general tasks, and no other pairing suits. A strategy
/// whose name mentions `coding` raises the coder, else one that mentions
/// `analysis` the analyst, else the researcher. Coding calls for the coder
/// with 90 s, 3 at a time and reflection; analysis for the analyst with
/// 120 s, 5 at a time and reflection; explanations and general tasks for the
/// drafter with 30 s, 4 at a time and no reflection; other categories for none.
pub proof fn improvement_tables(t: Seq<char>, strategy: Seq<char>, category: Seq<char>)
    ensures
        t == "task_pattern"@ ==> knowledge_kind(t) == KnowledgeKind::TaskPattern,
        t == "error_pattern"@ ==> knowledge_kind(t) == KnowledgeKind::ErrorPattern,
        t == "successful_strategy"@ ==> knowledge_kind(t) == KnowledgeKind::SuccessfulStrategy,
        t == "performance_bottleneck"@ ==> knowledge_kind(t) == KnowledgeKind::PerformanceBottleneck,
        knowledge_kind(t) == KnowledgeKind::Other <==> t != "task_pattern"@ && t != "error_pattern"@
            && t != "successful_strategy"@ && t != "performance_bottleneck"@,
        strategy == "default"@ ==> strategy_suits(strategy, category),
        strategy == "enhanced"@ ==> (strategy_suits(strategy, category) <==> (category == "coding"@
            || category == "analysis"@)),
        strategy == "fast"@ ==> (strategy_suits(strategy, category) <==> (category == "explanation"@
            || category == "general"@)),
        strategy != "default"@ && strategy != "enhanced"@ && strategy != "fast"@ ==> !strategy_suits(
            strategy,
            category,
        ),
        seq_contains(strategy, "coding"@) ==> strategy_role(strategy) == "coder"@,
        !seq_contains(strategy, "coding"@) && seq_contains(strategy, "analysis"@) ==> strategy_role(
            strategy,
        ) == "analyst"@,
        !seq_contains(strategy, "coding"@) && !seq_contains(strategy, "analysis"@) ==> strategy_role(
            strategy,
        ) == "researcher"@,
        category == "coding"@ ==> category_profile(category) == Some(
            ("coder"@, RoleProfile { timeout_ms: 90_000, concurrency_limit: 3, enable_reflection: true }),
        ),
        category == "analysis"@ ==> category_profile(category) == Some(
            ("analyst"@, RoleProfile { timeout_ms: 120_000, concurrency_limit: 5, enable_reflection: true }),
        ),
        category == "explanation"@ || category == "general"@ ==> category_profile(category) == Some(
            ("drafter"@, RoleProfile { timeout_ms: 30_000, concurrency_limit: 4, enable_reflection: false }),
        ),
        category != "coding"@ && category != "analysis"@ && category != "explanation"@ && category
            != "general"@ ==> category_profile(category) is None,
{
    reveal_strlit("task_pattern");
    reveal_strlit("error_pattern");
    reveal_strlit("successful_strategy");
    reveal_strlit("performance_bottleneck");
    reveal_strlit("default");
    reveal_strlit("enhanced");
    reveal_strlit("fast");
    reveal_strlit("coding");
    reveal_strlit("analysis");
    reveal_strlit("explanation");
    reveal_strlit("general");
    assert("task_pattern"@.len() != "error_pattern"@.len());
    assert("task_pattern"@.len() != "successful_strategy"@.len());
    assert("task_pattern"@.len() != "performance_bottleneck"@.len());
    assert("error_pattern"@.len() != "successful_strategy"@.len());
    assert("error_pattern"@.len() != "performance_bottleneck"@.len());
    assert("successful_strategy"@.len() != "performance_bottleneck"@.len());
    assert("default"@.len() != "enhanced"@.len());
    assert("default"@.len() != "fast"@.len());
    assert("enhanced"@.len() != "fast"@.len());
    assert("coding"@.len() != "analysis"@.len());
    assert("coding"@.len() != "explanation"@.len());
    assert("coding"@.len() != "general"@.len());
    assert("analysis"@.len() != "explanation"@.len());
    assert("analysis"@.len() != "general"@.len());
    assert("explanation"@.len() != "general"@.len());
}

/// The views of configuration changes.
pub open spec fn changes_view(v: Seq<ConfigChange>) -> Seq<ChangeView> {
    v.map_values(|c: ConfigChange| change_view(c))
}

/// A plan as (improvements, strategies optimized, expected improvements, changes).
pub type PlanView = (nat, nat, Seq<Seq<char>>, Seq<ChangeView>);

/// The note for error prevention that made `n` changes.
pub open spec fn prevention_note(n: nat) -> Seq<char> {
    "Error prevention applied: "@ + decimal(n) + " changes"@
}

/// The plan after one more outcome.
pub open spec fn plan_step(p: PlanView, o: KnowledgeOutcome) -> PlanView {
    match o {
        KnowledgeOutcome::TaskPattern(s) | KnowledgeOutcome::SuccessfulStrategy(s) => match s {
            Some(x) => (p.0 + 1, p.1 + 1, p.2.push(x@), p.3),
            None => (p.0 + 1, p.1, p.2, p.3),
        },
        KnowledgeOutcome::ErrorPattern(c) => (
            p.0 + 1,
            p.1,
            if c@.len() > 0 {
                p.2.push(prevention_note(c@.len()))
            } else {
                p.2
            },
            p.3 + changes_view(c@),
        ),
        KnowledgeOutcome::PerformanceBottleneck(c) => (p.0 + 1, p.1, p.2, p.3 + changes_view(c@)),
        KnowledgeOutcome::Other => p,
    }
}

/// The plan for a sequence of outcomes, in order.
pub open spec fn plan_of(outcomes: Seq<KnowledgeOutcome>) -> PlanView
    decreases outcomes.len(),
{
    if outcomes.len() == 0 {
        (0, 0, Seq::empty(), Seq::empty())
    } else {
        plan_step(plan_of(outcomes.drop_last()), outcomes.last())
    }
}

/// The batch of writes after writing `v` under `k`: a key already written
/// keeps its place and takes the new value; a new key goes last.
pub open spec fn with_write(b: Seq<(Seq<char>, Seq<char>)>, k: Seq<char>, v: Seq<char>) -> Seq<(Seq<char>, Seq<char>)>
    decreases b.len(),
{
    if b.len() == 0 {
        seq![(k, v)]
    } else if b[0].0 == k {
        b.update(0, (k, v))
    } else {
        seq![b[0]] + with_write(b.skip(1), k, v)
    }
}

/// The batch of writes the changes make, in order: one per key, with the
/// value of its last change.
pub open spec fn batch_of(changes: Seq<ChangeView>) -> Seq<(Seq<char>, Seq<char>)>
    decreases changes.len(),
{
    if changes.len() == 0 {
        Seq::empty()
    } else {
        with_write(batch_of(changes.drop_last()), changes.last().0, changes.last().2)
    }
}

/// The views of written pairs.
pub open spec fn writes_view(v: Seq<(String, String)>) -> Seq<(Seq<char>, Seq<char>)> {
    v.map_values(|w: (String, String)| (w.0@, w.1@))
}

proof fn lemma_with_write_at(b: Seq<(Seq<char>, Seq<char>)>, k: Seq<char>, v: Seq<char>, i: int)
    requires
        0 <= i <= b.len(),
        forall|j: int| 0 <= j < i ==> (#[trigger] b[j]).0 != k,
        i < b.len() ==> b[i].0 == k,
    ensures
        with_write(b, k, v) == if i < b.len() {
            b.update(i, (k, v))
        } else {
            b.push((k, v))
        },
    decreases b.len(),
{
    if b.len() > 0 && i > 0 {
        let t = b.skip(1);
        assert forall|j: int| 0 <= j < i - 1 implies (#[trigger] t[j]).0 != k by {
            assert(t[j] == b[j + 1]);
        }
        lemma_with_write_at(t, k, v, i - 1);
        if i < b.len() {
            assert(seq![b[0]] + t.update(i - 1, (k, v)) =~= b.update(i, (k, v)));
        } else {
            assert(seq![b[0]] + t.push((k, v)) =~= b.push((k, v)));
        }
    } else if b.len() == 0 {
        assert(seq![(k, v)] =~= b.push((k, v)));
    }
}

/// A copy of a string.
fn copy_string(s: &String) -> (r: String)
    ensures
        r@ == s@,
{
    string_of(chars_of(s.as_str()).as_slice())
}

/// A copy of a configuration change.
fn copy_change(c: &ConfigChange) -> (r: ConfigChange)
    ensures
        change_view(r) == change_view(*c),
{
    ConfigChange {
        key: copy_string(&c.key),
        old_value: match &c.old_value {
            Some(v) => Some(copy_string(v)),
            None => None,
        },
        new_value: copy_string(&c.new_value),
        reason: copy_string(&c.reason),
    }
}

/// The most configuration snapshots kept for rolling back.
pub const SNAPSHOTS_KEPT: usize = 20;

/// Whether a history of configuration snapshots of length `len` drops its
/// oldest snapshot: when it holds more than it keeps.
pub fn drops_oldest_snapshot(len: usize) -> (b: bool)
    ensures
        b == (len > SNAPSHOTS_KEPT),
{
    len > SNAPSHOTS_KEPT
}

/// What a round of optimization does once each item of knowledge was acted
/// on: the counts and notes it reports, the changes in order, and the batch
/// of writes to the configuration.
pub struct ImprovementPlan {
    pub improvements_count: usize,
    pub strategies_optimized: usize,
    pub expected_improvements: Vec<String>,
    pub changes: Vec<ConfigChange>,
    pub batch: Vec<(String, String)>,
}

/// The plan of a round of optimization over the outcomes of its items.
pub fn improvement_plan(outcomes: &Vec<KnowledgeOutcome>) -> (r: ImprovementPlan)
    ensures
        r.improvements_count == plan_of(outcomes@).0,
        r.strategies_optimized == plan_of(outcomes@).1,
        crate::query::strs(r.expected_improvements@) == plan_of(outcomes@).2,
        changes_view(r.changes@) == plan_of(outcomes@).3,
        writes_view(r.batch@) == batch_of(plan_of(outcomes@).3),
{
    let mut improvements_count: usize = 0;
    let mut strategies_optimized: usize = 0;
    let mut expected: Vec<String> = Vec::new();
    let mut changes: Vec<ConfigChange> = Vec::new();
    let mut i: usize = 0;
    while i < outcomes.len()
        invariant
            i <= outcomes@.len(),
            improvements_count <= i,
            strategies_optimized <= i,
            (improvements_count as nat, strategies_optimized as nat, crate::query::strs(expected@), changes_view(changes@))
                == plan_of(outcomes@.take(i as int)),
        decreases outcomes.len() - i,
    {
        assert(outcomes@.take(i + 1).drop_last() =~= outcomes@.take(i as int));
        let ghost before = changes_view(changes@);
        let ghost notes = crate::query::strs(expected@);
        match &outcomes[i] {
            KnowledgeOutcome::TaskPattern(s) | KnowledgeOutcome::SuccessfulStrategy(s) => {
                improvements_count = improvements_count + 1;
                if let Some(x) = s {
                    strategies_optimized = strategies_optimized + 1;
                    expected.push(copy_string(x));
                    assert(crate::query::strs(expected@) =~= notes.push(x@));
                }
            },
            KnowledgeOutcome::ErrorPattern(c) | KnowledgeOutcome::PerformanceBottleneck(c) => {
                improvements_count = improvements_count + 1;
                let n = c.len();
                let mut j: usize = 0;
                while j < n
                    invariant
                        j <= n,
                        n == c@.len(),
                        changes_view(changes@) == before + changes_view(c@).take(j as int),
                    decreases n - j,
                {
                    let ghost prev = changes_view(changes@);
                    changes.push(copy_change(&c[j]));
                    assert(changes_view(changes@) =~= prev.push(change_view(c@[j as int])));
                    assert(changes_view(c@).take(j + 1) =~= changes_view(c@).take(j as int).push(change_view(c@[j as int])));
                    j += 1;
                }
                assert(changes_view(c@).take(n as int) =~= changes_view(c@));
                if n > 0 {
                    if let KnowledgeOutcome::ErrorPattern(_) = &outcomes[i] {
                        let mut note = String::new();
                        note.append("Error prevention applied: ");
                        crate::logic::push_decimal(&mut note, n);
                        note.append(" changes");
                        proof {
                            reveal_strlit("Error prevention applied: ");
                            reveal_strlit(" changes");
                        }
                        assert(note@ =~= prevention_note(n as nat));
                        expected.push(note);
                        assert(crate::query::strs(expected@) =~= notes.push(prevention_note(n as nat)));
                    }
                }
            },
            KnowledgeOutcome::Other => {},
        }
        i += 1;
    }
    assert(outcomes@.take(outcomes@.len() as int) =~= outcomes@);
    let ghost all = changes_view(changes@);
    let mut batch: Vec<(String, String)> = Vec::new();
    let mut k: usize = 0;
    while k < changes.len()
        invariant
            k <= changes@.len(),
            all == changes_view(changes@),
            writes_view(batch@) == batch_of(all.take(k as int)),
        decreases changes.len() - k,
    {
        assert(all.take(k + 1).drop_last() =~= all.take(k as int));
        let ghost b = writes_view(batch@);
        let key = &changes[k].key;
        let mut p: usize = 0;
        while p < batch.len()
            invariant
                p <= batch@.len(),
                b == writes_view(batch@),
                forall|j: int| 0 <= j < p ==> (#[trigger] b[j]).0 != key@,
            ensures
                p <= batch@.len(),
                forall|j: int| 0 <= j < p ==> (#[trigger] b[j]).0 != key@,
                p < batch@.len() ==> b[p as int].0 == key@,
            decreases batch.len() - p,
        {
            if str_eq(batch[p].0.as_str(), key.as_str()) {
                break;
            }
            p += 1;
        }
        assert(all[k as int].0 == key@ && all[k as int].2 == changes@[k as int].new_value@);
        proof {
            lemma_with_write_at(b, all[k as int].0, all[k as int].2, p as int);
        }
        let value = copy_string(&changes[k].new_value);
        if p < batch.len() {
            let kept = copy_string(key);
            batch.set(p, (kept, value));
            assert(writes_view(batch@) =~= b.update(p as int, (all[k as int].0, all[k as int].2)));
        } else {
            batch.push((copy_string(key), value));
            assert(writes_view(batch@) =~= b.push((all[k as int].0, all[k as int].2)));
        }
        k += 1;
    }
    assert(all.take(all.len() as int) =~= all);
    ImprovementPlan {
        improvements_count,
        strategies_optimized,
        expected_improvements: expected,
        changes,
        batch,
    }
}

/// What one round of optimization did.
#[derive(Debug, Clone)]
pub struct OptimizationResult {
    pub improvements_count: usize,
    pub strategies_optimized: usize,
    pub expected_improvements: Vec<String>,
    pub config_changes_applied: Vec<ConfigChange>,
    pub rollback_version: u64,
}

} // verus!
