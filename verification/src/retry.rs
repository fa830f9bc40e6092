//! Retry policy for LLM calls: which errors are worth retrying, and the
//! exponential backoff window before each retry.
use vstd::prelude::*;
use vstd::string::StringExecFns;
use crate::text::{lowercase, seq_contains, str_contains, to_lower};

verus! {

broadcast use vstd::string::group_string_axioms;

/// Configuration of exponential backoff. Delays are in milliseconds.
#[derive(Clone, Debug)]
pub struct RetryConfig {
    /// Maximum number of *retries* after the initial attempt.
    pub max_retries: u32,
    /// Base delay used for the first backoff window, in milliseconds.
    pub base_delay: u64,
    /// Upper bound for any single backoff window, in milliseconds.
    pub max_delay: u64,
}

impl Default for RetryConfig {
    fn default() -> (r: Self)
        ensures
            r.max_retries == 3,
            r.base_delay == 250,
            r.max_delay == 8000,
    {
        RetryConfig { max_retries: 3, base_delay: 250, max_delay: 8000 }
    }
}

/// 2 to the power `n`.
pub open spec fn pow2(n: nat) -> nat
    decreases n,
{
    if n == 0 {
        1
    } else {
        2 * pow2((n - 1) as nat)
    }
}

/// `x + y`, or `u64::MAX` where that overflows.
pub open spec fn sat_add(x: int, y: int) -> int {
    if x + y > u64::MAX {
        u64::MAX as int
    } else {
        x + y
    }
}

/// `x * y`, or `u64::MAX` where that overflows.
pub open spec fn sat_mul(x: int, y: int) -> int {
    if x * y > u64::MAX {
        u64::MAX as int
    } else {
        x * y
    }
}

/// The backoff window before retry number `attempt` (zero-based):
/// `base * 2^min(attempt, 16)` saturated and capped at `max`, plus a
/// deterministic jitter of `(base / 2) * (attempt % 3) / 3`, the whole window
/// capped at `max` again, since `max` bounds every single window.
pub open spec fn backoff_ms(base: u64, max: u64, attempt: u32) -> int {
    let k: nat = if attempt <= 16 { attempt as nat } else { 16 };
    let raw = sat_mul(base as int, pow2(k) as int);
    let capped = if raw <= max { raw } else { max as int };
    let jitter = sat_mul((base / 2) as int, (attempt % 3) as int) / 3;
    let window = sat_add(capped, jitter);
    if window <= max {
        window
    } else {
        max as int
    }
}

impl RetryConfig {
    /// Backoff window for a given (zero-based) retry attempt: `base * 2^attempt`,
    /// capped at `max_delay`. A small deterministic jitter is added to avoid
    /// thundering-herd alignment across concurrent callers; the window with
    /// its jitter stays within `max_delay`.
    pub fn delay_for(&self, attempt: u32) -> (ms: u64)
        ensures
            ms == backoff_ms(self.base_delay, self.max_delay, attempt),
            ms <= self.max_delay,
    {
        let k: u32 = if attempt <= 16 { attempt } else { 16 };
        let mut factor: u64 = 1;
        let mut i: u32 = 0;
        while i < k
            invariant
                i <= k <= 16,
                factor == pow2(i as nat),
                factor <= 65536,
            decreases k - i,
        {
            proof {
                lemma_pow2_bound(i as nat);
            }
            factor = factor * 2;
            i += 1;
        }
        proof {
            lemma_pow2_bound(k as nat);
        }
        let base_ms = self.base_delay;
        let raw = match base_ms.checked_mul(factor) {
            Some(v) => v,
            None => u64::MAX,
        };
        let capped = if raw <= self.max_delay { raw } else { self.max_delay };
        let half = base_ms / 2;
        let spread = (attempt % 3) as u64;
        assert(half * spread <= u64::MAX) by (nonlinear_arith)
            requires
                half <= u64::MAX / 2,
                spread <= 2,
        ;
        let jitter = (half * spread) / 3;
        let window = capped.saturating_add(jitter);
        if window <= self.max_delay {
            window
        } else {
            self.max_delay
        }
    }

    /// What to do after attempt number `attempt` (zero-based) failed: wait the
    /// returned number of milliseconds and try again, or give up (`None`) when
    /// the retries are used up or the error is not worth retrying.
    pub fn retry_delay(&self, attempt: u32, retryable: bool) -> (r: Option<u64>)
        ensures
            r == (if attempt >= self.max_retries || !retryable {
                None
            } else {
                Some(backoff_ms(self.base_delay, self.max_delay, attempt) as u64)
            }),
    {
        if attempt >= self.max_retries {
            return None;
        }
        if !retryable {
            return None;
        }
        Some(self.delay_for(attempt))
    }
}

proof fn lemma_pow2_bound(n: nat)
    requires
        n <= 16,
    ensures
        1 <= pow2(n) <= 65536,
        n < 16 ==> pow2(n) <= 32768,
{
    lemma_pow2_mono(n, 16);
    if n < 16 {
        lemma_pow2_mono(n, 15);
    }
    assert(pow2(15) == 32768 && pow2(16) == 65536) by {
        reveal_with_fuel(pow2, 17);
    }
    lemma_pow2_mono(0, n);
}

proof fn lemma_pow2_mono(a: nat, b: nat)
    requires
        a <= b,
    ensures
        pow2(a) <= pow2(b),
    decreases b,
{
    if a < b {
        lemma_pow2_mono(a, (b - 1) as nat);
    }
}

/// Error texts that mark a deterministic client error: retrying cannot help.
pub open spec fn non_retryable_markers() -> Seq<Seq<char>> {
    seq![
        "unauthorized"@,
        "forbidden"@,
        "bad request"@,
        "not found"@,
        "unprocessable"@,
        "invalid api key"@,
        "incorrect api key"@,
        "invalid_api_key"@,
        "authentication"@,
        "permission denied"@,
    ]
}

/// Deterministic client errors are never retried: an error text that
/// mentions `unauthorized`, `forbidden`, `bad request`, `not found`,
/// `unprocessable`, `invalid api key`, `incorrect api key`, `invalid_api_key`,
/// `authentication` or `permission denied` is not worth retrying, and every
/// other error text (a timeout, a reset connection, a 5xx or a rate limit) is.
pub proof fn client_errors_are_not_retried(t: Seq<char>)
    ensures
        (forall|k: int|
            0 <= k < non_retryable_markers().len() ==> !seq_contains(
                t,
                #[trigger] non_retryable_markers()[k],
            )) <==> !(seq_contains(t, "unauthorized"@) || seq_contains(t, "forbidden"@)
                || seq_contains(t, "bad request"@) || seq_contains(t, "not found"@)
                || seq_contains(t, "unprocessable"@) || seq_contains(t, "invalid api key"@)
                || seq_contains(t, "incorrect api key"@) || seq_contains(t, "invalid_api_key"@)
                || seq_contains(t, "authentication"@) || seq_contains(t, "permission denied"@)),
{
    assert(non_retryable_markers()[0] == "unauthorized"@);
    assert(non_retryable_markers()[1] == "forbidden"@);
    assert(non_retryable_markers()[2] == "bad request"@);
    assert(non_retryable_markers()[3] == "not found"@);
    assert(non_retryable_markers()[4] == "unprocessable"@);
    assert(non_retryable_markers()[5] == "invalid api key"@);
    assert(non_retryable_markers()[6] == "incorrect api key"@);
    assert(non_retryable_markers()[7] == "invalid_api_key"@);
    assert(non_retryable_markers()[8] == "authentication"@);
    assert(non_retryable_markers()[9] == "permission denied"@);
}

/// The backoff windows: the first is the base delay, and each later window
/// doubles it (`base * 2^attempt`, the exponent stopping at 16) plus a jitter
/// of `(base / 2) * (attempt % 3) / 3`; no window exceeds `max`, and none is
/// shorter than the base delay unless `max` is.
pub proof fn backoff_doubles_within_the_cap(base: u64, max: u64, attempt: u32)
    ensures
        backoff_ms(base, max, 0) == (if base <= max { base as int } else { max as int }),
        backoff_ms(base, max, attempt) <= max,
        backoff_ms(base, max, attempt) >= (if base <= max { base as int } else { max as int }),
        attempt <= 16 && base * pow2(attempt as nat) + (base / 2) * (attempt % 3) / 3 <= max
            ==> backoff_ms(base, max, attempt) == base * pow2(attempt as nat) + (base / 2) * (
        attempt % 3) / 3,
        base * 2 + (base / 2) / 3 <= max ==> backoff_ms(base, max, 1) == base * 2 + (base / 2) / 3,
        base * 8 <= max ==> backoff_ms(base, max, 3) == base * 8,
{
    let k: nat = if attempt <= 16 { attempt as nat } else { 16 };
    lemma_pow2_mono(0, k);
    assert(pow2(0) == 1);
    assert(base * pow2(k) >= base) by (nonlinear_arith)
        requires
            pow2(k) >= 1,
    ;
    assert(pow2(1) == 2 && pow2(3) == 8) by {
        reveal_with_fuel(pow2, 4);
    }
    assert(0 <= (base / 2) * (attempt % 3) <= u64::MAX) by (nonlinear_arith)
        requires
            base / 2 <= u64::MAX / 2,
            attempt % 3 <= 2,
    ;
    if attempt <= 16 {
        assert(k == attempt);
    }
}

/// The messages joined with single spaces.
pub open spec fn join_spaced(msgs: Seq<Seq<char>>) -> Seq<char>
    decreases msgs.len(),
{
    if msgs.len() == 0 {
        Seq::empty()
    } else if msgs.len() == 1 {
        msgs[0]
    } else {
        join_spaced(msgs.drop_last()) + seq![' '] + msgs.last()
    }
}

/// Whether an error whose cause chain reads `msgs` is worth retrying: its
/// lowercased, space-joined text holds none of the non-retryable markers.
pub open spec fn chain_is_retryable(msgs: Seq<Seq<char>>) -> bool {
    forall|k: int|
        0 <= k < non_retryable_markers().len() ==> !seq_contains(
            lowercase(join_spaced(msgs)),
            #[trigger] non_retryable_markers()[k],
        )
}

#[verifier::external_type_specification]
#[verifier::external_body]
pub struct ExAnyhowError(anyhow::Error);

/// The messages of an error's cause chain, outermost first (`anyhow::Error::chain`,
/// each cause rendered with `Display`).
pub uninterp spec fn error_chain(err: anyhow::Error) -> Seq<Seq<char>>;

/// Calls `anyhow::Error::chain` and renders each cause with `to_string`.
#[verifier::external_body]
fn chain_messages(err: &anyhow::Error) -> (r: Vec<String>)
    ensures
        r@.map_values(|s: String| s@) == error_chain(*err),
{
    err.chain().map(|cause| cause.to_string()).collect()
}

/// Joins the messages with single spaces.
fn join_messages(msgs: &Vec<String>) -> (r: String)
    ensures
        r@ == join_spaced(msgs@.map_values(|s: String| s@)),
{
    let ghost views = msgs@.map_values(|s: String| s@);
    let mut out = String::new();
    let mut i: usize = 0;
    while i < msgs.len()
        invariant
            i <= msgs@.len(),
            views == msgs@.map_values(|s: String| s@),
            out@ == join_spaced(views.take(i as int)),
        decreases msgs.len() - i,
    {
        assert(views.take(i + 1).drop_last() =~= views.take(i as int));
        if i > 0 {
            crate::text::push_char(&mut out, ' ');
        }
        out.append(msgs[i].as_str());
        i += 1;
    }
    assert(views.take(msgs@.len() as int) =~= views);
    out
}

/// Whether lowercased error text is free of every non-retryable marker.
pub fn text_is_retryable(lowered: &str) -> (r: bool)
    ensures
        r == forall|k: int|
            0 <= k < non_retryable_markers().len() ==> !seq_contains(
                lowered@,
                #[trigger] non_retryable_markers()[k],
            ),
{
    let markers: Vec<&str> = vec![
        "unauthorized",
        "forbidden",
        "bad request",
        "not found",
        "unprocessable",
        "invalid api key",
        "incorrect api key",
        "invalid_api_key",
        "authentication",
        "permission denied",
    ];
    assert(markers@.map_values(|m: &str| m@) =~= non_retryable_markers());
    let mut i: usize = 0;
    while i < markers.len()
        invariant
            i <= markers@.len(),
            markers@.map_values(|m: &str| m@) == non_retryable_markers(),
            forall|k: int| 0 <= k < i ==> !seq_contains(lowered@, #[trigger] non_retryable_markers()[k]),
        decreases markers.len() - i,
    {
        assert(non_retryable_markers()[i as int] == markers@[i as int]@);
        if str_contains(lowered, markers[i]) {
            return false;
        }
        i += 1;
    }
    true
}

/// Classify whether an LLM error is worth retrying.
///
/// Transient failures (timeouts, connection resets, 5xx, 429 rate limits) are
/// retryable. Deterministic client errors (401/403/400/404/422, invalid API
/// keys) are not: the whole cause chain is inspected, lowercased, for the
/// non-retryable markers.
pub fn is_retryable_error(err: &anyhow::Error) -> (r: bool)
    ensures
        r == chain_is_retryable(error_chain(*err)),
{
    let msgs = chain_messages(err);
    let joined = join_messages(&msgs);
    let lowered = to_lower(joined.as_str());
    text_is_retryable(lowered.as_str())
}

} // verus!
