//! Per-model circuit breaker of the fallback client, and its error type.
use vstd::prelude::*;
use vstd::string::StringExecFns;

verus! {

broadcast use vstd::string::group_string_axioms;

/// LLM error types.
#[derive(Debug, Clone)]
pub enum LlmError {
    ConfigError(String),
    ApiError(String),
    Timeout,
    AllModelsFailed,
    NotImplemented(String),
}

/// The message of an error.
pub open spec fn llm_error_message(e: LlmError) -> Seq<char> {
    match e {
        LlmError::ConfigError(m) => "Config error: "@ + m@,
        LlmError::ApiError(m) => "API error: "@ + m@,
        LlmError::Timeout => "Request timeout"@,
        LlmError::AllModelsFailed => "All models failed"@,
        LlmError::NotImplemented(m) => "Not implemented: "@ + m@,
    }
}

impl LlmError {
    /// The message of this error.
    pub fn to_string(&self) -> (s: String)
        ensures
            s@ == llm_error_message(*self),
    {
        match self {
            LlmError::ConfigError(m) => {
                let mut s = "Config error: ".to_owned();
                s.append(m.as_str());
                s
            },
            LlmError::ApiError(m) => {
                let mut s = "API error: ".to_owned();
                s.append(m.as_str());
                s
            },
            LlmError::Timeout => "Request timeout".to_owned(),
            LlmError::AllModelsFailed => "All models failed".to_owned(),
            LlmError::NotImplemented(m) => {
                let mut s = "Not implemented: ".to_owned();
                s.append(m.as_str());
                s
            },
        }
    }
}

/// Circuit breaker states.
#[derive(Debug, Clone, Copy, PartialEq, Eq, Structural)]
pub enum CircuitState {
    /// Normal operation.
    Closed,
    /// Failing: requests are rejected.
    Open,
    /// Testing whether the model recovered.
    HalfOpen,
}

/// The breaker state and request counters of one model.
#[derive(Debug, Clone, Copy)]
pub struct CircuitBreaker {
    pub state: CircuitState,
    pub consecutive_failures: u32,
    /// Whether a failure was ever recorded.
    pub has_failed: bool,
    pub total_requests: u64,
    pub successful_requests: u64,
    pub failed_requests: u64,
}

impl CircuitBreaker {
    /// Every request is counted as a success or a failure.
    pub open spec fn balanced(self) -> bool {
        self.total_requests == self.successful_requests + self.failed_requests
    }

    /// A closed breaker with no requests recorded.
    pub fn new() -> (b: Self)
        ensures
            b.state == CircuitState::Closed,
            b.consecutive_failures == 0,
            !b.has_failed,
            b.total_requests == 0,
            b.successful_requests == 0,
            b.failed_requests == 0,
            b.balanced(),
    {
        CircuitBreaker {
            state: CircuitState::Closed,
            consecutive_failures: 0,
            has_failed: false,
            total_requests: 0,
            successful_requests: 0,
            failed_requests: 0,
        }
    }

    /// Whether the model may take a request. An open breaker whose reset
    /// window has passed since the last failure moves to half-open and lets
    /// the request through; one without a recorded failure stays open.
    pub fn check_available(&mut self, reset_window_passed: bool) -> (available: bool)
        ensures
            available == match old(self).state {
                CircuitState::Closed => true,
                CircuitState::HalfOpen => true,
                CircuitState::Open => old(self).has_failed && reset_window_passed,
            },
            final(self).state == if old(self).state == CircuitState::Open && available {
                CircuitState::HalfOpen
            } else {
                old(self).state
            },
            *final(self) == (CircuitBreaker { state: final(self).state, ..*old(self) }),
    {
        match self.state {
            CircuitState::Closed => true,
            CircuitState::HalfOpen => true,
            CircuitState::Open => {
                if self.has_failed && reset_window_passed {
                    self.state = CircuitState::HalfOpen;
                    true
                } else {
                    false
                }
            },
        }
    }

    /// Records a successful request: the failure streak ends and a half-open
    /// breaker closes.
    pub fn record_success(&mut self)
        requires
            old(self).total_requests < u64::MAX,
            old(self).successful_requests < u64::MAX,
        ensures
            *final(self) == success_step(*old(self)),
            old(self).balanced() ==> final(self).balanced(),
    {
        self.consecutive_failures = 0;
        self.total_requests = self.total_requests + 1;
        self.successful_requests = self.successful_requests + 1;
        if self.state == CircuitState::HalfOpen {
            self.state = CircuitState::Closed;
        }
    }

    /// Records a failed request; the breaker opens when enabled and the
    /// failure streak reaches the threshold.
    pub fn record_failure(&mut self, enabled: bool, threshold: u32)
        requires
            old(self).consecutive_failures < u32::MAX,
            old(self).total_requests < u64::MAX,
            old(self).failed_requests < u64::MAX,
        ensures
            *final(self) == failure_step(*old(self), enabled, threshold),
            old(self).balanced() ==> final(self).balanced(),
    {
        self.consecutive_failures = self.consecutive_failures + 1;
        self.has_failed = true;
        self.total_requests = self.total_requests + 1;
        self.failed_requests = self.failed_requests + 1;
        if enabled && self.consecutive_failures >= threshold {
            self.state = CircuitState::Open;
        }
    }

    /// Force reset: the breaker closes and the failure streak is cleared.
    pub fn reset(&mut self)
        ensures
            *final(self) == (CircuitBreaker {
                state: CircuitState::Closed,
                consecutive_failures: 0,
                ..*old(self)
            }),
    {
        self.state = CircuitState::Closed;
        self.consecutive_failures = 0;
    }
}

impl Default for CircuitBreaker {
    fn default() -> (b: Self)
        ensures
            b.state == CircuitState::Closed,
            b.consecutive_failures == 0,
            !b.has_failed,
            b.total_requests == 0,
            b.successful_requests == 0,
            b.failed_requests == 0,
    {
        CircuitBreaker::new()
    }
}

/// The breaker after a recorded success.
pub open spec fn success_step(b: CircuitBreaker) -> CircuitBreaker {
    CircuitBreaker {
        state: if b.state == CircuitState::HalfOpen {
            CircuitState::Closed
        } else {
            b.state
        },
        consecutive_failures: 0,
        total_requests: (b.total_requests + 1) as u64,
        successful_requests: (b.successful_requests + 1) as u64,
        ..b
    }
}

/// The breaker after a recorded failure.
pub open spec fn failure_step(b: CircuitBreaker, enabled: bool, threshold: u32) -> CircuitBreaker {
    let streak = (b.consecutive_failures + 1) as u32;
    CircuitBreaker {
        state: if enabled && streak >= threshold {
            CircuitState::Open
        } else {
            b.state
        },
        consecutive_failures: streak,
        has_failed: true,
        total_requests: (b.total_requests + 1) as u64,
        failed_requests: (b.failed_requests + 1) as u64,
        ..b
    }
}

/// The breaker after `n` failures in a row.
pub open spec fn after_failures(b: CircuitBreaker, n: nat, enabled: bool, threshold: u32) -> CircuitBreaker
    decreases n,
{
    if n == 0 {
        b
    } else {
        failure_step(after_failures(b, (n - 1) as nat, enabled, threshold), enabled, threshold)
    }
}

/// An enabled breaker is open after at least `threshold` failures in a row
/// (and at least one), whatever state it started in.
pub proof fn breaker_opens_after_threshold_failures(
    b: CircuitBreaker,
    n: nat,
    enabled: bool,
    threshold: u32,
)
    requires
        enabled,
        n >= 1,
        n >= threshold,
        b.consecutive_failures + n <= u32::MAX,
        b.total_requests + n <= u64::MAX,
        b.failed_requests + n <= u64::MAX,
    ensures
        after_failures(b, n, enabled, threshold).state == CircuitState::Open,
        after_failures(b, n, enabled, threshold).consecutive_failures == b.consecutive_failures + n,
{
    lemma_failure_streak(b, n, enabled, threshold);
}

proof fn lemma_failure_streak(b: CircuitBreaker, n: nat, enabled: bool, threshold: u32)
    requires
        b.consecutive_failures + n <= u32::MAX,
        b.total_requests + n <= u64::MAX,
        b.failed_requests + n <= u64::MAX,
    ensures
        after_failures(b, n, enabled, threshold).consecutive_failures == b.consecutive_failures + n,
        after_failures(b, n, enabled, threshold).total_requests == b.total_requests + n,
        after_failures(b, n, enabled, threshold).failed_requests == b.failed_requests + n,
    decreases n,
{
    if n > 0 {
        lemma_failure_streak(b, (n - 1) as nat, enabled, threshold);
    }
}

/// A success closes a half-open breaker and ends the failure streak, so a
/// breaker that recovers is closed until failures open it again.
pub proof fn success_closes_half_open_breaker(b: CircuitBreaker)
    requires
        b.state == CircuitState::HalfOpen,
    ensures
        success_step(b).state == CircuitState::Closed,
        success_step(b).consecutive_failures == 0,
{
}

/// Where a fallback over a chain of models stands: the model at hand, and
/// how many models there are.
#[derive(Debug, Clone, Copy, PartialEq, Eq, Structural)]
pub struct FallbackState {
    pub current: usize,
    pub models: usize,
}

/// What happened with the model at hand.
#[derive(Debug, Clone, Copy, PartialEq, Eq, Structural)]
pub enum FallbackEvent {
    /// The request arrived.
    Start,
    /// Its breaker lets requests through.
    Available,
    /// Its breaker is open.
    Unavailable,
    /// It failed or timed out.
    Failed,
    /// It answered.
    Answered,
}

/// What the fallback does next.
#[derive(Debug, Clone, Copy, PartialEq, Eq, Structural)]
pub enum FallbackAction {
    /// Ask whether this model's breaker lets requests through.
    Check(usize),
    /// Send the request to this model.
    Try(usize),
    /// Return the answer.
    Done,
    /// Every model was skipped or failed.
    AllFailed,
}

/// Moving on to model `i`: check it, or give up past the last one.
pub open spec fn fallback_at(s: FallbackState, i: nat) -> (FallbackState, FallbackAction) {
    if i < s.models {
        (FallbackState { current: i as usize, ..s }, FallbackAction::Check(i as usize))
    } else {
        (s, FallbackAction::AllFailed)
    }
}

/// The next state and action of the fallback: the models are tried in
/// order, skipping those whose breaker is open, until one answers.
pub open spec fn fallback_next(s: FallbackState, e: FallbackEvent) -> (FallbackState, FallbackAction) {
    match e {
        FallbackEvent::Start => fallback_at(s, 0),
        FallbackEvent::Available => (s, FallbackAction::Try(s.current)),
        FallbackEvent::Unavailable | FallbackEvent::Failed => fallback_at(s, (s.current + 1) as nat),
        FallbackEvent::Answered => (s, FallbackAction::Done),
    }
}

/// The fallback walks the chain in order and never leaves it: it starts by
/// checking the first model; an available model is tried; a skipped or
/// failed model hands over to the next one, and past the last model every
/// model has failed; an answer ends the walk. Every model it checks or tries
/// is one of the chain's, and the chain itself never changes.
pub proof fn fallback_walks_the_chain_in_order(s: FallbackState, e: FallbackEvent)
    ensures
        fallback_next(s, e).0.models == s.models,
        e == FallbackEvent::Start && s.models > 0 ==> fallback_next(s, e).1 == FallbackAction::Check(0),
        e == FallbackEvent::Start && s.models == 0 ==> fallback_next(s, e).1 == FallbackAction::AllFailed,
        e == FallbackEvent::Available ==> fallback_next(s, e) == (s, FallbackAction::Try(s.current)),
        (e == FallbackEvent::Unavailable || e == FallbackEvent::Failed) && s.current + 1 < s.models
            ==> fallback_next(s, e).0.current == s.current + 1 && fallback_next(s, e).1 == FallbackAction::Check(
            (s.current + 1) as usize,
        ),
        (e == FallbackEvent::Unavailable || e == FallbackEvent::Failed) && s.current + 1 >= s.models
            ==> fallback_next(s, e).1 == FallbackAction::AllFailed,
        e == FallbackEvent::Answered ==> fallback_next(s, e).1 == FallbackAction::Done,
        s.current < s.models ==> (fallback_next(s, e).1 matches FallbackAction::Check(i) ==> i < s.models),
        s.current < s.models ==> (fallback_next(s, e).1 matches FallbackAction::Try(i) ==> i < s.models),
        s.current < s.models ==> fallback_next(s, e).0.current < s.models,
{
}

/// One decision of the fallback over a chain of models.
pub fn fallback_step(s: FallbackState, e: FallbackEvent) -> (r: (FallbackState, FallbackAction))
    ensures
        r == fallback_next(s, e),
{
    match e {
        FallbackEvent::Start => {
            if 0 < s.models {
                (FallbackState { current: 0, ..s }, FallbackAction::Check(0))
            } else {
                (s, FallbackAction::AllFailed)
            }
        },
        FallbackEvent::Available => (s, FallbackAction::Try(s.current)),
        FallbackEvent::Unavailable | FallbackEvent::Failed => {
            if s.current < s.models && s.current + 1 < s.models {
                (FallbackState { current: s.current + 1, ..s }, FallbackAction::Check(s.current + 1))
            } else {
                (s, FallbackAction::AllFailed)
            }
        },
        FallbackEvent::Answered => (s, FallbackAction::Done),
    }
}

} // verus!
