use vstd::prelude::*;
use crate::errors::LookupError;

verus! {

pub open spec fn is_digit(c: char) -> bool {
    '0' <= c && c <= '9'
}

/// The value of a string of decimal digits.
pub open spec fn decimal_value(s: Seq<char>) -> nat
    decreases s.len(),
{
    if s.len() == 0 {
        0
    } else {
        decimal_value(s.drop_last()) * 10 + (s.last() as nat - '0' as nat) as nat
    }
}

/// A retry-after value in whole seconds: one or more decimal digits whose
/// value fits in 64 bits.
pub open spec fn retry_after_seconds(s: Seq<char>) -> Option<u64> {
    if s.len() > 0 && (forall|i: int| 0 <= i < s.len() ==> is_digit(#[trigger] s[i]))
        && decimal_value(s) <= u64::MAX {
        Some(decimal_value(s) as u64)
    } else {
        None
    }
}

proof fn lemma_value_grows(s: Seq<char>, i: int, j: int)
    requires
        0 <= i <= j <= s.len(),
        forall|k: int| 0 <= k < s.len() ==> is_digit(#[trigger] s[k]),
    ensures
        decimal_value(s.subrange(0, i)) <= decimal_value(s.subrange(0, j)),
    decreases j - i,
{
    if i < j {
        lemma_value_grows(s, i, j - 1);
        assert(s.subrange(0, j).drop_last() =~= s.subrange(0, j - 1));
    }
}

/// Reads a retry-after header value as whole seconds.
pub fn parse_retry_after(text: &str) -> (r: Option<u64>)
    ensures
        r == retry_after_seconds(text@),
{
    let n = text.unicode_len();
    if n == 0 {
        return None;
    }
    let mut value: u64 = 0;
    let mut i: usize = 0;
    while i < n
        invariant
            n == text@.len(),
            i <= n,
            forall|k: int| 0 <= k < i ==> is_digit(#[trigger] text@[k]),
            value as nat == decimal_value(text@.subrange(0, i as int)),
        decreases n - i,
    {
        let c = text.get_char(i);
        if !('0' <= c && c <= '9') {
            return None;
        }
        let d = (c as u32 - '0' as u32) as u64;
        proof {
            assert(text@.subrange(0, i as int + 1).drop_last() =~= text@.subrange(0, i as int));
        }
        match value.checked_mul(10) {
            Some(m) => match m.checked_add(d) {
                Some(v) => {
                    value = v;
                },
                None => {
                    proof {
                        if forall|k: int| 0 <= k < n ==> is_digit(#[trigger] text@[k]) {
                            lemma_value_grows(text@, i as int + 1, n as int);
                            assert(text@.subrange(0, n as int) =~= text@);
                        }
                    }
                    return None;
                },
            },
            None => {
                proof {
                    if forall|k: int| 0 <= k < n ==> is_digit(#[trigger] text@[k]) {
                        lemma_value_grows(text@, i as int + 1, n as int);
                        assert(text@.subrange(0, n as int) =~= text@);
                    }
                }
                return None;
            },
        }
        i = i + 1;
    }
    assert(text@.subrange(0, n as int) =~= text@);
    Some(value)
}

/// What the transport handed back for one attempt.
pub enum HttpOutcome {
    /// A connection-level failure, after the transport's own retries.
    Transport(String),
    /// A response: its status, its retry-after header if present, and its body.
    Response { status: u16, retry_after: Option<String>, body: String },
}

/// What to do after an attempt.
#[derive(Debug, Clone, PartialEq)]
pub enum RetryStep {
    /// Suspend for this many seconds, then attempt again if the budget allows.
    Wait(u64),
    /// The response succeeded: decode its body and select a candidate.
    Accept,
    /// Terminal failure.
    Fail(LookupError),
}

pub open spec fn is_success(status: u16) -> bool {
    200 <= status <= 299
}

/// The seconds to wait that a response directs, when it is a rate-limit
/// response with a readable retry-after header.
pub open spec fn directed_wait(o: HttpOutcome) -> Option<u64> {
    match o {
        HttpOutcome::Response { status, retry_after: Some(h), .. } =>
            if status == 429 { retry_after_seconds(h@) } else { None },
        _ => None,
    }
}

/// The step that follows an outcome.
pub open spec fn step_for(o: HttpOutcome) -> RetryStep {
    match o {
        HttpOutcome::Transport(m) => RetryStep::Fail(LookupError::Transport(m)),
        HttpOutcome::Response { status, body, .. } =>
            if is_success(status) {
                RetryStep::Accept
            } else if let Some(secs) = directed_wait(o) {
                RetryStep::Wait(secs)
            } else {
                RetryStep::Fail(LookupError::ProviderError { status, body })
            },
    }
}

/// The rate-limit retry loop: counts the waits that responses directed, up
/// to a fixed budget. Transport-level retries are not counted here.
#[derive(Debug, Clone, Copy, PartialEq)]
pub struct RateLimitRetry {
    pub attempts: u32,
    pub max_attempts: u32,
}

/// The loop's state after an outcome: one more attempt used on a directed wait.
pub open spec fn after_outcome(s: RateLimitRetry, o: HttpOutcome) -> RateLimitRetry {
    if step_for(o) is Wait {
        RateLimitRetry { attempts: (s.attempts + 1) as u32, ..s }
    } else {
        s
    }
}

/// The error that stops the loop before an attempt, if the budget is spent.
pub open spec fn budget_error(s: RateLimitRetry) -> Option<LookupError> {
    if s.attempts >= s.max_attempts {
        Some(LookupError::MaxRetriesExceeded)
    } else {
        None
    }
}

impl RateLimitRetry {
    pub fn new(max_attempts: u32) -> (r: Self)
        ensures
            r.attempts == 0,
            r.max_attempts == max_attempts,
    {
        RateLimitRetry { attempts: 0, max_attempts }
    }

    /// Checked before each attempt: fails once every attempt has been used.
    pub fn check_budget(&self) -> (r: Option<LookupError>)
        ensures
            r == budget_error(*self),
    {
        if self.attempts >= self.max_attempts {
            Some(LookupError::MaxRetriesExceeded)
        } else {
            None
        }
    }

    /// Decides what follows an attempt whose budget check passed.
    pub fn on_outcome(&mut self, outcome: HttpOutcome) -> (r: RetryStep)
        requires
            old(self).attempts < old(self).max_attempts,
        ensures
            r == step_for(outcome),
            *final(self) == after_outcome(*old(self), outcome),
    {
        let ghost o = outcome;
        match outcome {
            HttpOutcome::Transport(m) => RetryStep::Fail(LookupError::Transport(m)),
            HttpOutcome::Response { status, retry_after, body } => {
                if 200 <= status && status <= 299 {
                    RetryStep::Accept
                } else {
                    let wait: Option<u64> = if status == 429 {
                        match &retry_after {
                            Some(h) => parse_retry_after(h.as_str()),
                            None => None,
                        }
                    } else {
                        None
                    };
                    assert(wait == directed_wait(o));
                    match wait {
                        Some(secs) => {
                            self.attempts = self.attempts + 1;
                            RetryStep::Wait(secs)
                        },
                        None => RetryStep::Fail(LookupError::ProviderError { status, body }),
                    }
                }
            },
        }
    }
}

/// The loop's state after `n` outcomes that each directed a wait.
pub open spec fn after_waits(s: RateLimitRetry, o: HttpOutcome, n: nat) -> RateLimitRetry
    decreases n,
{
    if n == 0 {
        s
    } else {
        after_outcome(after_waits(s, o, (n - 1) as nat), o)
    }
}

/// A provider that keeps answering with a rate-limit response that directs a
/// wait: each of the first `max` attempts is allowed and ends in that wait, and
/// the check before the next attempt fails with `MaxRetriesExceeded`.
pub proof fn lemma_rate_limit_exhausts(max: u32, o: HttpOutcome, secs: u64)
    requires
        directed_wait(o) == Some(secs),
        o matches HttpOutcome::Response { status, .. } && status == 429,
    ensures
        forall|k: nat| k < max ==> {
            &&& budget_error(#[trigger] after_waits(RateLimitRetry::new_spec(max), o, k)) is None
            &&& step_for(o) == RetryStep::Wait(secs)
        },
        budget_error(after_waits(RateLimitRetry::new_spec(max), o, max as nat))
            == Some(LookupError::MaxRetriesExceeded),
{
    lemma_waits_count(max, o, max as nat);
    assert forall|k: nat| k < max implies {
        &&& budget_error(#[trigger] after_waits(RateLimitRetry::new_spec(max), o, k)) is None
        &&& step_for(o) == RetryStep::Wait(secs)
    } by {
        lemma_waits_count(max, o, k);
    }
}

proof fn lemma_waits_count(max: u32, o: HttpOutcome, n: nat)
    requires
        directed_wait(o) is Some,
        o matches HttpOutcome::Response { status, .. } && status == 429,
        n <= max,
    ensures
        after_waits(RateLimitRetry::new_spec(max), o, n) == (RateLimitRetry { attempts: n as u32, max_attempts: max }),
    decreases n,
{
    if n > 0 {
        lemma_waits_count(max, o, (n - 1) as nat);
    }
}

impl RateLimitRetry {
    pub open spec fn new_spec(max_attempts: u32) -> RateLimitRetry {
        RateLimitRetry { attempts: 0, max_attempts }
    }
}

} // verus!
