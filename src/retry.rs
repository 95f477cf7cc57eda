//! Retry policy of the model client: error classes and exponential backoff.
use vstd::prelude::*;

verus! {

/// Class of a failed request to the model server.
#[derive(Debug, Clone, Copy, PartialEq, Eq, Structural)]
pub enum RetryableError {
    /// The server could not be reached.
    Connection,
    Timeout,
    /// The server answered with a 5xx status.
    ServerError,
    NonRetryable,
}

/// A non-streaming reply of the model server.
#[derive(Debug, Clone)]
pub struct GenerateResponse {
    pub model: String,
    pub response: String,
    pub done: bool,
}

impl RetryableError {
    /// Classifies a failed request from what the HTTP client reports of it:
    /// a connect failure, a timeout, the HTTP status if one came back, and
    /// whether the failure happened while sending.
    pub fn classify(is_connect: bool, is_timeout: bool, status: Option<u16>, is_request: bool) -> (r: RetryableError)
        ensures
            r == (if is_connect {
                RetryableError::Connection
            } else if is_timeout {
                RetryableError::Timeout
            } else if status is Some {
                if 500 <= status->0 < 600 {
                    RetryableError::ServerError
                } else {
                    RetryableError::NonRetryable
                }
            } else if is_request {
                RetryableError::Connection
            } else {
                RetryableError::NonRetryable
            }),
    {
        if is_connect {
            RetryableError::Connection
        } else if is_timeout {
            RetryableError::Timeout
        } else if let Some(code) = status {
            if 500 <= code && code < 600 {
                RetryableError::ServerError
            } else {
                RetryableError::NonRetryable
            }
        } else if is_request {
            RetryableError::Connection
        } else {
            RetryableError::NonRetryable
        }
    }

    /// Connection failures, timeouts and server errors are worth a retry.
    pub fn is_retryable(&self) -> (r: bool)
        ensures
            r == (*self != RetryableError::NonRetryable),
    {
        match self {
            RetryableError::NonRetryable => false,
            _ => true,
        }
    }

    /// A short description of the class.
    pub fn description(&self) -> (r: &'static str)
        ensures
            r@ == (match *self {
                RetryableError::Connection => "connection error"@,
                RetryableError::Timeout => "timeout"@,
                RetryableError::ServerError => "server error"@,
                RetryableError::NonRetryable => "request error"@,
            }),
    {
        match self {
            RetryableError::Connection => "connection error",
            RetryableError::Timeout => "timeout",
            RetryableError::ServerError => "server error",
            RetryableError::NonRetryable => "request error",
        }
    }
}

/// Retry settings. The multiplier is a whole factor (2 doubles the wait).
#[derive(Debug, Clone, Copy)]
pub struct RetryConfig {
    pub max_retries: u32,
    pub initial_backoff_ms: u64,
    pub multiplier: u64,
    pub max_backoff_ms: u64,
}

pub open spec fn pow_nat(b: nat, e: nat) -> nat
    decreases e,
{
    if e == 0 { 1 } else { b * pow_nat(b, (e - 1) as nat) }
}

/// The wait before retry number `attempt` (from 0): the initial wait, times
/// the multiplier per attempt, never above the maximum.
pub open spec fn backoff(c: RetryConfig, attempt: nat) -> nat {
    let raw = (c.initial_backoff_ms as nat) * pow_nat(c.multiplier as nat, attempt);
    if raw <= c.max_backoff_ms as nat { raw } else { c.max_backoff_ms as nat }
}

/// What to do after a failed attempt.
#[derive(Debug, Clone, Copy, PartialEq, Eq, Structural)]
pub enum RetryStep {
    /// Wait this many milliseconds, then try again.
    Retry { delay_ms: u64 },
    /// Report the error; `attempts` requests were made.
    GiveUp { attempts: u32 },
}

impl RetryConfig {
    /// Three retries from one second, doubling up to thirty seconds.
    pub fn new() -> (r: RetryConfig)
        ensures
            r.max_retries == 3,
            r.initial_backoff_ms == 1000,
            r.multiplier == 2,
            r.max_backoff_ms == 30000,
    {
        RetryConfig { max_retries: 3, initial_backoff_ms: 1000, multiplier: 2, max_backoff_ms: 30000 }
    }

    /// The wait before retry number `attempt`.
    pub fn calculate_backoff(&self, attempt: u32) -> (r: u64)
        ensures
            r == backoff(*self, attempt as nat),
    {
        let mut b: u64 = if self.initial_backoff_ms <= self.max_backoff_ms {
            self.initial_backoff_ms
        } else {
            self.max_backoff_ms
        };
        let mut i: u32 = 0;
        assert(pow_nat(self.multiplier as nat, 0) == 1);
        while i < attempt
            invariant
                i <= attempt,
                b == backoff(*self, i as nat),
                b <= self.max_backoff_ms,
            decreases attempt - i,
        {
            let x = b as u128;
            let m = self.multiplier as u128;
            assert(x * m <= (u64::MAX as int) * (u64::MAX as int)) by (nonlinear_arith)
                requires
                    x <= u64::MAX,
                    m <= u64::MAX,
            ;
            let next: u128 = x * m;
            b = if next <= self.max_backoff_ms as u128 {
                next as u64
            } else {
                self.max_backoff_ms
            };
            proof {
                lemma_backoff_step(*self, i as nat);
            }
            i += 1;
        }
        b
    }

    /// The decision after attempt number `attempt` (from 0) failed with
    /// `error`: wait and retry while retries are left and the error is worth
    /// one, give up otherwise.
    pub fn next_step(&self, attempt: u32, error: RetryableError) -> (r: RetryStep)
        requires
            attempt < u32::MAX,
        ensures
            r == (if error != RetryableError::NonRetryable && attempt < self.max_retries {
                RetryStep::Retry { delay_ms: backoff(*self, attempt as nat) as u64 }
            } else {
                RetryStep::GiveUp { attempts: (attempt + 1) as u32 }
            }),
    {
        if error.is_retryable() && attempt < self.max_retries {
            RetryStep::Retry { delay_ms: self.calculate_backoff(attempt) }
        } else {
            RetryStep::GiveUp { attempts: attempt + 1 }
        }
    }
}

/// One more attempt multiplies the capped wait and caps it again.
proof fn lemma_backoff_step(c: RetryConfig, a: nat)
    ensures
        backoff(c, a + 1) == (if backoff(c, a) * (c.multiplier as nat) <= c.max_backoff_ms as nat {
            backoff(c, a) * (c.multiplier as nat)
        } else {
            c.max_backoff_ms as nat
        }),
{
    let m = c.multiplier as nat;
    let x = (c.initial_backoff_ms as nat) * pow_nat(m, a);
    let mx = c.max_backoff_ms as nat;
    assert(pow_nat(m, a + 1) == m * pow_nat(m, a));
    assert((c.initial_backoff_ms as nat) * pow_nat(m, a + 1) == x * m) by (nonlinear_arith)
        requires
            pow_nat(m, a + 1) == m * pow_nat(m, a),
            x == (c.initial_backoff_ms as nat) * pow_nat(m, a),
    ;
    if x > mx {
        if m == 0 {
            assert(x * m == 0 && mx * m == 0) by (nonlinear_arith)
                requires
                    m == 0,
            ;
        } else {
            assert(x * m >= x) by (nonlinear_arith)
                requires
                    m >= 1,
            ;
            assert(mx * m >= mx) by (nonlinear_arith)
                requires
                    m >= 1,
            ;
        }
    }
}

/// With a multiplier of at least one, the wait never shrinks from one
/// attempt to the next, never exceeds the maximum, and once it reaches the
/// maximum stays there.
pub proof fn backoff_monotone_and_saturating(c: RetryConfig, a: nat)
    requires
        c.multiplier >= 1,
    ensures
        backoff(c, a) <= backoff(c, a + 1),
        backoff(c, a) <= c.max_backoff_ms,
        backoff(c, a) == c.max_backoff_ms ==> backoff(c, a + 1) == c.max_backoff_ms,
{
    lemma_backoff_step(c, a);
    let b = backoff(c, a);
    let m = c.multiplier as nat;
    assert(b * m >= b) by (nonlinear_arith)
        requires
            m >= 1,
    ;
}

/// With a multiplier of at least one, a later attempt never waits less.
pub proof fn backoff_non_decreasing(c: RetryConfig, a: nat, b: nat)
    requires
        c.multiplier >= 1,
        a <= b,
    ensures
        backoff(c, a) <= backoff(c, b),
    decreases b - a,
{
    if a < b {
        backoff_non_decreasing(c, a, (b - 1) as nat);
        backoff_monotone_and_saturating(c, (b - 1) as nat);
    }
}

} // verus!
