//! The backoff policy evaluator: a pure decision function from a classified
//! failure, the attempt counter and the policy to either a wait or giving up,
//! plus the driver loop that applies it around a retryable operation.

use vstd::prelude::*;

verus! {

use crate::spotify::{SpotifyError, spec_is_retryable};

/// The retry policy: how many retries beyond the first call, the base of the
/// exponential backoff and its ceiling, in milliseconds.
#[derive(Debug, Clone)]
pub struct RetryConfig {
    pub max_retries: u32,
    pub base_delay_ms: u64,
    pub max_delay_ms: u64,
}

impl Default for RetryConfig {
    /// Three retries, one second base delay, ten seconds ceiling.
    fn default() -> (c: Self)
        ensures
            c.max_retries == 3,
            c.base_delay_ms == 1000,
            c.max_delay_ms == 10000,
    {
        RetryConfig { max_retries: 3, base_delay_ms: 1000, max_delay_ms: 10_000 }
    }
}

pub open spec fn pow2(e: nat) -> nat
    decreases e,
{
    if e == 0 {
        1
    } else {
        2 * pow2((e - 1) as nat)
    }
}

pub proof fn lemma_pow2_pos(e: nat)
    ensures
        pow2(e) >= 1,
    decreases e,
{
    if e > 0 {
        lemma_pow2_pos((e - 1) as nat);
    }
}

pub open spec fn min64(a: u64, b: u64) -> u64 {
    if a < b {
        a
    } else {
        b
    }
}

/// A product clamped into `u64`.
pub open spec fn cap_u64(n: nat) -> u64 {
    if n > u64::MAX {
        u64::MAX
    } else {
        n as u64
    }
}

/// The wait before retry number `attempt` (counted from 1) of a transient
/// failure: `base * 2^(attempt - 1)`, saturating, and never above the
/// ceiling.
pub open spec fn spec_backoff_delay(base: u64, max_delay: u64, attempt: u32) -> u64 {
    let e: nat = if attempt == 0 {
        0
    } else {
        (attempt - 1) as nat
    };
    min64(cap_u64(base as nat * pow2(e)), max_delay)
}

/// Exponential backoff delay in milliseconds, exactly `spec_backoff_delay`.
pub fn backoff_delay(config: &RetryConfig, attempt: u32) -> (d: u64)
    ensures
        d == spec_backoff_delay(config.base_delay_ms, config.max_delay_ms, attempt),
{
    let base = config.base_delay_ms;
    let max_delay = config.max_delay_ms;
    let exp: u32 = if attempt == 0 {
        0
    } else {
        attempt - 1
    };
    if base == 0 {
        return 0;
    }
    let mut delay: u64 = base;
    let mut i: u32 = 0;
    while i < exp && delay < max_delay
        invariant
            0 <= i <= exp,
            1 <= delay,
            min64(cap_u64(delay as nat * pow2((exp - i) as nat)), max_delay) == spec_backoff_delay(
                base,
                max_delay,
                attempt,
            ),
        decreases exp - i,
    {
        let ghost k: nat = (exp - i) as nat;
        proof {
            lemma_pow2_pos((k - 1) as nat);
        }
        if delay > u64::MAX / 2 {
            proof {
                assert(delay as nat * pow2(k) > u64::MAX as nat && u64::MAX as nat * pow2(
                    (k - 1) as nat,
                ) >= u64::MAX as nat) by (nonlinear_arith)
                    requires
                        pow2(k) == 2 * pow2((k - 1) as nat),
                        pow2((k - 1) as nat) >= 1,
                        delay > u64::MAX / 2,
                        k >= 1,
                ;
            }
            delay = u64::MAX;
        } else {
            proof {
                assert(delay as nat * pow2(k) == (delay * 2) as nat * pow2((k - 1) as nat))
                    by (nonlinear_arith)
                    requires
                        pow2(k) == 2 * pow2((k - 1) as nat),
                        k >= 1,
                ;
            }
            delay = delay * 2;
        }
        i = i + 1;
    }
    proof {
        if i < exp {
            // exited because the ceiling was reached: the full product can
            // only be larger, so both sides clamp to the ceiling
            lemma_pow2_pos((exp - i) as nat);
            assert(delay as nat * pow2((exp - i) as nat) >= delay as nat) by (nonlinear_arith)
                requires
                    pow2((exp - i) as nat) >= 1,
                    delay >= 0,
            ;
        } else {
            assert(pow2((exp - i) as nat) == 1);
        }
    }
    if delay > max_delay {
        max_delay
    } else {
        delay
    }
}

/// What the evaluator tells the driver: wait this long and call again, or
/// stop and surface the last error.
#[derive(Debug, Clone, PartialEq, Eq, Structural)]
pub enum RetryDecision {
    RetryAfterMs(u64),
    GiveUp,
}

/// Milliseconds of a second count, saturating.
pub open spec fn secs_to_ms(secs: u64) -> u64 {
    cap_u64(secs as nat * 1000)
}

/// The backoff policy, as a pure function of the classified failure, the
/// number of retries already made and the policy:
/// an exhausted budget or a fatal failure gives up; rate limiting waits
/// exactly the server-directed time; transient server errors and transport
/// errors wait the exponential backoff of the next attempt.
pub open spec fn spec_retry_decision(e: SpotifyError, attempt: u32, cfg: RetryConfig) -> RetryDecision {
    if attempt >= cfg.max_retries {
        RetryDecision::GiveUp
    } else {
        match e {
            SpotifyError::RateLimited { retry_after_secs } => RetryDecision::RetryAfterMs(
                secs_to_ms(retry_after_secs),
            ),
            SpotifyError::Api { status, .. } => if 500 <= status <= 503 {
                RetryDecision::RetryAfterMs(
                    spec_backoff_delay(cfg.base_delay_ms, cfg.max_delay_ms, (attempt + 1) as u32),
                )
            } else {
                RetryDecision::GiveUp
            },
            SpotifyError::Http(_) => RetryDecision::RetryAfterMs(
                spec_backoff_delay(cfg.base_delay_ms, cfg.max_delay_ms, (attempt + 1) as u32),
            ),
            _ => RetryDecision::GiveUp,
        }
    }
}

/// The backoff policy evaluator, exactly `spec_retry_decision`.
pub fn retry_decision(e: &SpotifyError, attempt: u32, config: &RetryConfig) -> (d: RetryDecision)
    ensures
        d == spec_retry_decision(*e, attempt, *config),
{
    if attempt >= config.max_retries {
        return RetryDecision::GiveUp;
    }
    match e {
        SpotifyError::RateLimited { retry_after_secs } => {
            let ms = match retry_after_secs.checked_mul(1000) {
                Some(v) => v,
                None => u64::MAX,
            };
            RetryDecision::RetryAfterMs(ms)
        },
        SpotifyError::Api { status, .. } => {
            if 500 <= *status && *status <= 503 {
                RetryDecision::RetryAfterMs(backoff_delay(config, attempt + 1))
            } else {
                RetryDecision::GiveUp
            }
        },
        SpotifyError::Http(_) => RetryDecision::RetryAfterMs(backoff_delay(config, attempt + 1)),
        _ => RetryDecision::GiveUp,
    }
}

/// Law: a rate-limited outcome waits exactly the server-directed time.
pub proof fn lemma_rate_limited_wait_exact(secs: u64, attempt: u32, cfg: RetryConfig)
    requires
        attempt < cfg.max_retries,
        secs as nat * 1000 <= u64::MAX as nat,
    ensures
        spec_retry_decision(SpotifyError::RateLimited { retry_after_secs: secs }, attempt, cfg)
            == RetryDecision::RetryAfterMs((secs as nat * 1000) as u64),
{
}

/// Law: the wait after rate limiting does not depend on the attempt count.
pub proof fn lemma_rate_limited_wait_attempt_independent(
    secs: u64,
    a1: u32,
    a2: u32,
    cfg: RetryConfig,
)
    requires
        a1 < cfg.max_retries,
        a2 < cfg.max_retries,
    ensures
        spec_retry_decision(SpotifyError::RateLimited { retry_after_secs: secs }, a1, cfg)
            == spec_retry_decision(SpotifyError::RateLimited { retry_after_secs: secs }, a2, cfg),
{
}

/// Law: a transient server error or transport error waits
/// `min(base * 2^(attempt - 1), max_delay)`, the attempt counted from 1.
pub proof fn lemma_transient_wait_exponential(e: SpotifyError, attempt: u32, cfg: RetryConfig)
    requires
        attempt < cfg.max_retries,
        spec_is_retryable(e),
        !(e is RateLimited),
        cfg.base_delay_ms as nat * pow2(attempt as nat) <= u64::MAX as nat,
    ensures
        spec_retry_decision(e, attempt, cfg) == RetryDecision::RetryAfterMs(
            min64((cfg.base_delay_ms as nat * pow2(attempt as nat)) as u64, cfg.max_delay_ms),
        ),
{
}

/// Law: with a budget of three retries, a steadily failing retryable
/// operation is retried at attempts 0, 1 and 2 and given up at attempt 3 —
/// four invocations in all.
pub proof fn lemma_four_calls_with_three_retries(e: SpotifyError, cfg: RetryConfig)
    requires
        cfg.max_retries == 3,
        spec_is_retryable(e),
    ensures
        forall|a: u32| a < 3 ==> (#[trigger] spec_retry_decision(e, a, cfg)) is RetryAfterMs,
        spec_retry_decision(e, 3, cfg) is GiveUp,
{
}

/// One attempt of an operation that may be retried.
pub trait RetryOperation<T> {
    fn attempt(&mut self) -> Result<T, SpotifyError>;
}

/// The suspension mechanism between retries, injected so the decision logic
/// stays free of any clock.
pub trait Sleeper {
    fn sleep_ms(&mut self, duration_ms: u64);
}

/// Drive an operation through the backoff policy: call, and on a retryable
/// failure wait the decided time and call again, up to the policy's budget.
/// Every wait and the give-up point follow `spec_retry_decision`.
///
/// Besides the result the driver returns the number of invocations it made,
/// as a ghost value: a surfaced error is one the policy gave up on at the
/// last invocation, so a retryable error can only surface once the whole
/// budget is spent — `max_retries + 1` invocations — while a fatal one
/// surfaces at whatever invocation first produced it.
pub fn retry_with_backoff<T, Op: RetryOperation<T>, S: Sleeper>(
    config: &RetryConfig,
    operation: &mut Op,
    sleeper: &mut S,
) -> (r: (Result<T, SpotifyError>, Ghost<nat>))
    ensures
        1 <= r.1@ <= config.max_retries as nat + 1,
        r.0 matches Err(e) ==> spec_retry_decision(e, (r.1@ - 1) as u32, *config) is GiveUp,
        (r.0 matches Err(e) && spec_is_retryable(e)) ==> r.1@ == config.max_retries as nat + 1,
{
    let mut attempt: u32 = 0;
    loop
        invariant
            attempt <= config.max_retries,
        decreases config.max_retries - attempt,
    {
        let outcome = operation.attempt();
        match outcome {
            Ok(v) => {
                return (Ok(v), Ghost(attempt as nat + 1));
            },
            Err(e) => {
                match retry_decision(&e, attempt, config) {
                    RetryDecision::GiveUp => {
                        return (Err(e), Ghost(attempt as nat + 1));
                    },
                    RetryDecision::RetryAfterMs(ms) => {
                        sleeper.sleep_ms(ms);
                        attempt = attempt + 1;
                    },
                }
            },
        }
    }
}

} // verus!
