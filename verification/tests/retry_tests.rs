//! The backoff policy evaluator and the retry driver, exercised with a
//! recording sleeper and counting operations.

use playlist_import::retry::{
    backoff_delay, retry_decision, retry_with_backoff, RetryConfig, RetryDecision, RetryOperation,
    Sleeper,
};
use playlist_import::spotify::{
    classify_api_status, classify_auth_status, is_retryable, parse_retry_after, SpotifyError,
};

struct RecordingSleeper {
    sleeps_ms: Vec<u64>,
}

impl Sleeper for RecordingSleeper {
    fn sleep_ms(&mut self, duration_ms: u64) {
        self.sleeps_ms.push(duration_ms);
    }
}

fn recording_sleeper() -> RecordingSleeper {
    RecordingSleeper { sleeps_ms: Vec::new() }
}

/// Fails `failures` times with errors produced by `error`, then succeeds
/// with `value`.
struct FlakyOp<T: Clone> {
    calls: u32,
    failures: u32,
    error: fn(u32) -> SpotifyError,
    value: T,
}

impl<T: Clone> RetryOperation<T> for FlakyOp<T> {
    fn attempt(&mut self) -> Result<T, SpotifyError> {
        let n = self.calls;
        self.calls += 1;
        if n < self.failures {
            Err((self.error)(n))
        } else {
            Ok(self.value.clone())
        }
    }
}

fn test_config() -> RetryConfig {
    RetryConfig { max_retries: 3, base_delay_ms: 10, max_delay_ms: 100 }
}

#[test]
fn test_succeeds_first_try() {
    let mut op = FlakyOp { calls: 0, failures: 0, error: |_| SpotifyError::Http("down".to_string()), value: 42 };
    let mut sleeper = recording_sleeper();
    let (result, _) = retry_with_backoff(&test_config(), &mut op, &mut sleeper);
    assert_eq!(result.unwrap(), 42);
    assert_eq!(op.calls, 1);
}

#[test]
fn test_fails_then_succeeds() {
    let mut op = FlakyOp {
        calls: 0,
        failures: 1,
        error: |_| SpotifyError::Api { status: 500, message: "server error".to_string() },
        value: "ok",
    };
    let mut sleeper = recording_sleeper();
    let (result, _) = retry_with_backoff(&test_config(), &mut op, &mut sleeper);
    assert_eq!(result.unwrap(), "ok");
    assert_eq!(op.calls, 2);
}

#[test]
fn test_rate_limited_respects_retry_after() {
    let config = RetryConfig { max_retries: 3, base_delay_ms: 10, max_delay_ms: 100 };
    let mut op = FlakyOp {
        calls: 0,
        failures: 1,
        error: |_| SpotifyError::RateLimited { retry_after_secs: 5 },
        value: "done",
    };
    let mut sleeper = recording_sleeper();
    let (result, _) = retry_with_backoff(&config, &mut op, &mut sleeper);
    assert_eq!(result.unwrap(), "done");
    assert_eq!(op.calls, 2);
    // the wait is the server-directed five seconds, not the backoff base
    assert_eq!(sleeper.sleeps_ms, vec![5000]);
}

#[test]
fn test_rate_limited_gives_up_after_max_retries() {
    let config = RetryConfig { max_retries: 3, base_delay_ms: 10, max_delay_ms: 100 };
    let mut op: FlakyOp<()> = FlakyOp {
        calls: 0,
        failures: u32::MAX,
        error: |_| SpotifyError::RateLimited { retry_after_secs: 1 },
        value: (),
    };
    let mut sleeper = recording_sleeper();
    let (result, _) = retry_with_backoff(&config, &mut op, &mut sleeper);
    assert!(result.is_err());
    // 1 initial + 3 retries = 4 calls
    assert_eq!(op.calls, 4);
    assert!(matches!(result.unwrap_err(), SpotifyError::RateLimited { .. }));
}

#[test]
fn test_server_error_exponential_backoff() {
    let config = RetryConfig { max_retries: 2, base_delay_ms: 100, max_delay_ms: 5000 };
    let mut op: FlakyOp<()> = FlakyOp {
        calls: 0,
        failures: u32::MAX,
        error: |_| SpotifyError::Api { status: 503, message: "unavailable".to_string() },
        value: (),
    };
    let mut sleeper = recording_sleeper();
    let (result, _) = retry_with_backoff(&config, &mut op, &mut sleeper);
    assert!(result.is_err());
    // 1 initial + 2 retries = 3 calls
    assert_eq!(op.calls, 3);
    // waits double from the base: 100 * 2^0, 100 * 2^1
    assert_eq!(sleeper.sleeps_ms, vec![100, 200]);
}

#[test]
fn test_non_retryable_error_returns_immediately() {
    let mut op: FlakyOp<()> = FlakyOp {
        calls: 0,
        failures: u32::MAX,
        error: |_| SpotifyError::NotFound("gone".to_string()),
        value: (),
    };
    let mut sleeper = recording_sleeper();
    let (result, _) = retry_with_backoff(&test_config(), &mut op, &mut sleeper);
    assert!(result.is_err());
    assert!(matches!(result.unwrap_err(), SpotifyError::NotFound(_)));
    assert_eq!(op.calls, 1);
}

#[test]
fn test_backoff_delay_exact_values() {
    let config = RetryConfig { max_retries: 5, base_delay_ms: 1000, max_delay_ms: 10_000 };
    assert_eq!(backoff_delay(&config, 0), 1000);
    assert_eq!(backoff_delay(&config, 1), 1000);
    assert_eq!(backoff_delay(&config, 2), 2000);
    assert_eq!(backoff_delay(&config, 3), 4000);
    assert_eq!(backoff_delay(&config, 4), 8000);
    // min(1000 * 2^4, 10000) caps at the ceiling
    assert_eq!(backoff_delay(&config, 5), 10_000);
    assert_eq!(backoff_delay(&config, 64), 10_000);
}

#[test]
fn test_backoff_delay_saturates() {
    let config = RetryConfig { max_retries: 200, base_delay_ms: u64::MAX / 2, max_delay_ms: u64::MAX };
    assert_eq!(backoff_delay(&config, 100), u64::MAX);
    let zero = RetryConfig { max_retries: 3, base_delay_ms: 0, max_delay_ms: 10 };
    assert_eq!(backoff_delay(&zero, 7), 0);
}

#[test]
fn test_retry_decision_per_variant() {
    let config = RetryConfig { max_retries: 3, base_delay_ms: 100, max_delay_ms: 5000 };
    // server-directed wait, converted to milliseconds
    assert_eq!(
        retry_decision(&SpotifyError::RateLimited { retry_after_secs: 7 }, 0, &config),
        RetryDecision::RetryAfterMs(7000)
    );
    // the rate-limited wait does not depend on the attempt count
    assert_eq!(
        retry_decision(&SpotifyError::RateLimited { retry_after_secs: 7 }, 2, &config),
        RetryDecision::RetryAfterMs(7000)
    );
    // transient statuses take the exponential backoff of the next attempt
    assert_eq!(
        retry_decision(&SpotifyError::Api { status: 500, message: String::new() }, 0, &config),
        RetryDecision::RetryAfterMs(100)
    );
    assert_eq!(
        retry_decision(&SpotifyError::Http("reset".to_string()), 1, &config),
        RetryDecision::RetryAfterMs(200)
    );
    // fatal classifications give up at once
    assert_eq!(
        retry_decision(&SpotifyError::AuthFailed(String::new()), 0, &config),
        RetryDecision::GiveUp
    );
    assert_eq!(
        retry_decision(&SpotifyError::Api { status: 504, message: String::new() }, 0, &config),
        RetryDecision::GiveUp
    );
    // an exhausted budget gives up whatever the failure was
    assert_eq!(
        retry_decision(&SpotifyError::RateLimited { retry_after_secs: 7 }, 3, &config),
        RetryDecision::GiveUp
    );
}

#[test]
fn test_is_retryable_classification() {
    assert!(is_retryable(&SpotifyError::Http("x".to_string())));
    assert!(is_retryable(&SpotifyError::RateLimited { retry_after_secs: 1 }));
    assert!(is_retryable(&SpotifyError::Api { status: 500, message: String::new() }));
    assert!(is_retryable(&SpotifyError::Api { status: 503, message: String::new() }));
    assert!(!is_retryable(&SpotifyError::Api { status: 504, message: String::new() }));
    assert!(!is_retryable(&SpotifyError::AuthFailed(String::new())));
    assert!(!is_retryable(&SpotifyError::NotFound(String::new())));
    assert!(!is_retryable(&SpotifyError::AccessDenied(String::new())));
}

#[test]
fn test_parse_retry_after_header() {
    assert_eq!(parse_retry_after(None), 1);
    assert_eq!(parse_retry_after(Some(&"10".to_string())), 10);
    assert_eq!(parse_retry_after(Some(&"0".to_string())), 0);
    assert_eq!(parse_retry_after(Some(&"".to_string())), 1);
    assert_eq!(parse_retry_after(Some(&"soon".to_string())), 1);
    assert_eq!(parse_retry_after(Some(&"-3".to_string())), 1);
    assert_eq!(parse_retry_after(Some(&"99999999999999999999999".to_string())), 1);
}

#[test]
fn test_classify_api_status_per_variant() {
    assert!(classify_api_status(200, 1, "body".to_string()).is_none());
    assert!(matches!(
        classify_api_status(401, 1, "denied".to_string()),
        Some(SpotifyError::AuthFailed(m)) if m == "denied"
    ));
    assert!(matches!(
        classify_api_status(403, 1, "no".to_string()),
        Some(SpotifyError::AccessDenied(m)) if m == "no"
    ));
    assert!(matches!(
        classify_api_status(404, 1, "missing".to_string()),
        Some(SpotifyError::NotFound(m)) if m == "missing"
    ));
    assert!(matches!(
        classify_api_status(429, 42, String::new()),
        Some(SpotifyError::RateLimited { retry_after_secs: 42 })
    ));
    assert!(matches!(
        classify_api_status(503, 1, "oops".to_string()),
        Some(SpotifyError::Api { status: 503, message: m }) if m == "oops"
    ));
    assert!(matches!(
        classify_api_status(201, 1, "odd".to_string()),
        Some(SpotifyError::Api { status: 201, .. })
    ));
}

#[test]
fn test_classify_auth_status_per_variant() {
    assert!(classify_auth_status(200, String::new()).is_none());
    assert!(matches!(
        classify_auth_status(401, "bad client".to_string()),
        Some(SpotifyError::AuthFailed(m)) if m == "bad client"
    ));
    assert!(matches!(
        classify_auth_status(500, "boom".to_string()),
        Some(SpotifyError::Api { status: 500, message: m }) if m == "boom"
    ));
}
