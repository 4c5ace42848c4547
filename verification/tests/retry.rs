use std::time::Duration as StdDuration;

use composefs_ops::duration::Duration;
use composefs_ops::retry::{
    random_unit, retry_message, unit_of_bits, RetryAction, RetryLoop, RetryPolicy,
    UNIT_DENOMINATOR,
};
use composefs_ops::transient::{Cause, ProxyError};

const JITTER_FRACTION: f64 = 0.2;

fn policy(max_retries: u32, initial_delay: Duration, max_delay: Duration) -> RetryPolicy {
    let mut policy = RetryPolicy::with_max_retries(max_retries);
    policy.initial_delay = initial_delay;
    policy.max_delay = max_delay;
    policy
}

fn to_std(d: Duration) -> StdDuration {
    StdDuration::new(d.as_secs(), d.subsec_nanos())
}

fn from_std(d: StdDuration) -> Duration {
    Duration::new(d.as_secs(), d.subsec_nanos()).unwrap()
}

fn backoff_delay(policy: &RetryPolicy, retry: u32, jitter: f64) -> StdDuration {
    let full = to_std(policy.exponential(retry));
    let cut = full.mul_f64(JITTER_FRACTION * jitter.clamp(0.0, 1.0));
    to_std(policy.backoff_delay(retry, from_std(cut)))
}

#[test]
fn test_backoff_delay() {
    let policy_1_30 = policy(10, Duration::from_secs(1), Duration::from_secs(30));
    // (retry, jitter, expected)
    let cases = [
        (0, 0.0, StdDuration::from_secs(1)),
        (1, 0.0, StdDuration::from_secs(2)),
        (2, 0.0, StdDuration::from_secs(4)),
        (4, 0.0, StdDuration::from_secs(16)),
        // Capped
        (5, 0.0, StdDuration::from_secs(30)),
        (u32::MAX, 0.0, StdDuration::from_secs(30)),
        // Jitter only ever shortens the delay, by at most 20%
        (0, 0.5, StdDuration::from_millis(900)),
        (5, 1.0, StdDuration::from_secs(24)),
    ];
    for (retry, jitter, expected) in cases {
        assert_eq!(
            backoff_delay(&policy_1_30, retry, jitter),
            expected,
            "retry={retry} jitter={jitter}"
        );
    }
    assert_eq!(backoff_delay(&RetryPolicy::none(), 3, 0.5), StdDuration::ZERO);
    // Must not overflow
    let huge = policy(1, Duration::max(), Duration::max());
    for jitter in [0.0, 0.5, 0.999] {
        assert!(
            backoff_delay(&huge, u32::MAX, jitter) > StdDuration::from_secs(u64::MAX / 2)
        );
    }
}

#[test]
fn test_random_unit_range() {
    for _ in 0..1000 {
        let v = random_unit() as f64 / UNIT_DENOMINATOR as f64;
        assert!((0.0..1.0).contains(&v), "{v}");
    }
}

#[test]
fn unit_takes_the_top_bits() {
    assert_eq!(UNIT_DENOMINATOR, 1u64 << 53);
    assert_eq!(unit_of_bits(0), 0);
    assert_eq!(unit_of_bits(2047), 0);
    assert_eq!(unit_of_bits(2048), 1);
    assert_eq!(unit_of_bits(u64::MAX), UNIT_DENOMINATOR - 1);
}

#[test]
fn random_units_differ() {
    let first = random_unit();
    assert!((0..100).any(|_| random_unit() != first));
}

fn proxy_failure(msg: &str) -> Vec<Cause> {
    vec![Cause::Proxy(ProxyError::RequestInitiationFailure {
        method: "GetBlob".into(),
        error: msg.into(),
    })]
}

/// Drive a retry loop with an operation that fails with the given errors in order
/// and then succeeds.
#[test]
fn test_with_retry() {
    const TRANSIENT: &str = "received unexpected HTTP status: 503 Service Unavailable";
    const PERMANENT: &str = "unauthorized: authentication required";
    let fast = policy(3, Duration::zero(), Duration::zero());
    let one_retry = policy(1, Duration::zero(), Duration::zero());
    // (policy, errors before success, expected attempts, expected success, expected
    // context of the final error)
    type Case<'a> = (RetryPolicy, &'a [&'a str], usize, bool, Option<&'a str>);
    let cases: &[Case] = &[
        (fast, &[], 1, true, None),
        (fast, &[TRANSIENT], 2, true, None),
        (fast, &[TRANSIENT; 3], 4, true, None),
        // Out of retries
        (fast, &[TRANSIENT; 4], 4, false, Some("Giving up after 3 retries")),
        (one_retry, &[TRANSIENT; 2], 2, false, Some("Giving up after 1 retry")),
        // Permanent errors are not retried, even after transient ones
        (fast, &[PERMANENT], 1, false, None),
        (fast, &[TRANSIENT, PERMANENT], 2, false, None),
        // Retrying disabled
        (RetryPolicy::none(), &[TRANSIENT], 1, false, None),
    ];
    for (policy, errors, expected_attempts, expected_ok, expected_context) in cases {
        let ctx = format!("policy={policy:?} errors={errors:?}");
        let mut state = RetryLoop::new(*policy);
        let mut attempts = 0;
        let mut messages: Vec<String> = Vec::new();
        let mut context: Option<String> = None;
        let ok = loop {
            let error = errors.get(attempts);
            attempts += 1;
            let Some(error) = error else {
                break true;
            };
            match state.attempt_failed(&proxy_failure(error)) {
                RetryAction::Fail => break false,
                RetryAction::GiveUp { context: c } => {
                    context = Some(c);
                    break false;
                }
                RetryAction::Retry { number, exponential } => {
                    let secs = format!("{:.1}", to_std(exponential).as_secs_f64());
                    messages.push(retry_message(
                        "Fetching thing",
                        &secs,
                        number,
                        policy.max_retries,
                        error,
                    ));
                }
            }
        };
        assert_eq!(attempts, *expected_attempts, "{ctx}");
        assert_eq!(ok, *expected_ok, "{ctx}");
        assert_eq!(messages.len(), expected_attempts - 1, "{ctx}");
        for (i, m) in messages.iter().enumerate() {
            let n = i + 1;
            let max = policy.max_retries;
            assert!(
                m.starts_with("Fetching thing: transient error, retrying in ")
                    && m.contains(&format!("({n}/{max}): "))
                    && m.ends_with(TRANSIENT),
                "{ctx}: {m}"
            );
        }
        assert_eq!(context.as_deref(), *expected_context, "{ctx}");
    }
}

#[test]
fn retry_message_is_exact() {
    assert_eq!(
        retry_message("Opening image", "0.9", 2, 13, "connection refused"),
        "Opening image: transient error, retrying in 0.9s (2/13): connection refused"
    );
    assert_eq!(
        retry_message("x", "0.0", u32::MAX, 0, ""),
        "x: transient error, retrying in 0.0s (4294967295/0): "
    );
}

#[test]
fn default_policies() {
    let default = RetryPolicy::default();
    assert_eq!(default.max_retries, 3);
    assert_eq!(default.initial_delay, Duration::from_secs(1));
    assert_eq!(default.max_delay, Duration::from_secs(30));
    let seven = RetryPolicy::with_max_retries(7);
    assert_eq!(seven, policy(7, Duration::from_secs(1), Duration::from_secs(30)));
    let none = RetryPolicy::none();
    assert_eq!(none, policy(0, Duration::zero(), Duration::zero()));
}

#[test]
fn none_never_retries() {
    let mut state = RetryLoop::new(RetryPolicy::none());
    assert!(matches!(
        state.attempt_failed(&proxy_failure("unexpected EOF")),
        RetryAction::Fail
    ));
}

#[test]
fn retries_double_the_delay() {
    let mut state = RetryLoop::new(policy(
        4,
        Duration::from_millis(1500),
        Duration::from_secs(10),
    ));
    for (number, millis) in [(1, 1500), (2, 3000), (3, 6000), (4, 10000)] {
        match state.attempt_failed(&proxy_failure("i/o timeout")) {
            RetryAction::Retry { number: n, exponential } => {
                assert_eq!(n, number);
                assert_eq!(exponential, Duration::from_millis(millis));
            }
            other => panic!("{other:?}"),
        }
    }
    match state.attempt_failed(&proxy_failure("i/o timeout")) {
        RetryAction::GiveUp { context } => assert_eq!(context, "Giving up after 4 retries"),
        other => panic!("{other:?}"),
    }
}

#[test]
fn tiny_delays_double_beyond_thirty_two_retries() {
    let tiny = policy(100, Duration::new(0, 1).unwrap(), Duration::max());
    assert_eq!(tiny.exponential(31), Duration::new(2, 147_483_648).unwrap());
    assert_eq!(tiny.exponential(32), Duration::new(4, 294_967_296).unwrap());
    assert_eq!(tiny.exponential(40), Duration::new(1099, 511_627_776).unwrap());
    assert_eq!(tiny.exponential(94), Duration::max());
    let nothing = policy(1, Duration::zero(), Duration::max());
    assert_eq!(nothing.exponential(u32::MAX), Duration::zero());
}

#[test]
fn at_most_a_fifth_is_cut() {
    let p = policy(1, Duration::from_secs(2), Duration::from_secs(3));
    assert_eq!(
        p.backoff_delay(0, Duration::from_millis(1)),
        Duration::new(1, 999_000_000).unwrap()
    );
    assert_eq!(p.backoff_delay(0, Duration::from_millis(400)), Duration::from_millis(1600));
    assert_eq!(p.backoff_delay(0, Duration::from_millis(401)), Duration::from_millis(1600));
    assert_eq!(p.backoff_delay(0, Duration::max()), Duration::from_millis(1600));
    assert_eq!(RetryPolicy::none().backoff_delay(0, Duration::max()), Duration::zero());
    assert_eq!(Duration::new(9, 4).unwrap().fifth(), Duration::new(1, 800_000_000).unwrap());
    assert_eq!(Duration::new(0, 4).unwrap().fifth(), Duration::zero());
}

#[test]
fn default_retries_give_the_default_policy() {
    let default = RetryPolicy::default();
    assert_eq!(RetryPolicy::with_max_retries(default.max_retries), default);
}

#[test]
fn durations() {
    assert_eq!(Duration::new(1, 1_000_000_000), None);
    assert_eq!(Duration::from_millis(1234), Duration::new(1, 234_000_000).unwrap());
    assert!(Duration::zero().is_shorter(&Duration::max()));
    assert!(!Duration::from_secs(2).is_shorter(&Duration::from_secs(2)));
    assert!(Duration::new(2, 1).unwrap().is_shorter(&Duration::new(2, 2).unwrap()));
    assert_eq!(
        Duration::new(1, 700_000_000).unwrap().saturating_double(),
        Duration::new(3, 400_000_000).unwrap()
    );
    assert_eq!(
        Duration::new(u64::MAX / 2, 500_000_000).unwrap().saturating_double(),
        Duration::from_secs(u64::MAX)
    );
    assert_eq!(
        Duration::new(u64::MAX / 2 + 1, 0).unwrap().saturating_double(),
        Duration::max()
    );
    assert_eq!(Duration::max().saturating_double(), Duration::max());
    assert_eq!(
        Duration::new(5, 1).unwrap().saturating_sub(Duration::new(2, 2).unwrap()),
        Duration::new(2, 999_999_999).unwrap()
    );
}

#[test]
fn operations_are_retried_one_by_one() {
    let failure = proxy_failure("received unexpected HTTP status: 503 Service Unavailable");
    // The manifest, the configuration and the layer each fail once
    let mut retries = 0;
    for _ in 0..3 {
        let mut state = RetryLoop::new(RetryPolicy::default());
        match state.attempt_failed(&failure) {
            RetryAction::Retry { number, .. } => retries += number,
            other => panic!("{other:?}"),
        }
    }
    assert_eq!(retries, 3);
    let mut state = RetryLoop::new(RetryPolicy::none());
    assert!(matches!(state.attempt_failed(&failure), RetryAction::Fail));
}
