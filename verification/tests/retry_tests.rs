use hn_core::network::NetworkConfig;
use hn_core::retry::after_attempt;
use hn_core::retry::first_attempt;
use hn_core::retry::next_delay;
use hn_core::retry::shared_outcome;
use hn_core::retry::should_retry;
use hn_core::retry::AttemptOutcome;
use hn_core::retry::FailedStage;
use hn_core::retry::RetryAction;
use hn_core::retry::RetryState;
use hn_core::retry::SendFailure;
use hn_core::retry::TransportError;

fn connect_failure() -> AttemptOutcome {
    AttemptOutcome::SendFailed(SendFailure {
        is_timeout: false,
        is_connect: true,
        cause: "connection refused".to_string(),
    })
}

fn timeout_failure() -> AttemptOutcome {
    AttemptOutcome::SendFailed(SendFailure {
        is_timeout: true,
        is_connect: false,
        cause: "timed out".to_string(),
    })
}

fn other_failure() -> AttemptOutcome {
    AttemptOutcome::SendFailed(SendFailure {
        is_timeout: false,
        is_connect: false,
        cause: "bad redirect".to_string(),
    })
}

fn config(max_retries: u32, initial: u64, max: u64, retry_on_timeout: bool) -> NetworkConfig {
    NetworkConfig {
        max_retries,
        initial_retry_delay_ms: initial,
        max_retry_delay_ms: max,
        retry_on_timeout,
        concurrent_requests: 10,
        rate_limit_permits: 3,
    }
}

/// Runs a fetch whose every attempt ends in `outcome()`, and returns the
/// waits and the error that ends it.
fn run_failing(
    config: &NetworkConfig,
    outcome: fn() -> AttemptOutcome,
) -> (Vec<u64>, TransportError) {
    let mut waits = Vec::new();
    let mut state = first_attempt(config);
    loop {
        match after_attempt(config, "http://h/x.json", state, outcome()) {
            RetryAction::RetryAfter { wait_ms, next } => {
                waits.push(wait_ms);
                state = next;
            }
            RetryAction::Deliver(Err(error)) => return (waits, error),
            RetryAction::Deliver(Ok(body)) => panic!("unexpected body: {}", body),
        }
    }
}

#[test]
fn first_attempt_starts_with_the_initial_delay() {
    let state = first_attempt(&NetworkConfig::default());
    assert_eq!(state, RetryState { attempt: 1, delay_ms: 500 });
}

#[test]
fn body_ends_the_fetch() {
    let config = NetworkConfig::default();
    let action = after_attempt(
        &config,
        "u",
        first_attempt(&config),
        AttemptOutcome::Body("[1]".to_string()),
    );
    match action {
        RetryAction::Deliver(Ok(body)) => assert_eq!(body, "[1]"),
        other => panic!("unexpected: {:?}", other),
    }
}

#[test]
fn unreadable_body_is_fatal() {
    let config = NetworkConfig::default();
    let action = after_attempt(
        &config,
        "http://h/x.json",
        RetryState { attempt: 2, delay_ms: 1000 },
        AttemptOutcome::BodyUnreadable("decode error".to_string()),
    );
    match action {
        RetryAction::Deliver(Err(error)) => {
            assert_eq!(error.url, "http://h/x.json");
            assert_eq!(error.attempts, 2);
            assert_eq!(error.stage, FailedStage::ReadBody);
            assert_eq!(error.cause, "decode error");
            assert_eq!(error.message(), "failed to get response text from http://h/x.json");
        }
        other => panic!("unexpected: {:?}", other),
    }
}

#[test]
fn connection_failures_are_retried_with_doubling_waits() {
    let (waits, error) = run_failing(&NetworkConfig::default(), connect_failure);
    // min(500 * 2^i, 5000) for i = 0, 1, 2; four attempts in all.
    assert_eq!(waits, vec![500, 1000, 2000]);
    assert_eq!(error.attempts, 4);
    assert_eq!(error.stage, FailedStage::Send);
    assert_eq!(error.url, "http://h/x.json");
    assert_eq!(error.cause, "connection refused");
    assert_eq!(error.message(), "failed to send GET request to http://h/x.json");
}

#[test]
fn waits_are_capped_at_the_maximum() {
    let (waits, error) = run_failing(&config(6, 500, 5000, true), connect_failure);
    assert_eq!(waits, vec![500, 1000, 2000, 4000, 5000, 5000]);
    assert_eq!(error.attempts, 7);
}

#[test]
fn first_wait_is_the_initial_delay_even_above_the_maximum() {
    let (waits, error) = run_failing(&config(3, 10_000, 5000, true), connect_failure);
    assert_eq!(waits, vec![10_000, 5000, 5000]);
    assert_eq!(error.attempts, 4);
}

#[test]
fn no_retries_means_one_attempt() {
    let (waits, error) = run_failing(&config(0, 500, 5000, true), connect_failure);
    assert_eq!(waits, Vec::<u64>::new());
    assert_eq!(error.attempts, 1);
}

#[test]
fn timeouts_are_retried_only_if_asked_for() {
    let (waits, error) = run_failing(&config(2, 100, 1000, true), timeout_failure);
    assert_eq!(waits, vec![100, 200]);
    assert_eq!(error.attempts, 3);
    let (waits, error) = run_failing(&config(2, 100, 1000, false), timeout_failure);
    assert_eq!(waits, Vec::<u64>::new());
    assert_eq!(error.attempts, 1);
}

#[test]
fn a_connect_timeout_is_retried_as_a_connection_failure() {
    let config = config(2, 100, 1000, false);
    let failure = SendFailure { is_timeout: true, is_connect: true, cause: String::new() };
    assert!(should_retry(&config, &failure));
}

#[test]
fn other_failures_are_fatal_at_once() {
    let (waits, error) = run_failing(&NetworkConfig::default(), other_failure);
    assert_eq!(waits, Vec::<u64>::new());
    assert_eq!(error.attempts, 1);
    assert_eq!(error.cause, "bad redirect");
}

#[test]
fn a_success_after_retries_ends_the_fetch() {
    let config = NetworkConfig::default();
    let state = first_attempt(&config);
    let state = match after_attempt(&config, "u", state, connect_failure()) {
        RetryAction::RetryAfter { wait_ms, next } => {
            assert_eq!(wait_ms, 500);
            assert_eq!(next, RetryState { attempt: 2, delay_ms: 1000 });
            next
        }
        other => panic!("unexpected: {:?}", other),
    };
    match after_attempt(&config, "u", state, AttemptOutcome::Body("ok".to_string())) {
        RetryAction::Deliver(Ok(body)) => assert_eq!(body, "ok"),
        other => panic!("unexpected: {:?}", other),
    }
}

#[test]
fn next_delay_doubles_without_overflow() {
    assert_eq!(next_delay(0, 0), 0);
    assert_eq!(next_delay(0, 10), 0);
    assert_eq!(next_delay(5, 10), 10);
    assert_eq!(next_delay(6, 10), 10);
    assert_eq!(next_delay(4, 9), 8);
    assert_eq!(next_delay(5, 9), 9);
    assert_eq!(next_delay(u64::MAX, u64::MAX), u64::MAX);
    assert_eq!(next_delay(u64::MAX / 2, u64::MAX), u64::MAX - 1);
    assert_eq!(next_delay(u64::MAX / 2 + 1, u64::MAX), u64::MAX);
    assert_eq!(next_delay(7, 3), 3);
}

#[test]
fn the_most_retries_do_not_overflow_the_attempt_count() {
    let config = config(u32::MAX, 1, 1, true);
    let state = RetryState { attempt: u32::MAX as u64, delay_ms: 1 };
    let next = match after_attempt(&config, "u", state, connect_failure()) {
        RetryAction::RetryAfter { next, .. } => next,
        other => panic!("unexpected: {:?}", other),
    };
    assert_eq!(next.attempt, u32::MAX as u64 + 1);
    assert!(matches!(
        after_attempt(&config, "u", next, connect_failure()),
        RetryAction::Deliver(Err(_))
    ));
}

#[test]
fn shared_outcome_carries_a_failure_as_text() {
    assert_eq!(shared_outcome(Ok("body".to_string())), Ok("body".to_string()));
    let error = TransportError {
        url: "http://h/x.json".to_string(),
        attempts: 4,
        stage: FailedStage::Send,
        cause: "refused".to_string(),
    };
    assert_eq!(
        shared_outcome(Err(error)),
        Err("failed to send GET request to http://h/x.json".to_string())
    );
}
