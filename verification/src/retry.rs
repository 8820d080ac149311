//! Retry with exponential backoff for one outbound GET.
//!
//! The caller performs the attempts: it takes a rate-limiter permit, sends
//! the request, reads the body and gives the permit back. After each attempt
//! it reports the outcome to [`after_attempt`], which says whether the fetch
//! is over or how long to wait before the next attempt.

use crate::network::NetworkConfig;
use crate::text::join2;
use vstd::arithmetic::power2::lemma2_to64;
use vstd::arithmetic::power2::lemma_pow2_pos;
use vstd::arithmetic::power2::lemma_pow2_unfold;
use vstd::arithmetic::power2::pow2;
use vstd::prelude::*;
use vstd::string::StringExecFns;

verus! {

/// Why a request could not be sent, as far as the retry policy reads it.
#[derive(Debug)]
pub struct SendFailure {
    /// The request ran into a timeout.
    pub is_timeout: bool,
    /// The connection could not be established.
    pub is_connect: bool,
    /// The underlying cause, for diagnosis.
    pub cause: String,
}

/// What one attempt came to.
#[derive(Debug)]
pub enum AttemptOutcome {
    /// The response arrived and its body was read.
    Body(String),
    /// The response arrived but its body could not be read.
    BodyUnreadable(String),
    /// The request could not be sent or no response arrived.
    SendFailed(SendFailure),
}

/// The step of a GET at which a fetch failed for good.
#[derive(Debug, Clone, Copy, PartialEq, Eq, Structural)]
pub enum FailedStage {
    /// Sending the request.
    Send,
    /// Reading the body of the response.
    ReadBody,
}

/// A fetch that failed for good, with what is needed to diagnose it.
#[derive(Debug)]
pub struct TransportError {
    /// The URL that was requested.
    pub url: String,
    /// The attempts made, the failed last one included.
    pub attempts: u64,
    /// The step that failed.
    pub stage: FailedStage,
    /// The underlying cause.
    pub cause: String,
}

impl TransportError {
    /// The text that reports the failure: the step that failed and the URL.
    pub open spec fn spec_message(self) -> Seq<char> {
        match self.stage {
            FailedStage::Send => "failed to send GET request to "@ + self.url@,
            FailedStage::ReadBody => "failed to get response text from "@ + self.url@,
        }
    }

    /// Writes the text that reports the failure.
    pub fn message(&self) -> (text: String)
        ensures
            text@ == self.spec_message(),
    {
        match self.stage {
            FailedStage::Send => join2("failed to send GET request to ", self.url.as_str()),
            FailedStage::ReadBody => join2("failed to get response text from ", self.url.as_str()),
        }
    }
}

/// Where a fetch stands while an attempt is in progress.
#[derive(Debug, Clone, Copy, PartialEq, Eq, Structural)]
pub struct RetryState {
    /// Number of the attempt in progress, counted from 1.
    pub attempt: u64,
    /// Wait that follows this attempt if it fails and is retried.
    pub delay_ms: u64,
}

/// What the caller does after an attempt.
#[derive(Debug)]
pub enum RetryAction {
    /// Sleep for `wait_ms`, then make the attempt that `next` describes.
    RetryAfter { wait_ms: u64, next: RetryState },
    /// The fetch is over: hand out the body, or the failure that ended it.
    Deliver(Result<String, TransportError>),
}

/// A failure is worth another attempt if the connection could not be
/// established, or if it was a timeout and timeouts are retried.
pub open spec fn spec_should_retry(config: NetworkConfig, is_timeout: bool, is_connect: bool) -> bool {
    (is_timeout && config.retry_on_timeout) || is_connect
}

/// A failed attempt ends the fetch if the failure is not worth another
/// attempt or the retries are used up.
pub open spec fn spec_gives_up(
    config: NetworkConfig,
    state: RetryState,
    is_timeout: bool,
    is_connect: bool,
) -> bool {
    !spec_should_retry(config, is_timeout, is_connect) || state.attempt > config.max_retries
}

/// Twice the wait, capped at `max_delay_ms`.
pub open spec fn spec_next_delay(delay_ms: u64, max_delay_ms: u64) -> u64 {
    if 2 * delay_ms <= max_delay_ms {
        (2 * delay_ms) as u64
    } else {
        max_delay_ms
    }
}

/// The state of the first attempt.
pub open spec fn spec_first_attempt(config: NetworkConfig) -> RetryState {
    RetryState { attempt: 1, delay_ms: config.initial_retry_delay_ms }
}

/// The state of the attempt that follows a retried failure.
pub open spec fn spec_next_state(config: NetworkConfig, state: RetryState) -> RetryState {
    RetryState {
        attempt: (state.attempt + 1) as u64,
        delay_ms: spec_next_delay(state.delay_ms, config.max_retry_delay_ms),
    }
}

/// The state of the attempt in progress after `failures` attempts that were
/// all retried.
pub open spec fn spec_state_after(config: NetworkConfig, failures: nat) -> RetryState
    decreases failures,
{
    if failures == 0 {
        spec_first_attempt(config)
    } else {
        spec_next_state(config, spec_state_after(config, (failures - 1) as nat))
    }
}

/// The wait that follows failure number `i` (counted from 0): the initial
/// delay at first, afterwards the initial delay doubled `i` times and capped.
pub open spec fn spec_backoff_delay(config: NetworkConfig, i: nat) -> int {
    if i == 0 {
        config.initial_retry_delay_ms as int
    } else if config.initial_retry_delay_ms * pow2(i) <= config.max_retry_delay_ms {
        config.initial_retry_delay_ms * pow2(i)
    } else {
        config.max_retry_delay_ms as int
    }
}

/// Whether a failure is worth another attempt.
pub fn should_retry(config: &NetworkConfig, failure: &SendFailure) -> (retry: bool)
    ensures
        retry == spec_should_retry(*config, failure.is_timeout, failure.is_connect),
{
    (failure.is_timeout && config.retry_on_timeout) || failure.is_connect
}

/// Doubles a wait and caps it at `max_delay_ms`.
pub fn next_delay(delay_ms: u64, max_delay_ms: u64) -> (next: u64)
    ensures
        next == spec_next_delay(delay_ms, max_delay_ms),
{
    if delay_ms <= max_delay_ms / 2 {
        delay_ms * 2
    } else {
        max_delay_ms
    }
}

/// The state in which a fetch makes its first attempt.
pub fn first_attempt(config: &NetworkConfig) -> (state: RetryState)
    ensures
        state == spec_first_attempt(*config),
{
    RetryState { attempt: 1, delay_ms: config.initial_retry_delay_ms }
}

/// Decides what follows an attempt on `url` made in `state`.
///
/// A body that was read ends the fetch with that body. A body that could not
/// be read ends it with an error. A request that could not be sent is
/// attempted again after `state.delay_ms`, unless the failure is not
/// retryable or `state.attempt` has passed `max_retries`: then the fetch ends
/// with an error that carries the URL, the attempts made and the cause.
pub fn after_attempt(
    config: &NetworkConfig,
    url: &str,
    state: RetryState,
    outcome: AttemptOutcome,
) -> (action: RetryAction)
    ensures
        match outcome {
            AttemptOutcome::Body(body) => action == RetryAction::Deliver(Ok(body)),
            AttemptOutcome::BodyUnreadable(cause) => {
                &&& action matches RetryAction::Deliver(Err(error))
                &&& error.url@ == url@
                &&& error.attempts == state.attempt
                &&& error.stage == FailedStage::ReadBody
                &&& error.cause == cause
            },
            AttemptOutcome::SendFailed(failure) => {
                if spec_gives_up(*config, state, failure.is_timeout, failure.is_connect) {
                    &&& action matches RetryAction::Deliver(Err(error))
                    &&& error.url@ == url@
                    &&& error.attempts == state.attempt
                    &&& error.stage == FailedStage::Send
                    &&& error.cause == failure.cause
                } else {
                    action == (RetryAction::RetryAfter {
                        wait_ms: state.delay_ms,
                        next: spec_next_state(*config, state),
                    })
                }
            },
        },
{
    match outcome {
        AttemptOutcome::Body(body) => RetryAction::Deliver(Ok(body)),
        AttemptOutcome::BodyUnreadable(cause) => RetryAction::Deliver(
            Err(
                TransportError {
                    url: String::from_str(url),
                    attempts: state.attempt,
                    stage: FailedStage::ReadBody,
                    cause,
                },
            ),
        ),
        AttemptOutcome::SendFailed(failure) => {
            let retry = should_retry(config, &failure);
            if !retry || state.attempt > config.max_retries as u64 {
                RetryAction::Deliver(
                    Err(
                        TransportError {
                            url: String::from_str(url),
                            attempts: state.attempt,
                            stage: FailedStage::Send,
                            cause: failure.cause,
                        },
                    ),
                )
            } else {
                RetryAction::RetryAfter {
                    wait_ms: state.delay_ms,
                    next: RetryState {
                        attempt: state.attempt + 1,
                        delay_ms: next_delay(state.delay_ms, config.max_retry_delay_ms),
                    },
                }
            }
        },
    }
}

/// Turns the result of a fetch into the form in which every caller that
/// waits on the fetch receives it: the body as it is, a failure as its text,
/// which can be cloned for each of them.
pub fn shared_outcome(delivered: Result<String, TransportError>) -> (shared: Result<String, String>)
    ensures
        match delivered {
            Ok(body) => shared == Ok::<String, String>(body),
            Err(error) => shared matches Err(text) && text@ == error.spec_message(),
        },
{
    match delivered {
        Ok(body) => Ok(body),
        Err(error) => Err(error.message()),
    }
}

/// A fetch whose every attempt fails to connect makes `max_retries + 1`
/// attempts: each of the first `max_retries` failures is retried, and the
/// next one ends the fetch.
pub proof fn law_attempts_until_give_up(config: NetworkConfig, is_timeout: bool, failures: nat)
    requires
        failures <= config.max_retries,
    ensures
        spec_state_after(config, failures).attempt == failures + 1,
        spec_gives_up(config, spec_state_after(config, failures), is_timeout, true) <==> failures
            == config.max_retries,
    decreases failures,
{
    if failures > 0 {
        law_attempts_until_give_up(config, is_timeout, (failures - 1) as nat);
    }
}

/// The wait that follows failure number `i` is the initial delay for
/// `i == 0` and `min(initial * 2^i, max)` afterwards.
pub proof fn law_backoff_delay(config: NetworkConfig, i: nat)
    ensures
        spec_state_after(config, i).delay_ms == spec_backoff_delay(config, i),
    decreases i,
{
    if i > 0 {
        let prev = (i - 1) as nat;
        law_backoff_delay(config, prev);
        lemma_pow2_unfold(i);
        let initial = config.initial_retry_delay_ms as int;
        let max = config.max_retry_delay_ms as int;
        let p = pow2(prev) as int;
        assert(pow2(i) == 2 * p);
        assert(initial * (2 * p) == 2 * (initial * p)) by (nonlinear_arith);
        if prev == 0 {
            assert(pow2(0) == 1) by {
                lemma2_to64();
            }
        } else {
            assert(p >= 1) by {
                lemma_pow2_pos(prev);
            }
        }
    }
}

/// With an initial delay no larger than the cap, the wait that follows
/// failure number `i` is `min(initial * 2^i, max)`, and the waits never
/// shrink.
pub proof fn law_backoff_monotone(config: NetworkConfig, i: nat)
    requires
        config.initial_retry_delay_ms <= config.max_retry_delay_ms,
    ensures
        spec_state_after(config, i).delay_ms == if config.initial_retry_delay_ms * pow2(i)
            <= config.max_retry_delay_ms {
            config.initial_retry_delay_ms * pow2(i)
        } else {
            config.max_retry_delay_ms as int
        },
        spec_state_after(config, i).delay_ms <= spec_state_after(config, i + 1).delay_ms,
        spec_state_after(config, i).delay_ms <= config.max_retry_delay_ms,
{
    law_backoff_delay(config, i);
    law_backoff_delay(config, i + 1);
    lemma_pow2_unfold(i + 1);
    assert(pow2(0) == 1) by {
        lemma2_to64();
    }
    let initial = config.initial_retry_delay_ms as int;
    let p = pow2(i) as int;
    assert(p >= 1) by {
        lemma_pow2_pos(i);
    }
    assert(initial * (2 * p) == 2 * (initial * p)) by (nonlinear_arith);
    assert(initial * p >= initial) by (nonlinear_arith)
        requires
            p >= 1,
            initial >= 0,
    ;
    if i == 0 {
        assert(initial * p == initial) by (nonlinear_arith)
            requires
                p == 1,
        ;
    }
}

} // verus!
