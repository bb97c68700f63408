//! Whether a failed attempt is followed by another, and after what wait.
//!
//! A [`RetryState`] lives for one logical request. The caller sends the
//! request; on each failure it asks [`RetryState::on_failure`], which either
//! grants a retry after a wait or has the error surfaced as it is.

use crate::errors::{Error, ErrorView};
use vstd::prelude::*;

verus! {

/// Cap on a single backoff wait where none is chosen, in seconds.
pub const DEFAULT_MAX_DELAY_SECS: u64 = 60;

/// Settings of a client.
#[derive(Debug, Clone, Copy, PartialEq, Eq, Structural)]
pub struct ClientConfig {
    /// Time allowed for one attempt as a whole, in seconds.
    pub timeout_secs: u64,
    /// Time allowed for establishing the connection, in seconds.
    pub connect_timeout_secs: u64,
    /// How many times a failed request is sent again at most.
    pub max_retries: u32,
    /// Whether failed requests are sent again at all.
    pub retry_enabled: bool,
}

impl Default for ClientConfig {
    fn default() -> (out: ClientConfig)
        ensures
            out == (ClientConfig {
                timeout_secs: 30,
                connect_timeout_secs: 10,
                max_retries: 3,
                retry_enabled: true,
            }),
    {
        ClientConfig {
            timeout_secs: 30,
            connect_timeout_secs: 10,
            max_retries: 3,
            retry_enabled: true,
        }
    }
}

/// The part of the settings that governs retries.
#[derive(Debug, Clone, Copy, PartialEq, Eq, Structural)]
pub struct RetryPolicy {
    /// Whether any failure is followed by another attempt.
    pub enabled: bool,
    /// The most retries granted to one logical request.
    pub max_retries: u32,
    /// Cap on a single backoff wait, in seconds.
    pub max_delay_secs: u64,
}

impl RetryPolicy {
    /// The policy that `config` asks for, with the default cap on a single wait.
    pub fn from_config(config: &ClientConfig) -> (out: RetryPolicy)
        ensures
            out == (RetryPolicy {
                enabled: config.retry_enabled,
                max_retries: config.max_retries,
                max_delay_secs: DEFAULT_MAX_DELAY_SECS,
            }),
    {
        RetryPolicy {
            enabled: config.retry_enabled,
            max_retries: config.max_retries,
            max_delay_secs: DEFAULT_MAX_DELAY_SECS,
        }
    }
}

/// The wait of backoff step `index`, in seconds: one second at first, then
/// twice the wait before, but no more than `cap` from the second step on.
pub open spec fn backoff_delay(index: nat, cap: u64) -> u64
    decreases index,
{
    if index == 0 {
        1
    } else {
        let before = backoff_delay((index - 1) as nat, cap);
        if before < cap && 2 * before <= cap {
            (2 * before) as u64
        } else {
            cap
        }
    }
}

/// What a backoff that stops after `max_times` steps gives at step `index`.
pub open spec fn backoff_schedule(max_times: nat, index: nat, cap: u64) -> Option<u64> {
    if index < max_times {
        Some(backoff_delay(index, cap))
    } else {
        None
    }
}

/// Builds the exponential backoff of the `backon` crate from its defaults
/// (first wait one second, factor two, no jitter) with `max_times` steps and
/// a cap of `cap` seconds, and gives the whole seconds of the wait at step
/// `index`. The contract claims the schedule that the crate's iterator
/// computes: it ends after `max_times` waits, starts at the first wait and
/// doubles the wait before while that is under the cap, never going over it.
#[verifier::external_body]
fn exponential_backoff(max_times: u32, index: u32, cap: u64) -> (out: Option<u64>)
    ensures
        out == backoff_schedule(max_times as nat, index as nat, cap),
{
    let builder = backon::ExponentialBuilder::default()
        .with_max_times(max_times as usize)
        .with_max_delay(std::time::Duration::from_secs(cap));
    let mut waits = backon::BackoffBuilder::build(builder);
    match waits.nth(index as usize) {
        Some(wait) => Some(wait.as_secs()),
        None => None,
    }
}

/// Whether a failure of this kind may pass and is worth another attempt:
/// transport failures, rate limiting, and faults that report an unavailable
/// service or a gateway timeout.
pub open spec fn is_retryable(error: ErrorView) -> bool {
    match error {
        ErrorView::Http(_) => true,
        ErrorView::RateLimited { .. } => true,
        ErrorView::Fault { code, .. } => code == 503 || code == 504,
        _ => false,
    }
}

/// Whether a request that was retried `retries` times is retried after `error`.
pub open spec fn grants_retry(policy: RetryPolicy, retries: nat, error: ErrorView) -> bool {
    policy.enabled && is_retryable(error) && retries < policy.max_retries
}

/// Whether the wait before the retry after `error` comes from the backoff
/// schedule. It does unless the service itself said how long to wait.
pub open spec fn uses_backoff(error: ErrorView) -> bool {
    !(error matches ErrorView::RateLimited { retry_after: Some(_) })
}

/// The wait before the retry after `error`, in seconds, where `backoffs`
/// steps of the schedule are used up: what the service asked for, else the
/// next step of the schedule.
pub open spec fn retry_wait(policy: RetryPolicy, backoffs: nat, error: ErrorView) -> u64 {
    match error {
        ErrorView::RateLimited { retry_after: Some(seconds) } => seconds,
        _ => backoff_delay(backoffs, policy.max_delay_secs),
    }
}

/// What follows a failed attempt.
#[derive(Debug, Clone, Copy, PartialEq, Eq, Structural)]
pub enum RetryDecision {
    /// Wait for `delay_secs` seconds, then send the request again.
    Retry { delay_secs: u64 },
    /// Hand the error to the caller as it is.
    Surface,
}

/// The retry bookkeeping of one logical request.
#[derive(Debug)]
pub struct RetryState {
    policy: RetryPolicy,
    /// Retries granted so far.
    retries: u32,
    /// Steps of the backoff schedule used so far.
    backoffs: u32,
}

impl RetryState {
    #[verifier::type_invariant]
    spec fn well_formed(self) -> bool {
        self.backoffs <= self.retries && self.retries <= self.policy.max_retries
    }

    /// The policy that the request runs under.
    pub closed spec fn policy(self) -> RetryPolicy {
        self.policy
    }

    /// Retries granted so far.
    pub closed spec fn retries(self) -> nat {
        self.retries as nat
    }

    /// Steps of the backoff schedule used so far.
    pub closed spec fn backoffs(self) -> nat {
        self.backoffs as nat
    }

    /// The state of a request that has not failed yet.
    pub fn new(policy: RetryPolicy) -> (out: RetryState)
        ensures
            out.policy() == policy,
            out.retries() == 0,
            out.backoffs() == 0,
    {
        RetryState { policy, retries: 0, backoffs: 0 }
    }

    /// Attempts made so far, where the last granted retry has been sent: the
    /// first attempt and each retry.
    pub fn attempts(&self) -> (out: u64)
        ensures
            out == self.retries() + 1,
    {
        self.retries as u64 + 1
    }

    /// Decides what follows the failure of the current attempt with `error`.
    pub fn on_failure(&mut self, error: &Error) -> (out: RetryDecision)
        ensures
            final(self).policy() == old(self).policy(),
            final(self).retries() <= final(self).policy().max_retries,
            final(self).backoffs() <= final(self).retries(),
            grants_retry(old(self).policy(), old(self).retries(), error@) ==> {
                &&& out == (RetryDecision::Retry {
                    delay_secs: retry_wait(old(self).policy(), old(self).backoffs(), error@),
                })
                &&& final(self).retries() == old(self).retries() + 1
                &&& final(self).backoffs() == old(self).backoffs() + if uses_backoff(error@) {
                    1nat
                } else {
                    0nat
                }
            },
            !grants_retry(old(self).policy(), old(self).retries(), error@) ==> {
                &&& out == RetryDecision::Surface
                &&& final(self).retries() == old(self).retries()
                &&& final(self).backoffs() == old(self).backoffs()
            },
    {
        proof {
            use_type_invariant(&*self);
        }
        let retryable = match error {
            Error::Http(_) => true,
            Error::RateLimited { .. } => true,
            Error::Fault { code, .. } => *code == 503 || *code == 504,
            _ => false,
        };
        if !self.policy.enabled || !retryable || self.retries >= self.policy.max_retries {
            return RetryDecision::Surface;
        }
        match error {
            Error::RateLimited { retry_after: Some(seconds) } => {
                self.retries = self.retries + 1;
                RetryDecision::Retry { delay_secs: *seconds }
            },
            _ => {
                let step = exponential_backoff(
                    self.policy.max_retries,
                    self.backoffs,
                    self.policy.max_delay_secs,
                );
                match step {
                    Some(delay_secs) => {
                        self.retries = self.retries + 1;
                        self.backoffs = self.backoffs + 1;
                        RetryDecision::Retry { delay_secs }
                    },
                    None => {
                        // Not reached: the schedule has a step for every
                        // retry that can be granted.
                        RetryDecision::Surface
                    },
                }
            },
        }
    }
}

/// Errors that are final are never retried, whatever the policy and however
/// few retries were made: bad credentials, a blocked request, a missing
/// resource and a method that is not allowed.
pub proof fn lemma_final_errors_never_retried(policy: RetryPolicy, retries: nat, error: ErrorView)
    requires
        error is Unauthorized || error is Forbidden || error is NotFound
            || error is MethodNotAllowed,
    ensures
        !grants_retry(policy, retries, error),
{
}

/// A fault is retried for no status but 503 and 504.
pub proof fn lemma_other_faults_never_retried(policy: RetryPolicy, retries: nat, error: ErrorView)
    requires
        error matches ErrorView::Fault { code, .. } && code != 503 && code != 504,
    ensures
        !grants_retry(policy, retries, error),
{
}

/// With retries switched off the first failure of any kind is surfaced.
pub proof fn lemma_disabled_never_retries(policy: RetryPolicy, retries: nat, error: ErrorView)
    requires
        !policy.enabled,
    ensures
        !grants_retry(policy, retries, error),
{
}

/// No backoff wait is longer than the cap, where the cap is a second or more,
/// and none is shorter than a second.
pub proof fn lemma_backoff_within_cap(index: nat, cap: u64)
    requires
        cap >= 1,
    ensures
        1 <= backoff_delay(index, cap) <= cap,
    decreases index,
{
    if index > 0 {
        lemma_backoff_within_cap((index - 1) as nat, cap);
    }
}

/// The wait that the service asks for takes the place of the backoff wait.
pub proof fn lemma_server_wait_overrides(policy: RetryPolicy, backoffs: nat, seconds: u64)
    ensures
        retry_wait(policy, backoffs, ErrorView::RateLimited { retry_after: Some(seconds) })
            == seconds,
        !uses_backoff(ErrorView::RateLimited { retry_after: Some(seconds) }),
{
}

/// How one attempt ends.
pub enum Attempt {
    /// The payload came in.
    Success,
    /// The attempt failed with this error.
    Failure(ErrorView),
}

/// What the caller of a logical request sees, and what it cost.
pub struct Execution {
    /// How many attempts were made.
    pub attempts: nat,
    /// The waits between the attempts, in seconds.
    pub waits: Seq<u64>,
    /// How the request ended; `None` where the attempts that are on record
    /// do not reach the end.
    pub outcome: Option<Attempt>,
}

/// One logical request under `policy`, after `retries` retries that used
/// `backoffs` steps of the schedule, where the attempts to come end as
/// `script` says: attempts are made until one succeeds or a failure is
/// not retried.
pub open spec fn execute(policy: RetryPolicy, retries: nat, backoffs: nat, script: Seq<Attempt>)
    -> Execution
    decreases script.len(),
{
    if script.len() == 0 {
        Execution { attempts: 0, waits: Seq::empty(), outcome: None }
    } else {
        match script[0] {
            Attempt::Success => Execution {
                attempts: 1,
                waits: Seq::empty(),
                outcome: Some(Attempt::Success),
            },
            Attempt::Failure(error) => if grants_retry(policy, retries, error) {
                let used = if uses_backoff(error) {
                    backoffs + 1
                } else {
                    backoffs
                };
                let rest = execute(policy, retries + 1, used, script.drop_first());
                Execution {
                    attempts: rest.attempts + 1,
                    waits: seq![retry_wait(policy, backoffs, error)] + rest.waits,
                    outcome: rest.outcome,
                }
            } else {
                Execution {
                    attempts: 1,
                    waits: Seq::empty(),
                    outcome: Some(Attempt::Failure(error)),
                }
            },
        }
    }
}

/// A logical request makes its first attempt and at most as many more as
/// the policy has retries left, with one wait before each of the latter.
pub proof fn lemma_attempts_are_bounded(
    policy: RetryPolicy,
    retries: nat,
    backoffs: nat,
    script: Seq<Attempt>,
)
    requires
        retries <= policy.max_retries,
    ensures
        execute(policy, retries, backoffs, script).attempts <= policy.max_retries - retries + 1,
        execute(policy, retries, backoffs, script).attempts <= script.len(),
        execute(policy, retries, backoffs, script).outcome is Some ==> execute(
            policy,
            retries,
            backoffs,
            script,
        ).waits.len() + 1 == execute(policy, retries, backoffs, script).attempts,
    decreases script.len(),
{
    if script.len() > 0 {
        if let Attempt::Failure(error) = script[0] {
            if grants_retry(policy, retries, error) {
                let used = if uses_backoff(error) {
                    backoffs + 1
                } else {
                    backoffs
                };
                lemma_attempts_are_bounded(policy, retries + 1, used, script.drop_first());
            }
        }
    }
}

/// The caller sees how the last attempt ended and nothing of the attempts
/// before it: a failure is surfaced as it is, and every failure before the
/// last attempt was one that the policy retries.
pub proof fn lemma_last_attempt_is_surfaced(
    policy: RetryPolicy,
    retries: nat,
    backoffs: nat,
    script: Seq<Attempt>,
)
    requires
        execute(policy, retries, backoffs, script).outcome is Some,
    ensures
        0 < execute(policy, retries, backoffs, script).attempts <= script.len(),
        execute(policy, retries, backoffs, script).outcome == Some(
            script[execute(policy, retries, backoffs, script).attempts - 1],
        ),
        forall|i: int|
            0 <= i < execute(policy, retries, backoffs, script).attempts - 1 ==> (
            #[trigger] script[i] matches Attempt::Failure(error) && is_retryable(error)),
    decreases script.len(),
{
    if script.len() > 0 {
        if let Attempt::Failure(error) = script[0] {
            if grants_retry(policy, retries, error) {
                let used = if uses_backoff(error) {
                    backoffs + 1
                } else {
                    backoffs
                };
                let rest = script.drop_first();
                lemma_last_attempt_is_surfaced(policy, retries + 1, used, rest);
                let n = execute(policy, retries, backoffs, script).attempts;
                assert(rest[n - 2] == script[n - 1]);
                assert forall|i: int| 0 <= i < n - 1 implies (#[trigger] script[i] matches Attempt::Failure(
                    error,
                ) && is_retryable(error)) by {
                    if i > 0 {
                        assert(rest[i - 1] == script[i]);
                    }
                }
            }
        }
    }
}

/// A request whose first attempt fails with an error that is not retried
/// ends there: one attempt, no wait, and the error as it came.
pub proof fn lemma_no_attempt_after_final_error(
    policy: RetryPolicy,
    retries: nat,
    backoffs: nat,
    script: Seq<Attempt>,
)
    requires
        script.len() > 0,
        script[0] matches Attempt::Failure(error) && !grants_retry(policy, retries, error),
    ensures
        execute(policy, retries, backoffs, script).attempts == 1,
        execute(policy, retries, backoffs, script).waits.len() == 0,
        execute(policy, retries, backoffs, script).outcome == Some(script[0]),
{
}

/// With retries switched off a request is one attempt, whatever comes of it.
pub proof fn lemma_disabled_is_one_attempt(
    policy: RetryPolicy,
    retries: nat,
    backoffs: nat,
    script: Seq<Attempt>,
)
    requires
        !policy.enabled,
        script.len() > 0,
    ensures
        execute(policy, retries, backoffs, script).attempts == 1,
        execute(policy, retries, backoffs, script).waits.len() == 0,
        execute(policy, retries, backoffs, script).outcome == Some(script[0]),
{
}

} // verus!
