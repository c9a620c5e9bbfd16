//! Exponential backoff with jitter, for the retries of one call. Elapsed time
//! is counted as the sum of the sleeps between attempts, not read from a
//! clock, so that every decision is a function of the policy, the outcomes and
//! the random draws. Each retry spends at least one millisecond of the budget,
//! which bounds the number of attempts even where the interval is zero.

use vstd::prelude::*;

use crate::errors::AnthropicError;
use crate::transport::ResponseOutcome;

verus! {

/// Spacing and budget of the retries of one call. Times are in milliseconds;
/// the multiplier and the randomization factor are in thousandths
/// (`2000` doubles the interval, `50` jitters each sleep by up to 5%).
#[derive(Clone, Copy, Debug, PartialEq, Eq, Structural)]
pub struct BackoffPolicy {
    pub initial_interval_ms: u64,
    pub multiplier_permille: u64,
    pub randomization_permille: u64,
    pub max_elapsed_ms: u64,
}

/// The policy of a client that was given none: 15 s, doubling, 5% jitter, at
/// most 120 s in all.
pub open spec fn standard_policy() -> BackoffPolicy {
    BackoffPolicy {
        initial_interval_ms: 15000,
        multiplier_permille: 2000,
        randomization_permille: 50,
        max_elapsed_ms: 120000,
    }
}

impl BackoffPolicy {
    /// The policy of a client that was given none.
    pub fn standard() -> (r: BackoffPolicy)
        ensures
            r == standard_policy(),
    {
        BackoffPolicy {
            initial_interval_ms: 15000,
            multiplier_permille: 2000,
            randomization_permille: 50,
            max_elapsed_ms: 120000,
        }
    }
}

pub open spec fn saturate(x: int) -> u64 {
    if x > u64::MAX {
        u64::MAX
    } else if x < 0 {
        0
    } else {
        x as u64
    }
}

/// How far a sleep may stray from the interval: the randomization factor of
/// it, never more than the interval itself.
pub open spec fn jitter_span(interval: u64, randomization_permille: u64) -> int {
    let d = interval * randomization_permille / 1000;
    if d > interval {
        interval as int
    } else {
        d
    }
}

/// The sleep that a random `draw` picks, uniformly over
/// `interval - span ..= interval + span`.
pub open spec fn jittered_sleep(interval: u64, randomization_permille: u64, draw: u64) -> u64 {
    let d = jitter_span(interval, randomization_permille);
    saturate(interval - d + (draw as int) % (2 * d + 1))
}

/// The interval after one more retry.
pub open spec fn scaled_interval(interval: u64, multiplier_permille: u64) -> u64 {
    saturate(interval * multiplier_permille / 1000)
}

/// What a sleep of `ms` costs of the budget: at least one millisecond.
pub open spec fn charged(ms: u64) -> int {
    if ms == 0 {
        1
    } else {
        ms as int
    }
}

/// The retry state of one call: the policy, the interval to wait next, and the
/// time already spent sleeping.
#[derive(Clone, Copy, Debug, PartialEq, Eq, Structural)]
pub struct RetryState {
    pub policy: BackoffPolicy,
    pub interval_ms: u64,
    pub elapsed_ms: u64,
}

/// What to do after an attempt.
#[derive(Debug)]
pub enum RetryStep<T> {
    /// The call is over, with this result.
    Finish(Result<T, AnthropicError>),
    /// Sleep this many milliseconds, then attempt again.
    Wait(u64),
}

impl RetryState {
    pub open spec fn fresh(policy: BackoffPolicy) -> RetryState {
        RetryState { policy, interval_ms: policy.initial_interval_ms, elapsed_ms: 0 }
    }

    /// Whether the budget allows one more retry.
    pub open spec fn has_budget(self) -> bool {
        self.elapsed_ms + charged(self.interval_ms) <= self.policy.max_elapsed_ms
    }

    pub open spec fn sleep_for(self, draw: u64) -> u64 {
        jittered_sleep(self.interval_ms, self.policy.randomization_permille, draw)
    }

    /// The state after sleeping before a retry.
    pub open spec fn advanced(self, draw: u64) -> RetryState {
        RetryState {
            policy: self.policy,
            interval_ms: scaled_interval(self.interval_ms, self.policy.multiplier_permille),
            elapsed_ms: saturate(self.elapsed_ms + charged(self.sleep_for(draw))),
        }
    }

    /// The state and the step after an attempt came to `outcome`: an answer or
    /// a terminal failure ends the call; a recoverable failure is retried while
    /// the budget lasts and is the result once it is spent.
    pub open spec fn decide<T>(self, outcome: ResponseOutcome<T>, draw: u64) -> (RetryState, RetryStep<T>) {
        match outcome {
            ResponseOutcome::Success(v) => (self, RetryStep::Finish(Ok(v))),
            ResponseOutcome::TerminalFailure(e) => (self, RetryStep::Finish(Err(e))),
            ResponseOutcome::RecoverableFailure(e) => if self.has_budget() {
                (self.advanced(draw), RetryStep::Wait(self.sleep_for(draw)))
            } else {
                (self, RetryStep::Finish(Err(e)))
            },
        }
    }

    /// A fresh state for one call.
    pub fn new(policy: BackoffPolicy) -> (r: RetryState)
        ensures
            r == RetryState::fresh(policy),
    {
        RetryState { policy, interval_ms: policy.initial_interval_ms, elapsed_ms: 0 }
    }

    /// Decides what follows an attempt that came to `outcome`; `draw` is a
    /// random number that jitters the sleep.
    pub fn settle<T>(&mut self, outcome: ResponseOutcome<T>, draw: u64) -> (r: RetryStep<T>)
        ensures
            (*final(self), r) == old(self).decide(outcome, draw),
    {
        match outcome {
            ResponseOutcome::Success(v) => RetryStep::Finish(Ok(v)),
            ResponseOutcome::TerminalFailure(e) => RetryStep::Finish(Err(e)),
            ResponseOutcome::RecoverableFailure(e) => {
                let cost: u64 = if self.interval_ms == 0 {
                    1
                } else {
                    self.interval_ms
                };
                if (self.elapsed_ms as u128) + (cost as u128) > self.policy.max_elapsed_ms as u128 {
                    RetryStep::Finish(Err(e))
                } else {
                    let sleep = sleep_millis(
                        self.interval_ms,
                        self.policy.randomization_permille,
                        draw,
                    );
                    self.interval_ms = scale_interval(
                        self.interval_ms,
                        self.policy.multiplier_permille,
                    );
                    let spent: u64 = if sleep == 0 {
                        1
                    } else {
                        sleep
                    };
                    self.elapsed_ms = clamp_u128((self.elapsed_ms as u128) + (spent as u128));
                    RetryStep::Wait(sleep)
                }
            },
        }
    }
}

/// The attempts of one call against a server that answers the attempts in
/// order with `outcomes`, the sleeps jittered by `draws`: how many attempts
/// are made, and the result, or `None` where the answers ran out first.
pub open spec fn run<T>(s: RetryState, outcomes: Seq<ResponseOutcome<T>>, draws: Seq<u64>) -> (
    nat,
    Option<Result<T, AnthropicError>>,
)
    decreases outcomes.len(),
{
    if outcomes.len() == 0 {
        (0, None)
    } else {
        match s.decide(outcomes[0], draws[0]) {
            (_, RetryStep::Finish(r)) => (1, Some(r)),
            (next, RetryStep::Wait(_)) => {
                let rest = run(next, outcomes.drop_first(), draws.drop_first());
                (rest.0 + 1, rest.1)
            },
        }
    }
}

/// The state after `j` retries whose sleeps were jittered by `draws`.
pub open spec fn state_after(s: RetryState, draws: Seq<u64>, j: nat) -> RetryState
    decreases j,
{
    if j == 0 {
        s
    } else {
        state_after(s.advanced(draws[0]), draws.drop_first(), (j - 1) as nat)
    }
}

/// Without a time budget a call makes exactly one attempt, whatever it comes
/// to.
pub proof fn lemma_no_budget_single_attempt<T>(
    policy: BackoffPolicy,
    outcomes: Seq<ResponseOutcome<T>>,
    draws: Seq<u64>,
)
    requires
        policy.max_elapsed_ms == 0,
        outcomes.len() >= 1,
    ensures
        run(RetryState::fresh(policy), outcomes, draws).0 == 1,
        outcomes[0] is RecoverableFailure ==> run(RetryState::fresh(policy), outcomes, draws).1
            == Some(Err::<T, AnthropicError>(outcomes[0]->RecoverableFailure_0)),
{
}

/// The most attempts a call can make from `s`: one, plus one per millisecond
/// of budget left.
pub open spec fn attempt_bound(s: RetryState) -> int {
    if s.elapsed_ms <= s.policy.max_elapsed_ms {
        s.policy.max_elapsed_ms - s.elapsed_ms + 1
    } else {
        1
    }
}

/// However the server answers, a call makes at most one attempt more than
/// there are milliseconds in its budget: retries always end.
pub proof fn lemma_attempts_bounded<T>(
    s: RetryState,
    outcomes: Seq<ResponseOutcome<T>>,
    draws: Seq<u64>,
)
    ensures
        run(s, outcomes, draws).0 <= attempt_bound(s),
    decreases outcomes.len(),
{
    if outcomes.len() > 0 {
        match s.decide(outcomes[0], draws[0]) {
            (next, RetryStep::Wait(_)) => {
                assert(next == s.advanced(draws[0]));
                assert(next.elapsed_ms >= s.elapsed_ms + 1);
                lemma_attempts_bounded(next, outcomes.drop_first(), draws.drop_first());
            },
            _ => {},
        }
    }
}

/// When the first `n` attempts fail recoverably, the next one succeeds, and the
/// budget allows each of the `n` retries, the call makes exactly `n + 1`
/// attempts and returns the answer.
pub proof fn lemma_retries_until_success<T>(
    s: RetryState,
    outcomes: Seq<ResponseOutcome<T>>,
    draws: Seq<u64>,
    n: nat,
    answer: T,
)
    requires
        outcomes.len() == n + 1,
        forall|j: int| 0 <= j < n ==> #[trigger] outcomes[j] is RecoverableFailure,
        outcomes[n as int] == ResponseOutcome::<T>::Success(answer),
        forall|j: nat| j < n ==> #[trigger] state_after(s, draws, j).has_budget(),
    ensures
        run(s, outcomes, draws) == (n + 1, Some(Ok::<T, AnthropicError>(answer))),
    decreases n,
{
    if n > 0 {
        let next = s.advanced(draws[0]);
        assert(state_after(s, draws, 0) == s);
        assert forall|j: nat| j < (n - 1) as nat implies #[trigger] state_after(
            next,
            draws.drop_first(),
            j,
        ).has_budget() by {
            assert(state_after(s, draws, j + 1) == state_after(next, draws.drop_first(), j));
            assert(state_after(s, draws, j + 1).has_budget());
        }
        let rest = outcomes.drop_first();
        assert forall|j: int| 0 <= j < n - 1 implies #[trigger] rest[j] is RecoverableFailure by {
            assert(outcomes[j + 1] is RecoverableFailure);
        }
        assert(outcomes[0] is RecoverableFailure);
        lemma_retries_until_success(next, rest, draws.drop_first(), (n - 1) as nat, answer);
    }
}

/// When every attempt is rate limited and the budget is spent before `n`
/// retries, the call ends after at most `n` attempts with the error of its
/// last attempt, a rate limiting error: neither an answer nor a failure of the
/// network.
pub proof fn lemma_budget_exhausted<T>(
    s: RetryState,
    outcomes: Seq<ResponseOutcome<T>>,
    draws: Seq<u64>,
    n: nat,
    spent: nat,
)
    requires
        outcomes.len() == n,
        forall|j: int|
            0 <= j < n ==> (#[trigger] outcomes[j] is RecoverableFailure
                && outcomes[j]->RecoverableFailure_0 is ApiError),
        spent < n,
        !state_after(s, draws, spent).has_budget(),
    ensures
        run(s, outcomes, draws).0 <= n,
        run(s, outcomes, draws).1 matches Some(Err(AnthropicError::ApiError(_))),
        1 <= run(s, outcomes, draws).0,
        run(s, outcomes, draws).1 == Some(
            Err::<T, AnthropicError>(outcomes[run(s, outcomes, draws).0 - 1]->RecoverableFailure_0),
        ),
    decreases n,
{
    assert(outcomes[0] is RecoverableFailure);
    if s.has_budget() {
        let next = s.advanced(draws[0]);
        assert(spent > 0);
        assert(state_after(s, draws, spent) == state_after(
            next,
            draws.drop_first(),
            (spent - 1) as nat,
        ));
        let rest = outcomes.drop_first();
        assert forall|j: int| 0 <= j < n - 1 implies (#[trigger] rest[j] is RecoverableFailure
            && rest[j]->RecoverableFailure_0 is ApiError) by {
            assert(outcomes[j + 1] is RecoverableFailure);
        }
        lemma_budget_exhausted(next, rest, draws.drop_first(), (n - 1) as nat, (spent - 1) as nat);
        let k = run(next, rest, draws.drop_first()).0;
        assert(rest[k - 1] == outcomes[k as int]);
    }
}

/// Each sleep strays from the interval by at most the randomization factor of
/// it (and never below zero), whatever the random draw.
pub proof fn lemma_sleep_within_jitter(interval: u64, randomization_permille: u64, draw: u64)
    ensures
        interval - jitter_span(interval, randomization_permille) <= jittered_sleep(
            interval,
            randomization_permille,
            draw,
        ),
        jittered_sleep(interval, randomization_permille, draw) <= interval + jitter_span(
            interval,
            randomization_permille,
        ),
        jitter_span(interval, randomization_permille) * 1000 <= interval * randomization_permille,
        randomization_permille == 0 ==> jittered_sleep(interval, randomization_permille, draw)
            == interval,
{
    let d = jitter_span(interval, randomization_permille);
    assert(0 <= (draw as int) % (2 * d + 1) < 2 * d + 1);
    assert((interval as int) * (randomization_permille as int) >= 0) by (nonlinear_arith);
    if randomization_permille == 0 {
        assert((interval as int) * (randomization_permille as int) == 0) by (nonlinear_arith)
            requires
                randomization_permille == 0,
        ;
    }
}

fn clamp_u128(x: u128) -> (r: u64)
    ensures
        r == saturate(x as int),
{
    if x > u64::MAX as u128 {
        u64::MAX
    } else {
        x as u64
    }
}

/// The jittered sleep before the next retry.
fn sleep_millis(interval: u64, randomization_permille: u64, draw: u64) -> (r: u64)
    ensures
        r == jittered_sleep(interval, randomization_permille, draw),
{
    let i = interval as u128;
    assert((interval as int) * (randomization_permille as int) <= u64::MAX * u64::MAX)
        by (nonlinear_arith);
    let p = i * (randomization_permille as u128);
    let scaled = p / 1000;
    let d = if scaled > i {
        i
    } else {
        scaled
    };
    assert(d == jitter_span(interval, randomization_permille));
    let offset = (draw as u128) % (2 * d + 1);
    clamp_u128(i - d + offset)
}

/// The interval after one more retry.
fn scale_interval(interval: u64, multiplier_permille: u64) -> (r: u64)
    ensures
        r == scaled_interval(interval, multiplier_permille),
{
    assert((interval as int) * (multiplier_permille as int) <= u64::MAX * u64::MAX)
        by (nonlinear_arith);
    clamp_u128((interval as u128) * (multiplier_permille as u128) / 1000)
}

} // verus!
