use vstd::prelude::*;
use vstd::arithmetic::power2::pow2;

verus! {

/// The shape of one bounded-retry run: a first attempt and up to `retries`
/// further ones, with a configurable delay before each retry that doubles
/// when exponential backoff is on.
#[derive(Debug, Clone, PartialEq, Eq, Structural)]
pub struct RetryPolicy {
    /// How many retries may follow the first attempt.
    pub retries: u8,
    /// The delay before the first retry, in milliseconds.
    pub initial_sleep_ms: u64,
    /// Whether the delay doubles before each further retry.
    pub exponential_backoff: bool,
}

/// The delay before the i-th retry (1-indexed): the initial delay, doubled
/// i - 1 times when backoff is exponential.
pub open spec fn spec_delay_before_retry(policy: RetryPolicy, i: nat) -> int
    recommends
        i >= 1,
{
    if policy.exponential_backoff {
        policy.initial_sleep_ms * pow2((i - 1) as nat)
    } else {
        policy.initial_sleep_ms as int
    }
}

/// No delay of the run overflows: the largest one still fits in 64 bits.
pub open spec fn policy_wf(policy: RetryPolicy) -> bool {
    policy.exponential_backoff ==> policy.initial_sleep_ms * pow2(policy.retries as nat)
        <= u64::MAX
}

/// The delay before the i-th retry of a run.
pub fn delay_before_retry(policy: &RetryPolicy, i: u8) -> (r: u64)
    requires
        policy_wf(*policy),
        1 <= i <= policy.retries,
    ensures
        r == spec_delay_before_retry(*policy, i as nat),
{
    if !policy.exponential_backoff {
        return policy.initial_sleep_ms;
    }
    let mut k: u8 = 1;
    let mut d: u64 = policy.initial_sleep_ms;
    proof {
        vstd::arithmetic::power2::lemma2_to64();
        assert(pow2(0) == 1);
        assert(policy.initial_sleep_ms * pow2(0) == policy.initial_sleep_ms) by (nonlinear_arith)
            requires
                pow2(0) == 1,
        ;
    }
    while k < i
        invariant
            1 <= k <= i <= policy.retries,
            policy.exponential_backoff,
            policy_wf(*policy),
            d == policy.initial_sleep_ms * pow2((k - 1) as nat),
        decreases i - k,
    {
        proof {
            vstd::arithmetic::power2::lemma_pow2_unfold(k as nat);
            if (k as nat) < (policy.retries as nat) {
                vstd::arithmetic::power2::lemma_pow2_strictly_increases(
                    k as nat,
                    policy.retries as nat,
                );
            }
            assert(policy.initial_sleep_ms * pow2(k as nat) <= policy.initial_sleep_ms * pow2(
                policy.retries as nat,
            )) by (nonlinear_arith)
                requires
                    pow2(k as nat) <= pow2(policy.retries as nat),
                    policy.initial_sleep_ms >= 0,
            ;
            assert(policy.initial_sleep_ms * pow2(k as nat) == 2 * (policy.initial_sleep_ms * pow2(
                (k - 1) as nat,
            ))) by (nonlinear_arith)
                requires
                    pow2(k as nat) == 2 * pow2((k - 1) as nat),
            ;
        }
        d = d * 2;
        k = k + 1;
    }
    d
}

/// What one attempt of the retried task came to.
#[derive(Debug, Clone, PartialEq, Eq)]
pub enum AttemptOutcome {
    /// The task succeeded; retrying stops.
    Success,
    /// The task failed in a way worth retrying, with the error it reported.
    TransientFailure(String),
}

/// Where a retry run stands between attempts. The driver performs one
/// attempt, reports the outcome, and is told whether to stop or to sleep
/// and retry.
#[derive(Debug, Clone, PartialEq, Eq)]
pub struct RetryState {
    pub policy: RetryPolicy,
    /// Attempts made so far.
    pub attempts_made: u16,
}

/// What the driver must do next.
#[derive(Debug, Clone, PartialEq, Eq)]
pub enum RetryDecision {
    /// Stop: the run succeeded.
    Done,
    /// Stop: the budget is spent; the carried text is the last error.
    GiveUp(String),
    /// Sleep this many milliseconds, then attempt again.
    RetryAfter(u64),
}

impl RetryState {
    /// A run that has not attempted anything yet.
    pub fn new(policy: RetryPolicy) -> (r: RetryState)
        ensures
            r.policy == policy,
            r.attempts_made == 0,
    {
        RetryState { policy, attempts_made: 0 }
    }

    /// Accounts one attempt and decides: success stops the run; a transient
    /// failure is retried with the right delay while the budget lasts, and
    /// ends the run with the last error once it is spent.
    pub fn on_outcome(&mut self, outcome: AttemptOutcome) -> (r: RetryDecision)
        requires
            policy_wf(old(self).policy),
            old(self).attempts_made <= old(self).policy.retries as u16,
        ensures
            final(self).policy == old(self).policy,
            final(self).attempts_made == old(self).attempts_made + 1,
            outcome == AttemptOutcome::Success ==> r == RetryDecision::Done,
            outcome matches AttemptOutcome::TransientFailure(e) ==> ({
                &&& old(self).attempts_made < old(self).policy.retries ==> (r matches
                RetryDecision::RetryAfter(d) && d == spec_delay_before_retry(
                    old(self).policy,
                    (old(self).attempts_made + 1) as nat,
                ))
                &&& old(self).attempts_made == old(self).policy.retries ==> r
                    == RetryDecision::GiveUp(e)
            }),
    {
        self.attempts_made = self.attempts_made + 1;
        match outcome {
            AttemptOutcome::Success => RetryDecision::Done,
            AttemptOutcome::TransientFailure(e) => {
                if self.attempts_made <= self.policy.retries as u16 {
                    RetryDecision::RetryAfter(
                        delay_before_retry(&self.policy, self.attempts_made as u8),
                    )
                } else {
                    RetryDecision::GiveUp(e)
                }
            },
        }
    }
}

/// How many attempts a run makes on a given outcome sequence: one more than
/// the number of leading transient failures, capped by the budget.
pub open spec fn spec_attempts_used(outcomes: Seq<AttemptOutcome>, retries: nat) -> nat
    decreases retries,
{
    if outcomes.len() == 0 || outcomes[0] is Success || retries == 0 {
        1
    } else {
        1 + spec_attempts_used(outcomes.drop_first(), (retries - 1) as nat)
    }
}

/// Runs the retry loop against a pre-recorded sequence of outcomes, exactly
/// as the driver runs it against live attempts, and reports what happened:
/// whether the run succeeded, how many attempts it made, and the delays it
/// slept between them.
///
/// Law: with a task that fails transiently `k` times and then succeeds,
/// a budget of `retries >= k` yields success after exactly `k + 1`
/// attempts, a budget of `retries < k` gives up after `retries + 1`
/// attempts, and the delay before retry `i` is the initial delay, doubled
/// `i - 1` times when backoff is exponential.
pub fn run_retry_schedule(outcomes: &Vec<AttemptOutcome>, policy: RetryPolicy) -> (r: (
    bool,
    u64,
    Vec<u64>,
))
    requires
        policy_wf(policy),
        outcomes@.len() > policy.retries,
    ensures
        ({
            let succeeded = r.0;
            let attempts = r.1;
            let delays = r.2;
            &&& attempts == spec_attempts_used(outcomes@, policy.retries as nat)
            &&& succeeded == (outcomes@[attempts - 1] is Success)
            &&& (forall|k: int|
                0 <= k < attempts - 1 ==> #[trigger] outcomes@[k] is TransientFailure)
            &&& delays@.len() == attempts - 1
            &&& (forall|i: int|
                0 <= i < delays@.len() ==> #[trigger] delays@[i] == spec_delay_before_retry(
                    policy,
                    (i + 1) as nat,
                ))
        }),
{
    let mut state = RetryState::new(policy);
    let mut delays: Vec<u64> = Vec::new();
    let mut idx: usize = 0;
    proof {
        assert(outcomes@.skip(0) =~= outcomes@);
    }
    loop
        invariant
            policy_wf(policy),
            state.policy == policy,
            outcomes@.len() > policy.retries,
            state.attempts_made == idx,
            idx <= policy.retries,
            forall|k: int| 0 <= k < idx ==> #[trigger] outcomes@[k] is TransientFailure,
            spec_attempts_used(outcomes@, policy.retries as nat) == idx + spec_attempts_used(
                outcomes@.skip(idx as int),
                (policy.retries - idx) as nat,
            ),
            delays@.len() == idx,
            forall|i: int|
                0 <= i < idx ==> #[trigger] delays@[i] == spec_delay_before_retry(
                    policy,
                    (i + 1) as nat,
                ),
        decreases policy.retries - idx,
    {
        let outcome = match &outcomes[idx] {
            AttemptOutcome::Success => AttemptOutcome::Success,
            AttemptOutcome::TransientFailure(e) => AttemptOutcome::TransientFailure(e.clone()),
        };
        let decision = state.on_outcome(outcome);
        proof {
            assert(outcomes@.skip(idx as int)[0] == outcomes@[idx as int]);
        }
        match decision {
            RetryDecision::Done => {
                proof {
                    assert(spec_attempts_used(
                        outcomes@.skip(idx as int),
                        (policy.retries - idx) as nat,
                    ) == 1);
                }
                return (true, (idx + 1) as u64, delays);
            },
            RetryDecision::GiveUp(_) => {
                proof {
                    assert(spec_attempts_used(
                        outcomes@.skip(idx as int),
                        (policy.retries - idx) as nat,
                    ) == 1);
                }
                return (false, (idx + 1) as u64, delays);
            },
            RetryDecision::RetryAfter(d) => {
                delays.push(d);
                proof {
                    assert(outcomes@.skip(idx as int).drop_first() =~= outcomes@.skip(
                        idx + 1 as int,
                    ));
                }
                idx = idx + 1;
            },
        }
    }
}

} // verus!
