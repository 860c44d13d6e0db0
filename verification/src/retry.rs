//! Retry middleware state machine. One logical request is carried out as a
//! sequence of physical attempts: a successful attempt ends the sequence, a
//! permanent failure ends it at once, and a transient failure is retried
//! after an exponentially growing backoff delay until the attempt budget is
//! spent. Attempt numbering starts at 0 and the first attempt is never
//! delayed. The host program performs the physical attempts and the waits;
//! this module makes every decision.

use vstd::prelude::*;
use crate::classify::{AttemptClass, AttemptOutcome, assess_attempt, spec_assess};

verus! {

/// Default attempt budget: up to this many retries after the first attempt.
pub const DEFAULT_MAX_RETRIES: u32 = 3;

/// Default delay before the first retry, in milliseconds.
pub const DEFAULT_BASE_DELAY_MS: u64 = 1000;

/// Default cap on the backoff delay, in milliseconds.
pub const DEFAULT_MAX_DELAY_MS: u64 = 60000;

/// Upper limit on any configured delay: one day in milliseconds. Keeps the
/// doubling arithmetic far away from overflow.
pub const DELAY_LIMIT_MS: u64 = 86400000;

/// Retry configuration for one logical request: the retry budget and the
/// backoff shape.
#[derive(Clone, Copy, Debug, PartialEq, Eq, Structural)]
pub struct RetryPolicy {
    /// How many retries may follow the first attempt.
    pub max_retries: u32,
    /// Delay before the first retry, in milliseconds.
    pub base_delay_ms: u64,
    /// Cap on the backoff delay, in milliseconds.
    pub max_delay_ms: u64,
}

/// Progress of one logical request through its attempts: how many attempts
/// have already failed transiently.
#[derive(Clone, Copy, Debug, PartialEq, Eq, Structural)]
pub struct RetryState {
    /// Index of the attempt about to be made; 0 for the first attempt.
    pub attempt: u32,
}

/// How a finished logical request ended.
#[derive(Clone, Copy, Debug, PartialEq, Eq, Structural)]
pub enum RetryVerdict {
    /// An attempt was delivered successfully.
    Succeeded,
    /// An attempt failed permanently; no further attempt was made.
    FailedPermanent,
    /// The retry budget was spent on transient failures; the last transient
    /// error stands.
    FailedExhausted,
}

/// What the state machine asks for after classifying one attempt outcome:
/// wait and attempt again, or stop with a verdict.
#[derive(Clone, Copy, Debug, PartialEq, Eq, Structural)]
pub enum RetryTransition {
    Waiting { delay_ms: u64, next: RetryState },
    Finished { verdict: RetryVerdict },
}

impl RetryPolicy {
    /// A policy is well formed when its delays are positive, ordered, and
    /// bounded by the limit that keeps the doubling within `u64`.
    pub open spec fn wf(self) -> bool {
        1 <= self.base_delay_ms && self.base_delay_ms <= self.max_delay_ms
            && self.max_delay_ms <= DELAY_LIMIT_MS
    }

    /// Builds a policy from explicit bounds.
    pub fn new(max_retries: u32, base_delay_ms: u64, max_delay_ms: u64) -> (p: RetryPolicy)
        requires
            1 <= base_delay_ms <= max_delay_ms <= DELAY_LIMIT_MS,
        ensures
            p.max_retries == max_retries,
            p.base_delay_ms == base_delay_ms,
            p.max_delay_ms == max_delay_ms,
            p.wf(),
    {
        RetryPolicy { max_retries, base_delay_ms, max_delay_ms }
    }
}

impl Default for RetryPolicy {
    /// The default policy: the default retry budget and backoff shape.
    fn default() -> (p: RetryPolicy)
        ensures
            p.max_retries == DEFAULT_MAX_RETRIES,
            p.base_delay_ms == DEFAULT_BASE_DELAY_MS,
            p.max_delay_ms == DEFAULT_MAX_DELAY_MS,
            p.wf(),
    {
        RetryPolicy {
            max_retries: DEFAULT_MAX_RETRIES,
            base_delay_ms: DEFAULT_BASE_DELAY_MS,
            max_delay_ms: DEFAULT_MAX_DELAY_MS,
        }
    }
}

impl RetryState {
    /// The state before the first attempt.
    pub fn new() -> (s: RetryState)
        ensures
            s.attempt == 0,
    {
        RetryState { attempt: 0 }
    }
}

/// The backoff delay after failed attempt number `attempt`: the base delay
/// doubled per attempt, capped at the configured maximum.
pub open spec fn spec_backoff(p: RetryPolicy, attempt: nat) -> int
    decreases attempt,
{
    if attempt == 0 {
        p.base_delay_ms as int
    } else {
        let prev = spec_backoff(p, (attempt - 1) as nat);
        if 2 * prev <= p.max_delay_ms as int {
            2 * prev
        } else {
            p.max_delay_ms as int
        }
    }
}

/// The backoff delay always lies between the base delay and the cap.
pub proof fn lemma_backoff_bounds(p: RetryPolicy, attempt: nat)
    requires
        p.wf(),
    ensures
        p.base_delay_ms as int <= spec_backoff(p, attempt) <= p.max_delay_ms as int,
    decreases attempt,
{
    if attempt > 0 {
        lemma_backoff_bounds(p, (attempt - 1) as nat);
    }
}

/// The decision made after one classified attempt outcome: success and
/// permanent failure are terminal, a transient failure is retried after
/// `spec_backoff` while the budget lasts.
pub open spec fn spec_transition(
    p: RetryPolicy,
    st: RetryState,
    outcome: AttemptOutcome,
) -> RetryTransition {
    match spec_assess(outcome) {
        AttemptClass::Success => RetryTransition::Finished { verdict: RetryVerdict::Succeeded },
        AttemptClass::Permanent => RetryTransition::Finished {
            verdict: RetryVerdict::FailedPermanent,
        },
        AttemptClass::Transient => if st.attempt < p.max_retries {
            RetryTransition::Waiting {
                delay_ms: spec_backoff(p, st.attempt as nat) as u64,
                next: RetryState { attempt: (st.attempt + 1) as u32 },
            }
        } else {
            RetryTransition::Finished { verdict: RetryVerdict::FailedExhausted }
        },
    }
}

impl RetryPolicy {
    /// Computes the backoff delay after failed attempt number `attempt`, in
    /// milliseconds: the base delay doubled per attempt, capped at the
    /// configured maximum.
    pub fn backoff_delay_ms(&self, attempt: u32) -> (d: u64)
        requires
            self.wf(),
        ensures
            d as int == spec_backoff(*self, attempt as nat),
    {
        let mut d: u64 = self.base_delay_ms;
        let mut i: u32 = 0;
        while i < attempt
            invariant
                self.wf(),
                i <= attempt,
                d as int == spec_backoff(*self, i as nat),
                d <= self.max_delay_ms,
            decreases attempt - i,
        {
            let doubled = 2 * d;
            d = if doubled <= self.max_delay_ms {
                doubled
            } else {
                self.max_delay_ms
            };
            i = i + 1;
        }
        d
    }

    /// Classifies one attempt outcome and decides what follows: retry after
    /// the backoff delay while the budget lasts, otherwise stop with the
    /// verdict that the classification dictates.
    pub fn next_transition(&self, st: &RetryState, outcome: &AttemptOutcome) -> (t: RetryTransition)
        requires
            self.wf(),
        ensures
            t == spec_transition(*self, *st, *outcome),
    {
        match assess_attempt(outcome) {
            AttemptClass::Success => RetryTransition::Finished {
                verdict: RetryVerdict::Succeeded,
            },
            AttemptClass::Permanent => RetryTransition::Finished {
                verdict: RetryVerdict::FailedPermanent,
            },
            AttemptClass::Transient => {
                if st.attempt < self.max_retries {
                    let delay = self.backoff_delay_ms(st.attempt);
                    proof {
                        lemma_backoff_bounds(*self, st.attempt as nat);
                    }
                    RetryTransition::Waiting {
                        delay_ms: delay,
                        next: RetryState { attempt: st.attempt + 1 },
                    }
                } else {
                    RetryTransition::Finished { verdict: RetryVerdict::FailedExhausted }
                }
            },
        }
    }
}

/// The result of driving the state machine over a sequence of attempt
/// outcomes, starting before attempt number `i`: the number of attempts made
/// and the verdict, or `None` when the outcome sequence ran out first.
pub open spec fn spec_retry_run(
    p: RetryPolicy,
    outcomes: Seq<AttemptOutcome>,
    i: nat,
) -> (nat, Option<RetryVerdict>)
    decreases outcomes.len() - i,
{
    if i >= outcomes.len() {
        (i, None)
    } else {
        match spec_assess(outcomes[i as int]) {
            AttemptClass::Success => ((i + 1) as nat, Some(RetryVerdict::Succeeded)),
            AttemptClass::Permanent => ((i + 1) as nat, Some(RetryVerdict::FailedPermanent)),
            AttemptClass::Transient => if i < p.max_retries {
                spec_retry_run(p, outcomes, (i + 1) as nat)
            } else {
                ((i + 1) as nat, Some(RetryVerdict::FailedExhausted))
            },
        }
    }
}

/// Drives the state machine over a pre-recorded sequence of attempt
/// outcomes, where `outcomes[k]` is what attempt number `k` would report.
/// Returns the number of attempts made and the verdict, or `None` when the
/// sequence ran out before a verdict was reached.
pub fn run_attempts(p: &RetryPolicy, outcomes: &Vec<AttemptOutcome>) -> (r: (
    usize,
    Option<RetryVerdict>,
))
    requires
        p.wf(),
    ensures
        r.0 as nat == spec_retry_run(*p, outcomes@, 0).0,
        r.1 == spec_retry_run(*p, outcomes@, 0).1,
{
    let mut st = RetryState::new();
    loop
        invariant
            p.wf(),
            st.attempt <= outcomes.len(),
            spec_retry_run(*p, outcomes@, 0) == spec_retry_run(*p, outcomes@, st.attempt as nat),
        decreases outcomes.len() - st.attempt,
    {
        let i = st.attempt as usize;
        if i >= outcomes.len() {
            return (i, None);
        }
        match p.next_transition(&st, &outcomes[i]) {
            RetryTransition::Finished { verdict } => {
                return (i + 1, Some(verdict));
            },
            RetryTransition::Waiting { delay_ms: _, next } => {
                st = next;
            },
        }
    }
}

/// Law: with a transport that only ever fails transiently, exactly
/// `max_retries + 1` attempts are made and the run ends exhausted.
pub proof fn lemma_retry_exhausts_budget(p: RetryPolicy, outcomes: Seq<AttemptOutcome>)
    requires
        p.wf(),
        outcomes.len() >= p.max_retries + 1,
        forall|i: int| 0 <= i < outcomes.len() ==> spec_assess(outcomes[i]) == AttemptClass::Transient,
    ensures
        spec_retry_run(p, outcomes, 0) == (((p.max_retries + 1) as nat), Some(
            RetryVerdict::FailedExhausted,
        )),
{
    lemma_retry_exhausts_from(p, outcomes, 0);
}

proof fn lemma_retry_exhausts_from(p: RetryPolicy, outcomes: Seq<AttemptOutcome>, i: nat)
    requires
        p.wf(),
        outcomes.len() >= p.max_retries + 1,
        i <= p.max_retries,
        forall|j: int| 0 <= j < outcomes.len() ==> spec_assess(outcomes[j]) == AttemptClass::Transient,
    ensures
        spec_retry_run(p, outcomes, i) == (((p.max_retries + 1) as nat), Some(
            RetryVerdict::FailedExhausted,
        )),
    decreases p.max_retries - i,
{
    if i < p.max_retries {
        lemma_retry_exhausts_from(p, outcomes, (i + 1) as nat);
    }
}

/// Law: with a transport that fails transiently until attempt number `k - 1`
/// succeeds, exactly `k` attempts are made and the run succeeds, provided
/// `k` is within the attempt budget.
pub proof fn lemma_retry_succeeds_at(p: RetryPolicy, outcomes: Seq<AttemptOutcome>, k: nat)
    requires
        p.wf(),
        1 <= k <= p.max_retries + 1,
        k <= outcomes.len(),
        forall|i: int| 0 <= i < k - 1 ==> spec_assess(outcomes[i]) == AttemptClass::Transient,
        spec_assess(outcomes[k - 1]) == AttemptClass::Success,
    ensures
        spec_retry_run(p, outcomes, 0) == ((k, Some(RetryVerdict::Succeeded))),
{
    lemma_retry_succeeds_from(p, outcomes, k, 0);
}

proof fn lemma_retry_succeeds_from(p: RetryPolicy, outcomes: Seq<AttemptOutcome>, k: nat, i: nat)
    requires
        p.wf(),
        1 <= k <= p.max_retries + 1,
        k <= outcomes.len(),
        i <= k - 1,
        forall|j: int| 0 <= j < k - 1 ==> spec_assess(outcomes[j]) == AttemptClass::Transient,
        spec_assess(outcomes[k - 1]) == AttemptClass::Success,
    ensures
        spec_retry_run(p, outcomes, i) == ((k, Some(RetryVerdict::Succeeded))),
    decreases k - i,
{
    if i < k - 1 {
        lemma_retry_succeeds_from(p, outcomes, k, (i + 1) as nat);
    }
}

} // verus!
