//! Bounded retry of a fetch: after a failure the caller waits a fixed delay
//! and tries again, until the attempt budget is spent.

use vstd::prelude::*;

verus! {

/// Attempts a download gets in the crawl path.
pub const CRAWL_MAX_ATTEMPTS: u32 = 5;

/// Delay between two attempts in the crawl path, in milliseconds.
pub const CRAWL_BACKOFF_MS: u64 = 1000;

/// How often a fetch is tried, and how long to wait between two tries.
#[derive(Debug, Clone, Copy, PartialEq, Eq)]
pub struct RetryPolicy {
    pub max_attempts: u32,
    pub backoff_ms: u64,
}

impl RetryPolicy {
    /// The policy of the crawl path: five attempts, one second apart.
    pub fn crawl() -> (r: RetryPolicy)
        ensures
            r.max_attempts == CRAWL_MAX_ATTEMPTS,
            r.backoff_ms == CRAWL_BACKOFF_MS,
    {
        RetryPolicy { max_attempts: CRAWL_MAX_ATTEMPTS, backoff_ms: CRAWL_BACKOFF_MS }
    }
}

/// A fetch that failed for good.
#[derive(Debug, Clone, PartialEq, Eq)]
pub enum FetchError {
    /// Every attempt failed; `last` is the error of the last one.
    Exhausted { attempts: u32, last: String },
}

/// What to do after a failed attempt.
#[derive(Debug, Clone, PartialEq, Eq)]
pub enum RetryStep {
    /// Wait this many milliseconds, then try again.
    Wait(u64),
    /// Stop: the fetch failed.
    GiveUp(FetchError),
}

/// After `failures` failed attempts, the last one just now, the budget of
/// `max_attempts` is spent.
pub open spec fn gives_up(max_attempts: nat, failures: nat) -> bool {
    failures >= max_attempts
}

/// The retry state of one fetch.
pub struct Retry {
    policy: RetryPolicy,
    failures: u32,
}

impl Retry {
    pub closed spec fn max_attempts(&self) -> nat {
        self.policy.max_attempts as nat
    }

    pub closed spec fn backoff_ms(&self) -> u64 {
        self.policy.backoff_ms
    }

    /// Failed attempts so far.
    pub closed spec fn failures(&self) -> nat {
        self.failures as nat
    }

    /// Still trying: fewer failures than attempts.
    pub open spec fn wf(&self) -> bool {
        self.failures() < self.max_attempts()
    }

    /// A fetch that has not been tried yet. A budget of zero attempts is
    /// taken as one: a fetch is always tried.
    pub fn new(policy: RetryPolicy) -> (r: Retry)
        ensures
            r.wf(),
            r.failures() == 0,
            r.max_attempts() == if policy.max_attempts == 0 {
                1
            } else {
                policy.max_attempts
            },
            r.backoff_ms() == policy.backoff_ms,
    {
        let max_attempts = if policy.max_attempts == 0 {
            1
        } else {
            policy.max_attempts
        };
        Retry { policy: RetryPolicy { max_attempts, backoff_ms: policy.backoff_ms }, failures: 0 }
    }

    /// Failed attempts so far.
    pub fn attempts_failed(&self) -> (r: u32)
        ensures
            r == self.failures(),
    {
        self.failures
    }

    /// Records a failed attempt with its error. The fetch is tried again
    /// after the fixed delay, unless this was the last attempt: then it fails
    /// for good with this error.
    pub fn on_failure(&mut self, error: String) -> (r: RetryStep)
        requires
            old(self).wf(),
        ensures
            final(self).failures() == old(self).failures() + 1,
            final(self).max_attempts() == old(self).max_attempts(),
            final(self).backoff_ms() == old(self).backoff_ms(),
            !gives_up(final(self).max_attempts(), final(self).failures()) ==> final(self).wf()
                && r == RetryStep::Wait(old(self).backoff_ms()),
            gives_up(final(self).max_attempts(), final(self).failures()) ==> r == RetryStep::GiveUp(
                FetchError::Exhausted { attempts: final(self).failures() as u32, last: error },
            ),
    {
        self.failures = self.failures + 1;
        if self.failures >= self.policy.max_attempts {
            RetryStep::GiveUp(FetchError::Exhausted { attempts: self.failures, last: error })
        } else {
            RetryStep::Wait(self.policy.backoff_ms)
        }
    }
}

/// How a fetch ends, attempt by attempt: `ok[k]` tells whether attempt `k`
/// (from 0) succeeds.
pub enum RunEnd {
    /// Attempt number `attempt` (from 0) succeeded.
    Succeeded(nat),
    /// Every one of the attempts failed.
    Exhausted(nat),
    /// The outcomes ran out before the fetch ended.
    Open,
}

/// The end of a fetch driven by `Retry`, from `failures` failed attempts on.
pub open spec fn run_end(max_attempts: nat, failures: nat, ok: Seq<bool>) -> RunEnd
    decreases ok.len(),
{
    if ok.len() == 0 {
        RunEnd::Open
    } else if ok[0] {
        RunEnd::Succeeded(failures)
    } else if gives_up(max_attempts, failures + 1) {
        RunEnd::Exhausted(failures + 1)
    } else {
        run_end(max_attempts, failures + 1, ok.drop_first())
    }
}

/// A fetch with a budget of `max_attempts` succeeds exactly when one of its
/// first `max_attempts` attempts does, and then at the first such attempt;
/// when all of them fail it ends exhausted after `max_attempts` attempts.
pub proof fn lemma_retry_run(max_attempts: nat, ok: Seq<bool>)
    requires
        max_attempts >= 1,
        ok.len() >= max_attempts,
    ensures
        forall|k: int|
            0 <= k < max_attempts && ok[k] && (forall|j: int| 0 <= j < k ==> !ok[j]) ==> run_end(
                max_attempts,
                0,
                ok,
            ) == RunEnd::Succeeded(k as nat),
        (forall|j: int| 0 <= j < max_attempts ==> !ok[j]) ==> run_end(max_attempts, 0, ok)
            == RunEnd::Exhausted(max_attempts),
{
    lemma_retry_run_from(max_attempts, 0, ok);
}

proof fn lemma_retry_run_from(max_attempts: nat, failures: nat, ok: Seq<bool>)
    requires
        failures < max_attempts,
        ok.len() + failures >= max_attempts,
    ensures
        forall|k: int|
            0 <= k < max_attempts - failures && ok[k] && (forall|j: int| 0 <= j < k ==> !ok[j])
                ==> run_end(max_attempts, failures, ok) == RunEnd::Succeeded((failures + k) as nat),
        (forall|j: int| 0 <= j < max_attempts - failures ==> !ok[j]) ==> run_end(
            max_attempts,
            failures,
            ok,
        ) == RunEnd::Exhausted(max_attempts),
    decreases ok.len(),
{
    if !ok[0] && !gives_up(max_attempts, failures + 1) {
        let rest = ok.drop_first();
        lemma_retry_run_from(max_attempts, failures + 1, rest);
        assert forall|k: int|
            0 <= k < max_attempts - failures && ok[k] && (forall|j: int| 0 <= j < k ==> !ok[j])
                implies run_end(max_attempts, failures, ok) == RunEnd::Succeeded(
            (failures + k) as nat,
        ) by {
            assert(k >= 1);
            assert(rest[k - 1] == ok[k]);
            assert forall|j: int| 0 <= j < k - 1 implies !rest[j] by {
                assert(rest[j] == ok[j + 1]);
            }
        }
        if forall|j: int| 0 <= j < max_attempts - failures ==> !ok[j] {
            assert forall|j: int| 0 <= j < max_attempts - (failures + 1) implies !rest[j] by {
                assert(rest[j] == ok[j + 1]);
            }
        }
    }
}

} // verus!
