//! When a failed attempt at a batch is made again.
//!
//! Every failure is classified once ([`Failure`]); the controller then either
//! lets the caller try the whole batch again, after a pause of random length,
//! or surfaces an error.  Attempts are bounded in number and in time.

use crate::allocator::random_between;
use crate::error::{Error, ErrorView};
use vstd::prelude::*;

verus! {

/// How often a failed commit is tried again.
pub const MAX_COMMIT_ATTEMPTS: u32 = 10;

/// For how many milliseconds, counted from the first attempt, a failed commit
/// is tried again.
pub const MAX_COMMIT_TIME: u64 = 10_000;

/// The shortest pause before another attempt, in milliseconds.
pub const MIN_BACKOFF: u64 = 50;

/// The longest pause before another attempt, in milliseconds.
pub const MAX_BACKOFF: u64 = 300;

/// Why an attempt at a batch failed.
#[derive(Debug, Clone, PartialEq, Eq)]
pub enum Failure {
    /// An asserted value was not the expected one.
    AssertValueFailed,
    /// The batch broke an invariant of the engine.
    Internal(String),
    /// The backend met a conflict with another transaction that may not
    /// happen again.
    Recoverable(String),
    /// The backend failed otherwise.
    Fatal(String),
    /// The document identifier that the attempt picked was taken by another
    /// writer at the same time.
    AllocatorRetry,
}

/// Mathematical image of a [`Failure`].
pub enum FailureView {
    AssertValueFailed,
    Internal(Seq<char>),
    Recoverable(Seq<char>),
    Fatal(Seq<char>),
    AllocatorRetry,
}

impl View for Failure {
    type V = FailureView;

    open spec fn view(&self) -> FailureView {
        match self {
            Failure::AssertValueFailed => FailureView::AssertValueFailed,
            Failure::Internal(message) => FailureView::Internal(message@),
            Failure::Recoverable(message) => FailureView::Recoverable(message@),
            Failure::Fatal(message) => FailureView::Fatal(message@),
            Failure::AllocatorRetry => FailureView::AllocatorRetry,
        }
    }
}

/// The failure that an error of the engine is: none of them is recovered
/// from.
pub open spec fn failure_of(error: ErrorView) -> FailureView {
    match error {
        ErrorView::AssertValueFailed => FailureView::AssertValueFailed,
        ErrorView::InternalError(message) => FailureView::Internal(message),
        ErrorView::Backend(message) => FailureView::Fatal(message),
    }
}

impl Failure {
    /// The failure that an error of the engine is.
    pub fn from_error(error: Error) -> (failure: Failure)
        ensures
            failure@ == failure_of(error@),
    {
        match error {
            Error::AssertValueFailed => Failure::AssertValueFailed,
            Error::InternalError(message) => Failure::Internal(message),
            Error::Backend(message) => Failure::Fatal(message),
        }
    }
}

/// The bounds on attempts.
#[derive(Debug, Clone, Copy, PartialEq, Eq, Structural)]
pub struct RetryPolicy {
    /// Attempts are made again while fewer than this many have failed.
    pub max_attempts: u32,
    /// Attempts are made again while fewer than this many milliseconds have
    /// passed since the first one.
    pub max_time: u64,
    /// The shortest pause before another attempt, in milliseconds.
    pub min_backoff: u64,
    /// The longest pause before another attempt, in milliseconds.
    pub max_backoff: u64,
}

impl RetryPolicy {
    /// The longest pause: no shorter than the shortest.
    pub open spec fn longest_backoff(self) -> u64 {
        if self.max_backoff < self.min_backoff {
            self.min_backoff
        } else {
            self.max_backoff
        }
    }

    pub open spec fn of_commit() -> RetryPolicy {
        RetryPolicy {
            max_attempts: MAX_COMMIT_ATTEMPTS,
            max_time: MAX_COMMIT_TIME,
            min_backoff: MIN_BACKOFF,
            max_backoff: MAX_BACKOFF,
        }
    }

    pub open spec fn of_purge() -> RetryPolicy {
        RetryPolicy {
            max_attempts: MAX_COMMIT_ATTEMPTS,
            max_time: u64::MAX,
            min_backoff: 0,
            max_backoff: 0,
        }
    }

    /// The policy for the commit of a batch.
    pub fn commit() -> (policy: RetryPolicy)
        ensures
            policy == RetryPolicy::of_commit(),
    {
        RetryPolicy {
            max_attempts: MAX_COMMIT_ATTEMPTS,
            max_time: MAX_COMMIT_TIME,
            min_backoff: MIN_BACKOFF,
            max_backoff: MAX_BACKOFF,
        }
    }

    /// The policy for the deletions of a purge: bounded in number only, and
    /// made again without a pause.
    pub fn purge() -> (policy: RetryPolicy)
        ensures
            policy == RetryPolicy::of_purge(),
    {
        RetryPolicy {
            max_attempts: MAX_COMMIT_ATTEMPTS,
            max_time: u64::MAX,
            min_backoff: 0,
            max_backoff: 0,
        }
    }

    /// Whether another attempt may be made after `attempts` failed ones and
    /// `elapsed` milliseconds.
    pub open spec fn allows(self, attempts: u32, elapsed: u64) -> bool {
        attempts < self.max_attempts && elapsed < self.max_time
    }
}

/// What to do about a failed attempt.
#[derive(Debug, Clone, PartialEq, Eq)]
pub enum Verdict {
    /// Wait for `backoff` milliseconds, then run the whole batch again in a
    /// new transaction.
    Retry { backoff: u64 },
    /// Give up with this error.
    Surface(Error),
}

/// Mathematical image of a [`Verdict`].
pub enum VerdictView {
    Retry { backoff: u64 },
    Surface(ErrorView),
}

impl View for Verdict {
    type V = VerdictView;

    open spec fn view(&self) -> VerdictView {
        match self {
            Verdict::Retry { backoff } => VerdictView::Retry { backoff: *backoff },
            Verdict::Surface(error) => VerdictView::Surface(error@),
        }
    }
}

/// Whether a failure may go away by itself.
pub open spec fn is_transient(failure: FailureView) -> bool {
    failure is Recoverable || failure is AllocatorRetry
}

/// The error that a failure surfaces as.  A document identifier that was
/// lost to another writer again and again counts as a lost assertion.
pub open spec fn surfaced(failure: FailureView) -> ErrorView {
    match failure {
        FailureView::AssertValueFailed => ErrorView::AssertValueFailed,
        FailureView::Internal(message) => ErrorView::InternalError(message),
        FailureView::Recoverable(message) => ErrorView::Backend(message),
        FailureView::Fatal(message) => ErrorView::Backend(message),
        FailureView::AllocatorRetry => ErrorView::AssertValueFailed,
    }
}

/// What to do about a failure after `attempts` failed attempts and `elapsed`
/// milliseconds: a transient failure is retried while the policy allows it,
/// every other failure is surfaced at once.
pub open spec fn verdict_of(
    failure: FailureView,
    policy: RetryPolicy,
    attempts: u32,
    elapsed: u64,
    backoff: u64,
) -> VerdictView {
    if is_transient(failure) && policy.allows(attempts, elapsed) {
        VerdictView::Retry { backoff }
    } else {
        VerdictView::Surface(surfaced(failure))
    }
}

/// What to do about a failure, with the pause given.
pub fn decide(failure: Failure, policy: &RetryPolicy, attempts: u32, elapsed: u64, backoff: u64)
    -> (verdict: Verdict)
    ensures
        verdict@ == verdict_of(failure@, *policy, attempts, elapsed, backoff),
{
    let allowed = attempts < policy.max_attempts && elapsed < policy.max_time;
    match failure {
        Failure::AssertValueFailed => Verdict::Surface(Error::AssertValueFailed),
        Failure::Internal(message) => Verdict::Surface(Error::InternalError(message)),
        Failure::Fatal(message) => Verdict::Surface(Error::Backend(message)),
        Failure::Recoverable(message) => {
            if allowed {
                Verdict::Retry { backoff }
            } else {
                Verdict::Surface(Error::Backend(message))
            }
        },
        Failure::AllocatorRetry => {
            if allowed {
                Verdict::Retry { backoff }
            } else {
                Verdict::Surface(Error::AssertValueFailed)
            }
        },
    }
}

/// Counts the failed attempts at one batch and decides about each failure.
#[derive(Debug, Clone, PartialEq, Eq)]
pub struct RetryController {
    policy: RetryPolicy,
    attempts: u32,
}

impl RetryController {
    /// The policy of the controller.
    pub closed spec fn policy(&self) -> RetryPolicy {
        self.policy
    }

    /// How many attempts have failed and were allowed to be made again.
    pub closed spec fn attempts(&self) -> u32 {
        self.attempts
    }

    /// A controller for the first attempt at a batch.
    pub fn new(policy: RetryPolicy) -> (controller: RetryController)
        ensures
            controller.policy() == policy,
            controller.attempts() == 0,
    {
        RetryController { policy, attempts: 0 }
    }

    /// How many attempts have failed and were allowed to be made again.
    pub fn retries(&self) -> (attempts: u32)
        ensures
            attempts == self.attempts(),
    {
        self.attempts
    }

    /// Decides about a failure that came `elapsed` milliseconds after the
    /// first attempt began.  The pause before another attempt has a random
    /// length within the bounds of the policy.
    pub fn on_failure(&mut self, failure: Failure, elapsed: u64) -> (verdict: Verdict)
        ensures
            final(self).policy() == old(self).policy(),
            exists|backoff: u64|
                old(self).policy().min_backoff <= backoff <= old(self).policy().longest_backoff()
                    && verdict@ == #[trigger] verdict_of(
                    failure@,
                    old(self).policy(),
                    old(self).attempts(),
                    elapsed,
                    backoff,
                ),
            final(self).attempts() == if verdict is Retry {
                old(self).attempts() + 1
            } else {
                old(self).attempts() as int
            },
    {
        let longest = if self.policy.max_backoff < self.policy.min_backoff {
            self.policy.min_backoff
        } else {
            self.policy.max_backoff
        };
        let backoff = random_between(self.policy.min_backoff, longest);
        let verdict = decide(failure, &self.policy, self.attempts, elapsed, backoff);
        match &verdict {
            Verdict::Retry { .. } => {
                self.attempts = self.attempts + 1;
            },
            _ => {},
        }
        assert(verdict@ == verdict_of(
            failure@,
            old(self).policy(),
            old(self).attempts(),
            elapsed,
            backoff,
        ));
        verdict
    }
}

/// Only a conflict with another transaction, or a document identifier lost
/// to another writer, lets a batch run again, and only within the bounds of
/// the policy; a lost assertion never does.
pub proof fn law_only_transient_failures_retry(
    failure: FailureView,
    policy: RetryPolicy,
    attempts: u32,
    elapsed: u64,
    backoff: u64,
)
    ensures
        verdict_of(failure, policy, attempts, elapsed, backoff) is Retry <==> (failure
            is Recoverable || failure is AllocatorRetry) && attempts < policy.max_attempts
            && elapsed < policy.max_time,
        failure is AssertValueFailed ==> verdict_of(failure, policy, attempts, elapsed, backoff)
            == VerdictView::Surface(ErrorView::AssertValueFailed),
        failure is AllocatorRetry && !policy.allows(attempts, elapsed) ==> verdict_of(
            failure,
            policy,
            attempts,
            elapsed,
            backoff,
        ) == VerdictView::Surface(ErrorView::AssertValueFailed),
{
}

} // verus!
