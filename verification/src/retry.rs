//! The transaction runner: how often a request is attempted when its commit
//! meets a conflict.
//!
//! The runner decides; the caller does the work. Before each attempt the
//! caller asks [`TxnRunner::start_attempt`]; it then runs the handler on a
//! fresh transaction, tries to commit, and hands the outcome of the commit to
//! [`TxnRunner::on_commit`], which says whether the request is done, has
//! failed, or is to be attempted again.

use vstd::prelude::*;
use crate::error::{Errno, MetaError};

verus! {

/// The number of attempts that a request gets.
pub const TXN_RETRY_LIMIT: u32 = 5;

/// How the commit of one attempt ended.
#[derive(Clone, Copy, Debug, PartialEq, Eq, Structural)]
pub enum CommitOutcome {
    /// The writes are in the store.
    Committed,
    /// A key that the attempt had read was changed in the meantime; nothing
    /// was written.
    Conflict,
    /// The store failed for another reason; nothing was written.
    Failed(MetaError),
}

/// What the runner decides after a commit.
#[derive(Clone, Copy, Debug, PartialEq, Eq, Structural)]
pub enum Verdict {
    /// The request is done.
    Success,
    /// The request is to be attempted again, on a fresh transaction.
    Retry,
    /// The request has failed with this error.
    Failure(MetaError),
}

/// The decision after the commit of attempt number `attempts`, counted from
/// one: a commit ends the request, a failure of the store fails it at once, a
/// conflict asks for another attempt until the last one is used up.
pub open spec fn verdict_spec(attempts: u32, outcome: CommitOutcome) -> Verdict {
    match outcome {
        CommitOutcome::Committed => Verdict::Success,
        CommitOutcome::Failed(e) => Verdict::Failure(e),
        CommitOutcome::Conflict => if attempts < TXN_RETRY_LIMIT {
            Verdict::Retry
        } else {
            Verdict::Failure(MetaError::TxnRetryExceeded)
        },
    }
}

/// The outcome of the commit of attempt `i`, counted from zero, in a recorded
/// run; past the end of the record every commit meets a conflict.
pub open spec fn outcome_at(outcomes: Seq<CommitOutcome>, i: int) -> CommitOutcome {
    if 0 <= i < outcomes.len() {
        outcomes[i]
    } else {
        CommitOutcome::Conflict
    }
}

/// How a request ends whose commits meet `outcomes`, after `done` attempts
/// that met conflicts: with the number of attempts it took, or the error it
/// failed with.
pub open spec fn run_result(outcomes: Seq<CommitOutcome>, done: nat) -> Result<u32, MetaError>
    decreases TXN_RETRY_LIMIT - done,
{
    if done >= TXN_RETRY_LIMIT {
        Err(MetaError::TxnRetryExceeded)
    } else {
        match outcome_at(outcomes, done as int) {
            CommitOutcome::Committed => Ok((done + 1) as u32),
            CommitOutcome::Failed(e) => Err(e),
            CommitOutcome::Conflict => run_result(outcomes, done + 1),
        }
    }
}

/// The state of the runner for one request: the attempts made so far.
#[derive(Debug)]
pub struct TxnRunner {
    attempts: u32,
}

impl TxnRunner {
    /// The number of attempts that have been started.
    pub closed spec fn attempts(&self) -> u32 {
        self.attempts
    }

    /// No more attempts have been started than the limit allows.
    pub open spec fn wf(&self) -> bool {
        self.attempts() <= TXN_RETRY_LIMIT
    }

    /// The runner of a request that has not been attempted yet.
    pub fn new() -> (r: TxnRunner)
        ensures
            r.wf(),
            r.attempts() == 0,
    {
        TxnRunner { attempts: 0 }
    }

    /// The number of attempts that have been started.
    pub fn attempts_made(&self) -> (n: u32)
        ensures
            n == self.attempts(),
    {
        self.attempts
    }

    /// Whether another attempt may start; if so, it is counted.
    pub fn start_attempt(&mut self) -> (go: bool)
        requires
            old(self).wf(),
        ensures
            final(self).wf(),
            go == (old(self).attempts() < TXN_RETRY_LIMIT),
            final(self).attempts() == if go {
                (old(self).attempts() + 1) as u32
            } else {
                old(self).attempts()
            },
    {
        if self.attempts < TXN_RETRY_LIMIT {
            self.attempts = self.attempts + 1;
            true
        } else {
            false
        }
    }

    /// Decides what follows the commit of the attempt that was started last.
    pub fn on_commit(&self, outcome: CommitOutcome) -> (v: Verdict)
        ensures
            v == verdict_spec(self.attempts(), outcome),
    {
        match outcome {
            CommitOutcome::Committed => Verdict::Success,
            CommitOutcome::Failed(e) => Verdict::Failure(e),
            CommitOutcome::Conflict => if self.attempts < TXN_RETRY_LIMIT {
                Verdict::Retry
            } else {
                Verdict::Failure(MetaError::TxnRetryExceeded)
            },
        }
    }

    /// Runs a request against a record of commit outcomes, one per attempt,
    /// and says how it ends: with the number of attempts that it took, or
    /// with its error. Past the end of the record every commit counts as a
    /// conflict.
    pub fn run_recorded(outcomes: &[CommitOutcome]) -> (r: Result<u32, MetaError>)
        ensures
            r == run_result(outcomes@, 0),
    {
        let mut runner = TxnRunner::new();
        loop
            invariant
                runner.wf(),
                run_result(outcomes@, 0) == run_result(outcomes@, runner.attempts() as nat),
            decreases TXN_RETRY_LIMIT - runner.attempts(),
        {
            let i: u32 = runner.attempts_made();
            if !runner.start_attempt() {
                return Err(MetaError::TxnRetryExceeded);
            }
            let outcome = if (i as usize) < outcomes.len() {
                outcomes[i as usize]
            } else {
                CommitOutcome::Conflict
            };
            match runner.on_commit(outcome) {
                Verdict::Success => {
                    return Ok(i + 1);
                },
                Verdict::Failure(e) => {
                    proof {
                        if outcome == CommitOutcome::Conflict {
                            assert(run_result(outcomes@, (i + 1) as nat) == Err::<u32, MetaError>(
                                MetaError::TxnRetryExceeded,
                            ));
                        }
                    }
                    return Err(e);
                },
                Verdict::Retry => {},
            }
        }
    }
}

/// A request ends after at most [`TXN_RETRY_LIMIT`] attempts. It succeeds at
/// the first commit that meets no conflict, and only there; a failure of the
/// store ends it with that failure; and when every attempt met a conflict it
/// fails with `TxnRetryExceeded`, which the kernel sees as `EIO`.
pub proof fn lemma_run_result(outcomes: Seq<CommitOutcome>, done: nat)
    requires
        done <= TXN_RETRY_LIMIT,
    ensures
        match run_result(outcomes, done) {
            Ok(n) => {
                &&& done < n <= TXN_RETRY_LIMIT
                &&& outcome_at(outcomes, n - 1) == CommitOutcome::Committed
                &&& forall|i: int| done <= i < n - 1 ==> outcome_at(outcomes, i) == CommitOutcome::Conflict
            },
            Err(e) => {
                ||| {
                    &&& e == MetaError::TxnRetryExceeded
                    &&& e.errno_spec() == Errno::EIO
                    &&& forall|i: int|
                        done <= i < TXN_RETRY_LIMIT ==> outcome_at(outcomes, i) == CommitOutcome::Conflict
                }
                ||| exists|n: int|
                    {
                        &&& done <= n < TXN_RETRY_LIMIT
                        &&& #[trigger] outcome_at(outcomes, n) == CommitOutcome::Failed(e)
                        &&& forall|i: int| done <= i < n ==> outcome_at(outcomes, i) == CommitOutcome::Conflict
                    }
            },
        },
    decreases TXN_RETRY_LIMIT - done,
{
    if done < TXN_RETRY_LIMIT {
        match outcome_at(outcomes, done as int) {
            CommitOutcome::Committed => {},
            CommitOutcome::Failed(e) => {
                assert(outcome_at(outcomes, done as int) == CommitOutcome::Failed(e));
            },
            CommitOutcome::Conflict => {
                lemma_run_result(outcomes, done + 1);
                match run_result(outcomes, done + 1) {
                    Ok(n) => {},
                    Err(e) => {
                        if !(e == MetaError::TxnRetryExceeded && forall|i: int|
                            done + 1 <= i < TXN_RETRY_LIMIT ==> outcome_at(outcomes, i)
                                == CommitOutcome::Conflict) {
                            let n = choose|n: int|
                                {
                                    &&& done + 1 <= n < TXN_RETRY_LIMIT
                                    &&& #[trigger] outcome_at(outcomes, n) == CommitOutcome::Failed(e)
                                    &&& forall|i: int|
                                        done + 1 <= i < n ==> outcome_at(outcomes, i)
                                            == CommitOutcome::Conflict
                                };
                            assert(outcome_at(outcomes, n) == CommitOutcome::Failed(e));
                        }
                    },
                }
            },
        }
    }
}

/// Where no commit fails for another reason than a conflict, a request either
/// succeeds within [`TXN_RETRY_LIMIT`] attempts or ends in an error that the
/// kernel sees as `EIO`; it succeeds if and only if one of the first
/// [`TXN_RETRY_LIMIT`] commits meets no conflict.
pub proof fn lemma_conflicts_only(outcomes: Seq<CommitOutcome>)
    requires
        forall|i: int| 0 <= i < TXN_RETRY_LIMIT ==> !(#[trigger] outcome_at(outcomes, i) is Failed),
    ensures
        match run_result(outcomes, 0) {
            Ok(n) => 1 <= n <= TXN_RETRY_LIMIT,
            Err(e) => e.errno_spec() == Errno::EIO,
        },
        run_result(outcomes, 0) is Ok <==> exists|i: int|
            0 <= i < TXN_RETRY_LIMIT && #[trigger] outcome_at(outcomes, i) == CommitOutcome::Committed,
{
    lemma_run_result(outcomes, 0);
    match run_result(outcomes, 0) {
        Ok(n) => {
            assert(outcome_at(outcomes, n - 1) == CommitOutcome::Committed);
        },
        Err(e) => {},
    }
}

} // verus!
