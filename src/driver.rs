use vstd::prelude::*;

use crate::relay::RelayError;

verus! {

/// What the fan-out driver does after a task has finished.
#[derive(Debug)]
pub enum Verdict {
    /// Other tasks are still running: keep waiting.
    Waiting,
    /// Every task completed: the driver succeeds.
    Succeeded,
    /// A task failed: stop the others and fail with its error.
    Failed(RelayError),
}

/// The driver's result when `pending` tasks run and `outcomes` are the results of tasks
/// as they finish, in the order they finish: `None` while it still waits.
pub open spec fn fan_out_result(pending: nat, outcomes: Seq<Result<(), RelayError>>) -> Option<
    Result<(), RelayError>,
>
    decreases outcomes.len(),
{
    if pending == 0 {
        Some(Ok(()))
    } else if outcomes.len() == 0 {
        None
    } else {
        match outcomes[0] {
            Err(e) => Some(Err(e)),
            Ok(()) => fan_out_result((pending - 1) as nat, outcomes.drop_first()),
        }
    }
}

/// If any of the `k` tasks fails before another does, the driver fails with that task's
/// error, however many of the others are still running.
pub proof fn lemma_first_failure_decides(k: nat, outcomes: Seq<Result<(), RelayError>>, i: int)
    requires
        0 <= i < outcomes.len(),
        i < k,
        outcomes[i] is Err,
        forall|j: int| 0 <= j < i ==> outcomes[j] is Ok,
    ensures
        fan_out_result(k, outcomes) == Some(Err::<(), RelayError>(outcomes[i]->Err_0)),
    decreases i,
{
    if i > 0 {
        let rest = outcomes.drop_first();
        assert forall|j: int| 0 <= j < i - 1 implies rest[j] is Ok by {
            assert(rest[j] == outcomes[j + 1]);
        }
        assert(rest[i - 1] == outcomes[i]);
        lemma_first_failure_decides((k - 1) as nat, rest, i - 1);
    }
}

/// The driver takes each finished task as one step: a failure decides at once, a
/// completion leaves one task fewer to wait for.
pub proof fn lemma_fan_out_step(k: nat, first: Result<(), RelayError>, rest: Seq<Result<(), RelayError>>)
    requires
        k > 0,
    ensures
        fan_out_result(k, seq![first] + rest) == match first {
            Err(e) => Some(Err(e)),
            Ok(()) => fan_out_result((k - 1) as nat, rest),
        },
{
    assert((seq![first] + rest).drop_first() =~= rest);
    assert((seq![first] + rest)[0] == first);
}

/// Waits for a group of relay tasks: it fails on the first task that fails, and succeeds
/// once every task has completed.
pub struct Supervisor {
    pending: usize,
    stopped: bool,
}

impl Supervisor {
    /// Tasks still running.
    pub closed spec fn pending_spec(&self) -> nat {
        self.pending as nat
    }

    /// Whether the driver has reached its result.
    pub closed spec fn stopped_spec(&self) -> bool {
        self.stopped
    }

    /// A supervisor for `tasks` running tasks; with none it has succeeded already.
    pub fn new(tasks: usize) -> (r: Supervisor)
        ensures
            r.pending_spec() == tasks,
            r.stopped_spec() == (tasks == 0),
    {
        Supervisor { pending: tasks, stopped: tasks == 0 }
    }

    /// Whether the driver has reached its result.
    pub fn is_stopped(&self) -> (r: bool)
        ensures
            r == self.stopped_spec(),
    {
        self.stopped
    }

    /// Tasks still running.
    pub fn pending(&self) -> (r: usize)
        ensures
            r == self.pending_spec(),
    {
        self.pending
    }

    /// Takes the result of one task that finished.
    pub fn record(&mut self, outcome: Result<(), RelayError>) -> (r: Verdict)
        requires
            !old(self).stopped_spec(),
            old(self).pending_spec() > 0,
        ensures
            final(self).pending_spec() == old(self).pending_spec() - 1,
            match outcome {
                Err(e) => r == Verdict::Failed(e) && final(self).stopped_spec(),
                Ok(()) => final(self).stopped_spec() == (final(self).pending_spec() == 0) && (
                if final(self).pending_spec() == 0 {
                    r is Succeeded
                } else {
                    r is Waiting
                }),
            },
    {
        self.pending = self.pending - 1;
        match outcome {
            Err(e) => {
                self.stopped = true;
                Verdict::Failed(e)
            },
            Ok(()) => {
                if self.pending == 0 {
                    self.stopped = true;
                    Verdict::Succeeded
                } else {
                    Verdict::Waiting
                }
            },
        }
    }
}

} // verus!
