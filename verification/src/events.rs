//! What watchers of job state changes are sent, and the tally of a batch submission.

use vstd::prelude::*;
use crate::ids::{job_id_text, uuid_text};
use crate::job::JobState;
use crate::pipeline::LifecycleEvent;

verus! {

/// What a watcher of one job does with a published state change.
#[derive(PartialEq, Eq, Structural, Clone, Copy, Debug)]
pub enum WatchDecision {
    /// The change is about another job.
    Skip,
    /// Send the change on and keep watching.
    Forward,
    /// Send the change on; the job has reached an end state, so the watch is over.
    ForwardAndStop,
}

impl JobState {
    /// Whether the state is one of the two end states.
    pub open spec fn is_terminal(self) -> bool {
        self == JobState::Verified || self == JobState::Failed
    }

    /// Whether the state is one of the two end states.
    pub fn terminal(&self) -> (res: bool)
        ensures
            res == self.is_terminal(),
    {
        match self {
            JobState::Verified => true,
            JobState::Failed => true,
            _ => false,
        }
    }
}

impl LifecycleEvent {
    /// The previous state's text as it is sent to watchers: empty before the first.
    pub open spec fn previous_text(self) -> Seq<char> {
        match self.previous_state {
            None => Seq::empty(),
            Some(s) => s.text(),
        }
    }

    /// The previous state's text as it is sent to watchers: empty before the first.
    pub fn previous_state_text(&self) -> (res: &'static str)
        ensures
            res@ == self.previous_text(),
    {
        match self.previous_state {
            None => {
                proof {
                    reveal_strlit("");
                }
                ""
            },
            Some(s) => s.as_str(),
        }
    }

    /// The job id's text as it is sent to watchers.
    pub fn job_id_text(&self) -> (res: String)
        ensures
            res@ == uuid_text(self.job_id),
    {
        job_id_text(self.job_id)
    }
}

/// What a watcher of job `target` does with a published change: changes of other jobs
/// are skipped; the job's changes are sent on, and the watch ends with an end state.
pub fn watch_job_decision(target: u128, event: &LifecycleEvent) -> (res: WatchDecision)
    ensures
        event.job_id != target ==> res == WatchDecision::Skip,
        event.job_id == target && event.new_state.is_terminal() ==> res == WatchDecision::ForwardAndStop,
        event.job_id == target && !event.new_state.is_terminal() ==> res == WatchDecision::Forward,
{
    if event.job_id != target {
        WatchDecision::Skip
    } else if event.new_state.terminal() {
        WatchDecision::ForwardAndStop
    } else {
        WatchDecision::Forward
    }
}

/// The counts of a batch of job submissions, with the ids of the jobs created and the
/// errors of those that were not.
pub struct BatchTally {
    pub total: i32,
    pub successful: i32,
    pub failed: i32,
    pub job_ids: Vec<String>,
    pub errors: Vec<String>,
}

impl BatchTally {
    /// Every submission counted is either a success with its id or a failure with its
    /// error.
    pub open spec fn wf(self) -> bool {
        &&& self.total == self.successful + self.failed
        &&& self.successful == self.job_ids@.len()
        &&& self.failed == self.errors@.len()
    }

    /// An empty tally.
    pub fn new() -> (res: BatchTally)
        ensures
            res.wf(),
            res.total == 0,
            res.job_ids@.len() == 0,
            res.errors@.len() == 0,
    {
        BatchTally { total: 0, successful: 0, failed: 0, job_ids: Vec::new(), errors: Vec::new() }
    }

    /// Counts a job that was created.
    pub fn record_success(&mut self, job_id: u128)
        requires
            old(self).wf(),
            old(self).total < i32::MAX,
        ensures
            final(self).wf(),
            final(self).total == old(self).total + 1,
            final(self).successful == old(self).successful + 1,
            final(self).failed == old(self).failed,
            final(self).job_ids@.len() == old(self).job_ids@.len() + 1,
            final(self).job_ids@.last()@ == uuid_text(job_id),
            final(self).job_ids@.drop_last() == old(self).job_ids@,
            final(self).errors@ == old(self).errors@,
    {
        self.total = self.total + 1;
        self.successful = self.successful + 1;
        self.job_ids.push(job_id_text(job_id));
        assert(self.job_ids@.drop_last() =~= old(self).job_ids@);
    }

    /// Counts a submission that failed with `error`.
    pub fn record_failure(&mut self, error: String)
        requires
            old(self).wf(),
            old(self).total < i32::MAX,
        ensures
            final(self).wf(),
            final(self).total == old(self).total + 1,
            final(self).successful == old(self).successful,
            final(self).failed == old(self).failed + 1,
            final(self).errors@ == old(self).errors@.push(error),
            final(self).job_ids@ == old(self).job_ids@,
    {
        self.total = self.total + 1;
        self.failed = self.failed + 1;
        self.errors.push(error);
    }
}

/// The end states are exactly those that nothing follows in the lifecycle, so a watch
/// stops on the last state a job can reach.
pub proof fn lemma_terminal_is_last(s: JobState)
    ensures
        s.is_terminal() <==> forall|next: JobState| !crate::pipeline::follows(Some(s), next),
        s.is_terminal() <==> (s == JobState::Verified || s == JobState::Failed),
{
    if !s.is_terminal() {
        let next = match s {
            JobState::Submitted => JobState::Validated,
            JobState::Validated => JobState::Processing,
            _ => JobState::Verified,
        };
        assert(crate::pipeline::follows(Some(s), next));
    }
}

} // verus!
