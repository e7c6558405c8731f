//! Running the oldest pending job. The work alternates database calls and
//! decisions; the decisions are the transition function here, and the
//! application performs each action and reports what came of it.
use vstd::prelude::*;
use crate::models::jobs::{
    JobStatus, JobType, pending_filter, pending_filter_text, select_with_pagination,
};
use crate::models::utils::paginated_select;

verus! {

/// Where a run of the job processor stands.
pub enum ProcessJobState {
    /// Nothing done yet.
    Start,
    /// The oldest pending job has been asked for.
    AwaitingPending,
    /// Job `id` of type `job_type` is being marked as running.
    AwaitingRunningMark { id: String, job_type: i32 },
    /// Job `id` is running.
    AwaitingJob { id: String },
    /// Job `id` is being marked as completed.
    AwaitingCompletedMark { id: String },
    /// The run is over.
    Finished,
}

/// What the application reports back.
pub enum ProcessJobEvent {
    /// The run begins.
    Begin,
    /// The oldest pending job has this id and type.
    PendingFound { id: String, job_type: i32 },
    /// No job is pending.
    NoPending,
    /// Reading the pending job failed.
    LookupFailed,
    /// The requested status update was written.
    StatusUpdated,
    /// The job's work has finished.
    JobDone,
}

/// How a run ends.
#[derive(Clone, Copy, Debug, PartialEq, Eq, Structural)]
pub enum ProcessOutcome {
    /// There was nothing to do.
    NoPendingJob,
    /// The pending job has a type this processor does not know; it stays marked running.
    UnknownJobType,
    /// The job ran and was marked completed.
    Completed,
    /// The pending job could not be read.
    LookupFailed,
}

/// What the application is to do next.
pub enum ProcessJobAction {
    /// Run `pending_job_query` and report its first row.
    QueryPending,
    /// Write `update_row(id, status)`.
    MarkStatus { id: String, status: JobStatus },
    /// Run the work of this job type.
    RunJob(JobType),
    /// Stop with this outcome.
    Finish(ProcessOutcome),
    /// Nothing: the event does not fit the current state.
    Nothing,
}

/// The job type stored as `code`, if there is one.
pub open spec fn job_type_of(code: i32) -> Option<JobType> {
    if code == 0 {
        Some(JobType::SMScrape)
    } else if code == 1 {
        Some(JobType::Embed)
    } else {
        None
    }
}

/// The processor's decisions: from the current state and what happened, the
/// next state and what to do. The oldest pending job is marked running, run
/// according to its type, then marked completed; a job of unknown type is
/// left running and the run ends. An event that does not fit the state
/// changes nothing.
pub open spec fn process_job_transition(
    state: ProcessJobState,
    event: ProcessJobEvent,
) -> (ProcessJobState, ProcessJobAction) {
    match (state, event) {
        (ProcessJobState::Start, ProcessJobEvent::Begin) => (
            ProcessJobState::AwaitingPending,
            ProcessJobAction::QueryPending,
        ),
        (ProcessJobState::AwaitingPending, ProcessJobEvent::PendingFound { id, job_type }) => (
            ProcessJobState::AwaitingRunningMark { id, job_type },
            ProcessJobAction::MarkStatus { id, status: JobStatus::Running },
        ),
        (ProcessJobState::AwaitingPending, ProcessJobEvent::NoPending) => (
            ProcessJobState::Finished,
            ProcessJobAction::Finish(ProcessOutcome::NoPendingJob),
        ),
        (ProcessJobState::AwaitingPending, ProcessJobEvent::LookupFailed) => (
            ProcessJobState::Finished,
            ProcessJobAction::Finish(ProcessOutcome::LookupFailed),
        ),
        (
            ProcessJobState::AwaitingRunningMark { id, job_type },
            ProcessJobEvent::StatusUpdated,
        ) => match job_type_of(job_type) {
            Some(t) => (ProcessJobState::AwaitingJob { id }, ProcessJobAction::RunJob(t)),
            None => (
                ProcessJobState::Finished,
                ProcessJobAction::Finish(ProcessOutcome::UnknownJobType),
            ),
        },
        (ProcessJobState::AwaitingJob { id }, ProcessJobEvent::JobDone) => (
            ProcessJobState::AwaitingCompletedMark { id },
            ProcessJobAction::MarkStatus { id, status: JobStatus::Completed },
        ),
        (ProcessJobState::AwaitingCompletedMark { id }, ProcessJobEvent::StatusUpdated) => (
            ProcessJobState::Finished,
            ProcessJobAction::Finish(ProcessOutcome::Completed),
        ),
        (s, _) => (s, ProcessJobAction::Nothing),
    }
}

/// A job's work is started only once it has been marked running, and it is
/// the work of the type the job was stored with: type 0 runs the scrape,
/// type 1 the embedding; any other type ends the run unrun.
pub proof fn lemma_runs_stored_job_type(state: ProcessJobState, event: ProcessJobEvent)
    ensures
        match process_job_transition(state, event).1 {
            ProcessJobAction::RunJob(t) => event is StatusUpdated && match state {
                ProcessJobState::AwaitingRunningMark { job_type, .. } => (job_type == 0 && t
                    == JobType::SMScrape) || (job_type == 1 && t == JobType::Embed),
                _ => false,
            },
            _ => true,
        },
        match (state, event) {
            (ProcessJobState::AwaitingRunningMark { job_type, .. }, ProcessJobEvent::StatusUpdated) => (
            job_type != 0 && job_type != 1) ==> process_job_transition(state, event).1
                == ProcessJobAction::Finish(ProcessOutcome::UnknownJobType),
            _ => true,
        },
{
}

/// The next state and action of the processor (see `process_job_transition`).
pub fn process_job_step(state: ProcessJobState, event: ProcessJobEvent) -> (res: (
    ProcessJobState,
    ProcessJobAction,
))
    ensures
        res == process_job_transition(state, event),
{
    match (state, event) {
        (ProcessJobState::Start, ProcessJobEvent::Begin) => (
            ProcessJobState::AwaitingPending,
            ProcessJobAction::QueryPending,
        ),
        (ProcessJobState::AwaitingPending, ProcessJobEvent::PendingFound { id, job_type }) => {
            let mark = ProcessJobAction::MarkStatus { id: id.clone(), status: JobStatus::Running };
            (ProcessJobState::AwaitingRunningMark { id, job_type }, mark)
        },
        (ProcessJobState::AwaitingPending, ProcessJobEvent::NoPending) => (
            ProcessJobState::Finished,
            ProcessJobAction::Finish(ProcessOutcome::NoPendingJob),
        ),
        (ProcessJobState::AwaitingPending, ProcessJobEvent::LookupFailed) => (
            ProcessJobState::Finished,
            ProcessJobAction::Finish(ProcessOutcome::LookupFailed),
        ),
        (
            ProcessJobState::AwaitingRunningMark { id, job_type },
            ProcessJobEvent::StatusUpdated,
        ) => {
            if job_type == JobType::SMScrape.as_i32() {
                (ProcessJobState::AwaitingJob { id }, ProcessJobAction::RunJob(JobType::SMScrape))
            } else if job_type == JobType::Embed.as_i32() {
                (ProcessJobState::AwaitingJob { id }, ProcessJobAction::RunJob(JobType::Embed))
            } else {
                (ProcessJobState::Finished, ProcessJobAction::Finish(ProcessOutcome::UnknownJobType))
            }
        },
        (ProcessJobState::AwaitingJob { id }, ProcessJobEvent::JobDone) => {
            let mark = ProcessJobAction::MarkStatus { id: id.clone(), status: JobStatus::Completed };
            (ProcessJobState::AwaitingCompletedMark { id }, mark)
        },
        (ProcessJobState::AwaitingCompletedMark { id }, ProcessJobEvent::StatusUpdated) => (
            ProcessJobState::Finished,
            ProcessJobAction::Finish(ProcessOutcome::Completed),
        ),
        (s, _) => (s, ProcessJobAction::Nothing),
    }
}

/// The query for the oldest pending job: its id and type.
pub fn pending_job_query() -> (res: String)
    ensures
        res@ == paginated_select(
            "jobs"@,
            "id, job_type"@,
            pending_filter(),
            "created_at"@,
            "ASC"@,
            1,
            0,
        ),
{
    let q = pending_filter_text();
    select_with_pagination("id, job_type", q.as_str(), "created_at", "ASC", 1, 0)
}

/// The state and the actions of a run that has seen `events`, from `Start`.
pub open spec fn process_job_run(events: Seq<ProcessJobEvent>) -> (ProcessJobState, Seq<ProcessJobAction>)
    decreases events.len(),
{
    if events.len() == 0 {
        (ProcessJobState::Start, Seq::empty())
    } else {
        let (state, actions) = process_job_run(events.drop_last());
        let (next, action) = process_job_transition(state, events.last());
        (next, actions.push(action))
    }
}

/// Whether `action` marks job `id` with `status`.
pub open spec fn marks(action: ProcessJobAction, id: String, status: JobStatus) -> bool {
    action == ProcessJobAction::MarkStatus { id, status }
}

/// Every completion mark in `actions` comes after a running mark of the same
/// job and, between them, the run of its work.
pub open spec fn completions_follow_runs(actions: Seq<ProcessJobAction>) -> bool {
    forall|k: int, id: String|
        0 <= k < actions.len() && #[trigger] marks(actions[k], id, JobStatus::Completed) ==> exists|j: int, l: int|
            #![trigger actions[j], actions[l]]
            0 <= j < l < k && marks(actions[j], id, JobStatus::Running) && actions[l] is RunJob
}

/// Once the run has finished, every later action is `Nothing`.
pub open spec fn quiet_after_finish(actions: Seq<ProcessJobAction>) -> bool {
    forall|k: int, m: int|
        0 <= k < m < actions.len() && #[trigger] actions[k] is Finish ==> #[trigger] actions[m] is Nothing
}

spec fn run_invariant(state: ProcessJobState, actions: Seq<ProcessJobAction>) -> bool {
    &&& completions_follow_runs(actions)
    &&& quiet_after_finish(actions)
    &&& (exists|k: int| 0 <= k < actions.len() && #[trigger] actions[k] is Finish) ==> state
        is Finished
    &&& match state {
        ProcessJobState::AwaitingRunningMark { id, .. } => exists|j: int|
            0 <= j < actions.len() && marks(#[trigger] actions[j], id, JobStatus::Running),
        ProcessJobState::AwaitingJob { id } => exists|j: int, l: int|
            #![trigger actions[j], actions[l]]
            0 <= j < l < actions.len() && marks(actions[j], id, JobStatus::Running)
                && actions[l] is RunJob,
        _ => true,
    }
}

proof fn lemma_run_invariant(events: Seq<ProcessJobEvent>)
    ensures
        run_invariant(process_job_run(events).0, process_job_run(events).1),
    decreases events.len(),
{
    if events.len() > 0 {
        lemma_run_invariant(events.drop_last());
        let (state, actions) = process_job_run(events.drop_last());
        let (next, action) = process_job_transition(state, events.last());
        let all = actions.push(action);
        assert(process_job_run(events) == (next, all));
        assert forall|k: int| 0 <= k < actions.len() implies all[k] == actions[k] by {}
        assert forall|k: int, id: String|
            0 <= k < all.len() && #[trigger] marks(all[k], id, JobStatus::Completed) implies exists|j: int, l: int|
                #![trigger all[j], all[l]]
                0 <= j < l < k && marks(all[j], id, JobStatus::Running) && all[l] is RunJob by {
            if k < actions.len() {
                assert(marks(actions[k], id, JobStatus::Completed));
                let (j, l) = choose|j: int, l: int|
                    #![trigger actions[j], actions[l]]
                    0 <= j < l < k && marks(actions[j], id, JobStatus::Running) && actions[l] is RunJob;
                assert(marks(all[j], id, JobStatus::Running) && all[l] is RunJob);
            } else {
                match state {
                    ProcessJobState::AwaitingJob { id: jid } => {
                        let (j, l) = choose|j: int, l: int|
                            #![trigger actions[j], actions[l]]
                            0 <= j < l < actions.len() && marks(actions[j], jid, JobStatus::Running)
                                && actions[l] is RunJob;
                        assert(marks(all[j], id, JobStatus::Running) && all[l] is RunJob);
                    },
                    _ => {},
                }
            }
        }
        assert forall|k: int, m: int|
            0 <= k < m < all.len() && #[trigger] all[k] is Finish implies #[trigger] all[m] is Nothing by {
            if m < actions.len() {
                assert(actions[k] is Finish);
            } else {
                assert(actions[k] is Finish);
                assert(state is Finished);
            }
        }
        if exists|k: int| 0 <= k < all.len() && #[trigger] all[k] is Finish {
            let k = choose|k: int| 0 <= k < all.len() && #[trigger] all[k] is Finish;
            if k < actions.len() {
                assert(actions[k] is Finish);
                assert(state is Finished);
            }
        }
        match next {
            ProcessJobState::AwaitingRunningMark { id, .. } => {
                match state {
                    ProcessJobState::AwaitingRunningMark { id: rid, .. } => {
                        let j = choose|j: int|
                            0 <= j < actions.len() && marks(
                                #[trigger] actions[j],
                                rid,
                                JobStatus::Running,
                            );
                        assert(marks(all[j], id, JobStatus::Running));
                    },
                    _ => {
                        assert(marks(all[actions.len() as int], id, JobStatus::Running));
                    },
                }
            },
            ProcessJobState::AwaitingJob { id } => {
                match state {
                    ProcessJobState::AwaitingRunningMark { id: rid, .. } => {
                        let j = choose|j: int|
                            0 <= j < actions.len() && marks(
                                #[trigger] actions[j],
                                rid,
                                JobStatus::Running,
                            );
                        assert(marks(all[j], id, JobStatus::Running));
                        assert(all[actions.len() as int] is RunJob);
                    },
                    ProcessJobState::AwaitingJob { id: jid } => {
                        let (j, l) = choose|j: int, l: int|
                            #![trigger actions[j], actions[l]]
                            0 <= j < l < actions.len() && marks(actions[j], jid, JobStatus::Running)
                                && actions[l] is RunJob;
                        assert(marks(all[j], id, JobStatus::Running) && all[l] is RunJob);
                    },
                    _ => {},
                }
            },
            _ => {},
        }
    }
}

/// Whatever the application reports, a job is marked completed only after
/// it was marked running and its work was started, in that order.
pub proof fn lemma_completion_follows_run(events: Seq<ProcessJobEvent>)
    ensures
        completions_follow_runs(process_job_run(events).1),
{
    lemma_run_invariant(events);
}

/// Whatever the application reports, once a run has finished it asks for
/// nothing more.
pub proof fn lemma_nothing_after_finish(events: Seq<ProcessJobEvent>)
    ensures
        quiet_after_finish(process_job_run(events).1),
{
    lemma_run_invariant(events);
}

} // verus!
