//! `GET /jobs` and `POST /jobs`: listing jobs, and queueing a scrape unless
//! one is already pending.
use vstd::prelude::*;
use crate::models::jobs::{pending_filter, pending_filter_text, select_with_pagination};
use crate::models::utils::paginated_select;

verus! {

/// The columns a job listing shows.
pub open spec fn job_columns() -> Seq<char> {
    "id, job_type, job_status, created_at, completed_at"@
}

/// The query for the `limit` most recently created jobs.
pub fn recent_jobs_query(limit: u32) -> (res: String)
    ensures
        res@ == paginated_select("jobs"@, job_columns(), ""@, "created_at"@, "DESC"@, limit, 0),
{
    select_with_pagination(
        "id, job_type, job_status, created_at, completed_at",
        "",
        "created_at",
        "DESC",
        limit,
        0,
    )
}

/// The query for the id of the oldest pending job.
pub fn pending_job_id_query() -> (res: String)
    ensures
        res@ == paginated_select(
            "jobs"@,
            "id"@,
            pending_filter(),
            "created_at"@,
            "ASC"@,
            1,
            0,
        ),
{
    let q = pending_filter_text();
    select_with_pagination("id", q.as_str(), "created_at", "ASC", 1, 0)
}

/// The answer to a request to start a job while one is pending.
pub fn conflict_message() -> (res: &'static str)
    ensures
        res@ == "A job is already running"@,
{
    "A job is already running"
}

/// Where the handling of `POST /jobs` stands.
pub enum StartJobState {
    Start,
    /// The oldest pending job has been asked for.
    AwaitingPending,
    /// A new scrape job is being queued.
    AwaitingCreate,
    /// The most recent job is being read back.
    AwaitingConfirm,
    Finished,
}

/// What the application reports back.
pub enum StartJobEvent {
    /// The request arrives.
    Begin,
    /// A job is pending.
    PendingFound,
    /// No job is pending.
    NoPending,
    /// The requested statement ran.
    Executed,
    /// The confirming rows were read.
    RowsRead,
    /// The database call failed with this message.
    Failed(String),
}

/// What the application is to do next.
pub enum StartJobAction {
    /// Run `pending_job_id_query` and report whether a row came back.
    QueryPending,
    /// Execute `create_job(SMScrape, Pending)`.
    CreateJob,
    /// Run `recent_jobs_query(1)` and report the rows.
    QueryConfirm,
    /// Answer 409 with `conflict_message`.
    RespondConflict,
    /// Answer 500 with this message.
    RespondError(String),
    /// Answer 200 with the rows read.
    RespondJobs,
    /// Nothing: the event does not fit the current state.
    Nothing,
}

/// The handler's decisions: a pending job refuses the request with a
/// conflict; otherwise a scrape job is queued and the newest job is sent
/// back; a failed database call is answered with its message.
pub open spec fn start_job_transition(state: StartJobState, event: StartJobEvent) -> (
    StartJobState,
    StartJobAction,
) {
    match (state, event) {
        (StartJobState::Start, StartJobEvent::Begin) => (
            StartJobState::AwaitingPending,
            StartJobAction::QueryPending,
        ),
        (StartJobState::AwaitingPending, StartJobEvent::PendingFound) => (
            StartJobState::Finished,
            StartJobAction::RespondConflict,
        ),
        (StartJobState::AwaitingPending, StartJobEvent::NoPending) => (
            StartJobState::AwaitingCreate,
            StartJobAction::CreateJob,
        ),
        (StartJobState::AwaitingCreate, StartJobEvent::Executed) => (
            StartJobState::AwaitingConfirm,
            StartJobAction::QueryConfirm,
        ),
        (StartJobState::AwaitingConfirm, StartJobEvent::RowsRead) => (
            StartJobState::Finished,
            StartJobAction::RespondJobs,
        ),
        (StartJobState::AwaitingPending, StartJobEvent::Failed(message)) => (
            StartJobState::Finished,
            StartJobAction::RespondError(message),
        ),
        (StartJobState::AwaitingCreate, StartJobEvent::Failed(message)) => (
            StartJobState::Finished,
            StartJobAction::RespondError(message),
        ),
        (StartJobState::AwaitingConfirm, StartJobEvent::Failed(message)) => (
            StartJobState::Finished,
            StartJobAction::RespondError(message),
        ),
        (s, _) => (s, StartJobAction::Nothing),
    }
}

/// The next state and action of the handler (see `start_job_transition`).
pub fn start_job_step(state: StartJobState, event: StartJobEvent) -> (res: (
    StartJobState,
    StartJobAction,
))
    ensures
        res == start_job_transition(state, event),
{
    match (state, event) {
        (StartJobState::Start, StartJobEvent::Begin) => (
            StartJobState::AwaitingPending,
            StartJobAction::QueryPending,
        ),
        (StartJobState::AwaitingPending, StartJobEvent::PendingFound) => (
            StartJobState::Finished,
            StartJobAction::RespondConflict,
        ),
        (StartJobState::AwaitingPending, StartJobEvent::NoPending) => (
            StartJobState::AwaitingCreate,
            StartJobAction::CreateJob,
        ),
        (StartJobState::AwaitingCreate, StartJobEvent::Executed) => (
            StartJobState::AwaitingConfirm,
            StartJobAction::QueryConfirm,
        ),
        (StartJobState::AwaitingConfirm, StartJobEvent::RowsRead) => (
            StartJobState::Finished,
            StartJobAction::RespondJobs,
        ),
        (StartJobState::AwaitingPending, StartJobEvent::Failed(message)) => (
            StartJobState::Finished,
            StartJobAction::RespondError(message),
        ),
        (StartJobState::AwaitingCreate, StartJobEvent::Failed(message)) => (
            StartJobState::Finished,
            StartJobAction::RespondError(message),
        ),
        (StartJobState::AwaitingConfirm, StartJobEvent::Failed(message)) => (
            StartJobState::Finished,
            StartJobAction::RespondError(message),
        ),
        (s, _) => (s, StartJobAction::Nothing),
    }
}

/// `POST /jobs` answers with a conflict only on the report of a pending
/// job, and a failed database call, while the request is being handled,
/// ends it with a 500 that carries the call's message.
pub proof fn lemma_start_job_answers(state: StartJobState, event: StartJobEvent)
    ensures
        start_job_transition(state, event).1 is RespondConflict ==> event is PendingFound,
        (state is AwaitingPending || state is AwaitingCreate || state is AwaitingConfirm)
            ==> match event {
            StartJobEvent::Failed(message) => start_job_transition(state, event).0 is Finished
                && start_job_transition(state, event).1 == StartJobAction::RespondError(message),
            _ => true,
        },
        match event {
            StartJobEvent::Failed(message) => start_job_transition(state, event).1 is Nothing
                || start_job_transition(state, event).1 == StartJobAction::RespondError(message),
            _ => true,
        },
{
}

/// The state and the actions of the handler after `events`, from `Start`.
pub open spec fn start_job_run(events: Seq<StartJobEvent>) -> (StartJobState, Seq<StartJobAction>)
    decreases events.len(),
{
    if events.len() == 0 {
        (StartJobState::Start, Seq::empty())
    } else {
        let (state, actions) = start_job_run(events.drop_last());
        let (next, action) = start_job_transition(state, events.last());
        (next, actions.push(action))
    }
}

/// A job is queued at most once, only right after the lookup found no
/// pending job, and never when the request was refused.
pub open spec fn creates_only_when_idle(events: Seq<StartJobEvent>, actions: Seq<StartJobAction>) -> bool {
    &&& forall|k: int|
        0 <= k < actions.len() && #[trigger] actions[k] is CreateJob ==> events[k] is NoPending
    &&& forall|k: int, m: int|
        0 <= k < actions.len() && 0 <= m < actions.len() && #[trigger] actions[k] is CreateJob
            && #[trigger] actions[m] is CreateJob ==> k == m
    &&& forall|k: int, m: int|
        0 <= k < actions.len() && 0 <= m < actions.len() && #[trigger] actions[k] is RespondConflict
            ==> !(#[trigger] actions[m] is CreateJob)
}

spec fn has_create(actions: Seq<StartJobAction>) -> bool {
    exists|k: int| 0 <= k < actions.len() && #[trigger] actions[k] is CreateJob
}

spec fn has_conflict(actions: Seq<StartJobAction>) -> bool {
    exists|k: int| 0 <= k < actions.len() && #[trigger] actions[k] is RespondConflict
}

spec fn start_job_invariant(
    events: Seq<StartJobEvent>,
    state: StartJobState,
    actions: Seq<StartJobAction>,
) -> bool {
    &&& actions.len() == events.len()
    &&& creates_only_when_idle(events, actions)
    &&& (state is Start || state is AwaitingPending) ==> !has_create(actions) && !has_conflict(
        actions,
    )
    &&& (state is AwaitingCreate || state is AwaitingConfirm) ==> !has_conflict(actions)
    &&& has_conflict(actions) ==> !has_create(actions)
    &&& (has_conflict(actions) || has_create(actions)) && !(state is AwaitingCreate) && !(
    state is AwaitingConfirm) ==> state is Finished
}

proof fn lemma_start_job_invariant(events: Seq<StartJobEvent>)
    ensures
        start_job_invariant(events, start_job_run(events).0, start_job_run(events).1),
    decreases events.len(),
{
    if events.len() > 0 {
        let prev_events = events.drop_last();
        lemma_start_job_invariant(prev_events);
        let (state, actions) = start_job_run(prev_events);
        let (next, action) = start_job_transition(state, events.last());
        let all = actions.push(action);
        assert(start_job_run(events) == (next, all));
        assert forall|k: int| 0 <= k < actions.len() implies all[k] == actions[k] && events[k]
            == prev_events[k] by {}
        if has_create(all) && !has_create(actions) {
            assert(action is CreateJob);
        }
        if has_conflict(all) && !has_conflict(actions) {
            assert(action is RespondConflict);
        }
        if has_create(actions) {
            let k = choose|k: int| 0 <= k < actions.len() && #[trigger] actions[k] is CreateJob;
            assert(all[k] is CreateJob);
        }
        if has_conflict(actions) {
            let k = choose|k: int| 0 <= k < actions.len() && #[trigger] actions[k] is RespondConflict;
            assert(all[k] is RespondConflict);
        }
    }
}

/// Whatever the database reports, `POST /jobs` queues at most one job, only
/// when no job was pending, and never when it answered with a conflict.
pub proof fn lemma_start_job_creates_only_when_idle(events: Seq<StartJobEvent>)
    ensures
        creates_only_when_idle(events, start_job_run(events).1),
{
    lemma_start_job_invariant(events);
}

/// In any run of the handler, every answer is a reply to the event at the
/// same position; a conflict answers only a report of a pending job, and a
/// failed call is answered, if at all, with its own message.
pub proof fn lemma_start_job_run_answers(events: Seq<StartJobEvent>)
    ensures
        start_job_run(events).1.len() == events.len(),
        forall|k: int|
            0 <= k < events.len() && #[trigger] start_job_run(events).1[k] is RespondConflict
                ==> events[k] is PendingFound,
        forall|k: int|
            0 <= k < events.len() ==> match #[trigger] events[k] {
                StartJobEvent::Failed(message) => start_job_run(events).1[k] is Nothing
                    || start_job_run(events).1[k] == StartJobAction::RespondError(message),
                _ => true,
            },
    decreases events.len(),
{
    if events.len() > 0 {
        let prefix = events.drop_last();
        lemma_start_job_run_answers(prefix);
        let (state, actions) = start_job_run(prefix);
        lemma_start_job_answers(state, events.last());
        assert forall|k: int| 0 <= k < prefix.len() implies start_job_run(events).1[k] == actions[k]
            && events[k] == prefix[k] by {}
    }
}

} // verus!
