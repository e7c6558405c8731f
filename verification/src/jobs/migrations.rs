//! Database migrations: each migration file runs once, recorded by title in
//! the `migrations` table, and the files of a directory run in name order.
use vstd::prelude::*;
use crate::stamps::{is_hyphenated_v4_uuid, new_uuid_v4, utc_now_rfc3339};
use crate::text::{chars_of, lemma_text_le_total, lemma_text_le_transitive, push_str, text_le, text_less};

verus! {

/// The table that records which migrations have run.
pub open spec fn migration_table() -> Seq<char> {
    "migrations"@
}

/// The statement that creates the record table when it is missing.
pub open spec fn setup_sql() -> Seq<char> {
    "\n        CREATE TABLE IF NOT EXISTS "@ + migration_table()
        + " (\n            id uuid NOT NULL PRIMARY KEY,\n            title TEXT NOT NULL,\n            created_at TEXT\n        );\n    "@
}

/// The query for the record of the migration titled `title`.
pub open spec fn existing_migration_sql(title: Seq<char>) -> Seq<char> {
    "SELECT id FROM "@ + migration_table() + " WHERE title = '"@ + title + "';"@
}

/// The statement that records the migration `title` as run at `now` under
/// the id `id`.
pub open spec fn record_migration_sql(id: Seq<char>, title: Seq<char>, now: Seq<char>) -> Seq<char> {
    "INSERT INTO "@ + migration_table() + " (id, title, created_at) VALUES ('"@ + id + "', '"@
        + title + "', '"@ + now + "');"@
}

/// Whether `s` ends with `+00:00`, as the clock's RFC 3339 text does.
pub open spec fn is_rfc3339_utc_text(s: Seq<char>) -> bool {
    s.len() >= 6 && s.subrange(s.len() - 6, s.len() as int) == "+00:00"@
}

/// The statement that creates the record table when it is missing.
pub fn setup_query() -> (res: String)
    ensures
        res@ == setup_sql(),
{
    let mut s = String::new();
    push_str(&mut s, "\n        CREATE TABLE IF NOT EXISTS ");
    push_str(&mut s, "migrations");
    push_str(
        &mut s,
        " (\n            id uuid NOT NULL PRIMARY KEY,\n            title TEXT NOT NULL,\n            created_at TEXT\n        );\n    ",
    );
    s
}

/// The query for the record of the migration titled `title`.
pub fn existing_migration_query(title: &str) -> (res: String)
    ensures
        res@ == existing_migration_sql(title@),
{
    let mut s = String::new();
    push_str(&mut s, "SELECT id FROM ");
    push_str(&mut s, "migrations");
    push_str(&mut s, " WHERE title = '");
    push_str(&mut s, title);
    push_str(&mut s, "';");
    s
}

/// The statement that records `title` as run at `now` under the id `id`.
pub fn record_migration_query_at(id: &str, title: &str, now: &str) -> (res: String)
    ensures
        res@ == record_migration_sql(id@, title@, now@),
{
    let mut s = String::new();
    push_str(&mut s, "INSERT INTO ");
    push_str(&mut s, "migrations");
    push_str(&mut s, " (id, title, created_at) VALUES ('");
    push_str(&mut s, id);
    push_str(&mut s, "', '");
    push_str(&mut s, title);
    push_str(&mut s, "', '");
    push_str(&mut s, now);
    push_str(&mut s, "');");
    assert(s@ =~= record_migration_sql(id@, title@, now@));
    s
}

/// The statement that records `title` as run now, under a fresh random id.
pub fn record_migration_query(title: &str) -> (res: String)
    ensures
        exists|id: Seq<char>, now: Seq<char>|
            is_hyphenated_v4_uuid(id) && is_rfc3339_utc_text(now) && res@ == record_migration_sql(
                id,
                title@,
                now,
            ),
{
    let now = utc_now_rfc3339();
    let id = new_uuid_v4();
    let res = record_migration_query_at(id.as_str(), title, now.as_str());
    assert(is_hyphenated_v4_uuid(id@) && is_rfc3339_utc_text(now@));
    res
}

/// Where the run of one migration stands.
#[derive(Clone, Copy, Debug, PartialEq, Eq, Structural)]
pub enum MigrationState {
    Start,
    /// The record table is being created.
    AwaitingSetup,
    /// The record of this migration has been asked for.
    AwaitingRecordLookup,
    /// The migration's statements are running.
    AwaitingBatch,
    /// The run is being recorded.
    AwaitingRecord,
    Finished,
}

/// What the application reports back.
#[derive(Clone, Copy, Debug, PartialEq, Eq, Structural)]
pub enum MigrationEvent {
    /// The run begins.
    Begin,
    /// The requested statement ran.
    Executed,
    /// The migration has already been recorded.
    RecordFound,
    /// No record of the migration exists.
    NoRecord,
}

/// How the run of a migration ends.
#[derive(Clone, Copy, Debug, PartialEq, Eq, Structural)]
pub enum MigrationOutcome {
    /// It had run before and was left alone.
    Skipped,
    /// It ran now and was recorded.
    Ran,
}

/// What the application is to do next.
#[derive(Clone, Copy, Debug, PartialEq, Eq, Structural)]
pub enum MigrationAction {
    /// Execute `setup_query`.
    Setup,
    /// Run `existing_migration_query` for the title and report whether a row came back.
    LookUpRecord,
    /// Execute the migration's statements.
    RunBatch,
    /// Execute `record_migration_query` for the title.
    Record,
    /// Stop with this outcome.
    Finish(MigrationOutcome),
    /// Nothing: the event does not fit the current state.
    Nothing,
}

/// The decisions of a migration run: create the record table, look the
/// migration up, and either skip it (it is recorded) or run it and record it.
pub open spec fn migration_transition(state: MigrationState, event: MigrationEvent) -> (
    MigrationState,
    MigrationAction,
) {
    match (state, event) {
        (MigrationState::Start, MigrationEvent::Begin) => (
            MigrationState::AwaitingSetup,
            MigrationAction::Setup,
        ),
        (MigrationState::AwaitingSetup, MigrationEvent::Executed) => (
            MigrationState::AwaitingRecordLookup,
            MigrationAction::LookUpRecord,
        ),
        (MigrationState::AwaitingRecordLookup, MigrationEvent::RecordFound) => (
            MigrationState::Finished,
            MigrationAction::Finish(MigrationOutcome::Skipped),
        ),
        (MigrationState::AwaitingRecordLookup, MigrationEvent::NoRecord) => (
            MigrationState::AwaitingBatch,
            MigrationAction::RunBatch,
        ),
        (MigrationState::AwaitingBatch, MigrationEvent::Executed) => (
            MigrationState::AwaitingRecord,
            MigrationAction::Record,
        ),
        (MigrationState::AwaitingRecord, MigrationEvent::Executed) => (
            MigrationState::Finished,
            MigrationAction::Finish(MigrationOutcome::Ran),
        ),
        (s, _) => (s, MigrationAction::Nothing),
    }
}

/// The next state and action of a migration run (see `migration_transition`).
pub fn migration_step(state: MigrationState, event: MigrationEvent) -> (res: (
    MigrationState,
    MigrationAction,
))
    ensures
        res == migration_transition(state, event),
{
    match (state, event) {
        (MigrationState::Start, MigrationEvent::Begin) => (
            MigrationState::AwaitingSetup,
            MigrationAction::Setup,
        ),
        (MigrationState::AwaitingSetup, MigrationEvent::Executed) => (
            MigrationState::AwaitingRecordLookup,
            MigrationAction::LookUpRecord,
        ),
        (MigrationState::AwaitingRecordLookup, MigrationEvent::RecordFound) => (
            MigrationState::Finished,
            MigrationAction::Finish(MigrationOutcome::Skipped),
        ),
        (MigrationState::AwaitingRecordLookup, MigrationEvent::NoRecord) => (
            MigrationState::AwaitingBatch,
            MigrationAction::RunBatch,
        ),
        (MigrationState::AwaitingBatch, MigrationEvent::Executed) => (
            MigrationState::AwaitingRecord,
            MigrationAction::Record,
        ),
        (MigrationState::AwaitingRecord, MigrationEvent::Executed) => (
            MigrationState::Finished,
            MigrationAction::Finish(MigrationOutcome::Ran),
        ),
        (s, _) => (s, MigrationAction::Nothing),
    }
}

/// The state and the actions of a migration run that has seen `events`.
pub open spec fn migration_run(events: Seq<MigrationEvent>) -> (MigrationState, Seq<MigrationAction>)
    decreases events.len(),
{
    if events.len() == 0 {
        (MigrationState::Start, Seq::empty())
    } else {
        let (state, actions) = migration_run(events.drop_last());
        let (next, action) = migration_transition(state, events.last());
        (next, actions.push(action))
    }
}

/// The migration's statements run at most once, only right after the lookup
/// found no record, and never in a run that skipped the migration.
pub open spec fn batch_runs_once_when_unrecorded(
    events: Seq<MigrationEvent>,
    actions: Seq<MigrationAction>,
) -> bool {
    &&& forall|k: int|
        0 <= k < actions.len() && #[trigger] actions[k] == MigrationAction::RunBatch ==> events[k]
            == MigrationEvent::NoRecord
    &&& forall|k: int, m: int|
        0 <= k < actions.len() && 0 <= m < actions.len() && #[trigger] actions[k]
            == MigrationAction::RunBatch && #[trigger] actions[m] == MigrationAction::RunBatch
            ==> k == m
    &&& forall|k: int, m: int|
        0 <= k < actions.len() && 0 <= m < actions.len() && #[trigger] actions[k]
            == MigrationAction::Finish(MigrationOutcome::Skipped) ==> #[trigger] actions[m]
            != MigrationAction::RunBatch
}

spec fn has_batch(actions: Seq<MigrationAction>) -> bool {
    exists|k: int| 0 <= k < actions.len() && #[trigger] actions[k] == MigrationAction::RunBatch
}

spec fn has_skip(actions: Seq<MigrationAction>) -> bool {
    exists|k: int|
        0 <= k < actions.len() && #[trigger] actions[k] == MigrationAction::Finish(
            MigrationOutcome::Skipped,
        )
}

spec fn migration_invariant(
    events: Seq<MigrationEvent>,
    state: MigrationState,
    actions: Seq<MigrationAction>,
) -> bool {
    &&& actions.len() == events.len()
    &&& batch_runs_once_when_unrecorded(events, actions)
    &&& (state == MigrationState::Start || state == MigrationState::AwaitingSetup || state
        == MigrationState::AwaitingRecordLookup) ==> !has_batch(actions) && !has_skip(actions)
    &&& (state == MigrationState::AwaitingBatch || state == MigrationState::AwaitingRecord)
        ==> !has_skip(actions)
    &&& has_skip(actions) ==> !has_batch(actions)
    &&& (has_skip(actions) || has_batch(actions)) && state != MigrationState::AwaitingBatch && state
        != MigrationState::AwaitingRecord ==> state == MigrationState::Finished
}

proof fn lemma_migration_invariant(events: Seq<MigrationEvent>)
    ensures
        migration_invariant(events, migration_run(events).0, migration_run(events).1),
    decreases events.len(),
{
    if events.len() > 0 {
        let prev_events = events.drop_last();
        lemma_migration_invariant(prev_events);
        let (state, actions) = migration_run(prev_events);
        let (next, action) = migration_transition(state, events.last());
        let all = actions.push(action);
        assert(migration_run(events) == (next, all));
        assert forall|k: int| 0 <= k < actions.len() implies all[k] == actions[k] && events[k]
            == prev_events[k] by {}
        if has_batch(all) && !has_batch(actions) {
            assert(action == MigrationAction::RunBatch);
        }
        if has_skip(all) && !has_skip(actions) {
            assert(action == MigrationAction::Finish(MigrationOutcome::Skipped));
        }
        if has_batch(actions) {
            let k = choose|k: int| 0 <= k < actions.len() && #[trigger] actions[k] == MigrationAction::RunBatch;
            assert(all[k] == MigrationAction::RunBatch);
        }
        if has_skip(actions) {
            let k = choose|k: int|
                0 <= k < actions.len() && #[trigger] actions[k] == MigrationAction::Finish(
                    MigrationOutcome::Skipped,
                );
            assert(all[k] == MigrationAction::Finish(MigrationOutcome::Skipped));
        }
    }
}

/// Whatever the application reports, a migration's statements run at most
/// once per run, only when no record of the migration was found, and never
/// when the run skipped it.
pub proof fn lemma_migration_runs_once_when_unrecorded(events: Seq<MigrationEvent>)
    ensures
        batch_runs_once_when_unrecorded(events, migration_run(events).1),
{
    lemma_migration_invariant(events);
}

/// Whether the texts are in lexicographic order.
pub open spec fn texts_sorted(s: Seq<Seq<char>>) -> bool {
    forall|i: int, j: int| 0 <= i < j < s.len() ==> text_le(#[trigger] s[i], #[trigger] s[j])
}

proof fn lemma_insert_multiset(s: Seq<Seq<char>>, p: int, x: Seq<char>)
    requires
        0 <= p <= s.len(),
    ensures
        s.insert(p, x).to_multiset() == s.to_multiset().insert(x),
{
    broadcast use vstd::seq_lib::group_to_multiset_ensures;

    let t = s.insert(p, x);
    assert(t.remove(p) =~= s);
    assert(t.to_multiset().remove(x) == s.to_multiset());
    assert(t.contains(x)) by {
        assert(t[p] == x);
    }
    assert(t.to_multiset().count(x) > 0);
    assert(t.to_multiset() =~= s.to_multiset().insert(x));
}

/// The file names in lexicographic order, as `slice::sort` puts them: the
/// same names, each as often as given, sorted.
pub fn sort_migration_files(files: Vec<String>) -> (res: Vec<String>)
    ensures
        texts_sorted(res.deep_view()),
        res.deep_view().to_multiset() == files.deep_view().to_multiset(),
{
    broadcast use vstd::seq_lib::group_to_multiset_ensures;

    let mut res: Vec<String> = Vec::new();
    let mut keys: Vec<Vec<char>> = Vec::new();
    let mut i: usize = 0;
    while i < files.len()
        invariant
            i <= files@.len(),
            keys@.len() == res@.len(),
            forall|j: int| 0 <= j < keys@.len() ==> (#[trigger] keys@[j])@ == res@[j]@,
            texts_sorted(res.deep_view()),
            res.deep_view().to_multiset() == files.deep_view().take(i as int).to_multiset(),
        decreases files.len() - i,
    {
        let name = files[i].clone();
        let key = chars_of(name.as_str());
        let mut p: usize = 0;
        while p < keys.len() && !text_less(&key, &keys[p])
            invariant
                p <= keys@.len(),
                keys@.len() == res@.len(),
                forall|j: int| 0 <= j < keys@.len() ==> (#[trigger] keys@[j])@ == res@[j]@,
                forall|r: int| 0 <= r < p ==> text_le(#[trigger] res.deep_view()[r], key@),
            decreases keys.len() - p,
        {
            assert(res.deep_view()[p as int] == keys@[p as int]@);
            p = p + 1;
        }
        let ghost old_view = res.deep_view();
        proof {
            if p < keys@.len() {
                assert(old_view[p as int] == keys@[p as int]@);
                lemma_text_le_total(key@, old_view[p as int]);
                assert forall|r: int| p <= r < old_view.len() implies text_le(
                    key@,
                    #[trigger] old_view[r],
                ) by {
                    if r > p {
                        lemma_text_le_transitive(key@, old_view[p as int], old_view[r]);
                    }
                }
            }
            assert forall|a: int, b: int|
                0 <= a < b < old_view.len() + 1 implies text_le(
                #[trigger] old_view.insert(p as int, key@)[a],
                #[trigger] old_view.insert(p as int, key@)[b],
            ) by {
                let t = old_view.insert(p as int, key@);
                if b < p {
                } else if b == p {
                } else if a < p {
                    lemma_text_le_transitive(old_view[a], key@, old_view[b - 1]);
                } else if a == p {
                } else {
                }
            }
            lemma_insert_multiset(old_view, p as int, key@);
            assert(key@ == files.deep_view()[i as int]);
            assert(files.deep_view().take(i + 1) =~= files.deep_view().take(i as int).push(
                files.deep_view()[i as int],
            ));
        }
        let ghost old_res = res@;
        let ghost old_keys = keys@;
        res.insert(p, name);
        keys.insert(p, key);
        proof {
            assert(res.deep_view() =~= old_view.insert(p as int, key@));
            let before = files.deep_view().take(i as int);
            before.to_multiset_ensures();
            assert(before.push(files.deep_view()[i as int]).to_multiset() =~= before.to_multiset().insert(
                files.deep_view()[i as int],
            ));
            assert(res.deep_view().to_multiset() == files.deep_view().take(i + 1).to_multiset());
            assert forall|j: int| 0 <= j < keys@.len() implies (#[trigger] keys@[j])@ == res@[j]@ by {
                if j < p {
                    assert(keys@[j] == old_keys[j] && res@[j] == old_res[j]);
                } else if j > p {
                    assert(keys@[j] == old_keys[j - 1] && res@[j] == old_res[j - 1]);
                }
            }
        }
        i = i + 1;
    }
    assert(files.deep_view().take(files@.len() as int) =~= files.deep_view());
    res
}

} // verus!
