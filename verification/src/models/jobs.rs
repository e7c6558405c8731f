//! Background jobs: their kinds, their states and the SQL that records them.
use vstd::prelude::*;
use crate::models::utils::{create_paginator, paginated_select, present_if};
use crate::stamps::{is_hyphenated_v4_uuid, new_uuid_v4, utc_now_display};
use crate::text::{decimal, push_signed_decimal, push_str, signed_decimal};

verus! {

/// The schema of the `jobs` table.
pub const INIT_TABLE: &'static str = "
CREATE TABLE IF NOT EXISTS jobs (
    id TEXT PRIMARY KEY,
    job_type INTEGER NOT NULL,
    job_status INTEGER NOT NULL,
    created_at TEXT NOT NULL,
    updated_at TEXT NOT NULL,
    completed_at TEXT
);
";

/// The kind of work a job does.
#[derive(Clone, Copy, Debug, PartialEq, Eq, Structural)]
pub enum JobType {
    SMScrape,
    Embed,
}

/// The number a job type is stored as.
pub open spec fn job_type_code(job_type: JobType) -> i32 {
    match job_type {
        JobType::SMScrape => 0,
        JobType::Embed => 1,
    }
}

impl JobType {
    /// The number this job type is stored as: 0 for a scrape, 1 for an embedding run.
    pub fn as_i32(&self) -> (code: i32)
        ensures
            code == job_type_code(*self),
    {
        match self {
            JobType::SMScrape => 0,
            JobType::Embed => 1,
        }
    }
}

/// Where a job stands.
#[derive(Clone, Copy, Debug, PartialEq, Eq, Structural)]
pub enum JobStatus {
    Pending,
    Running,
    Completed,
    Failed,
}

/// The number a job status is stored as, in declaration order.
pub open spec fn job_status_code(status: JobStatus) -> i32 {
    match status {
        JobStatus::Pending => 0,
        JobStatus::Running => 1,
        JobStatus::Completed => 2,
        JobStatus::Failed => 3,
    }
}

impl JobStatus {
    /// The number this status is stored as: 0 pending, 1 running, 2 completed, 3 failed.
    pub fn as_i32(&self) -> (code: i32)
        ensures
            code == job_status_code(*self),
    {
        match self {
            JobStatus::Pending => 0,
            JobStatus::Running => 1,
            JobStatus::Completed => 2,
            JobStatus::Failed => 3,
        }
    }
}

/// The `INSERT` that records a new job with the given id, created and
/// updated at `now`.
pub open spec fn create_job_sql(
    job_type: JobType,
    job_status: JobStatus,
    id: Seq<char>,
    now: Seq<char>,
) -> Seq<char> {
    "INSERT INTO jobs (id, job_type, job_status, created_at, updated_at) VALUES ('"@ + id
        + "', "@ + signed_decimal(job_type_code(job_type) as int) + ", "@
        + signed_decimal(job_status_code(job_status) as int) + ", '"@ + now + "', '"@ + now
        + "');"@
}

/// The `UPDATE` that moves job `id` to `status` at `now`; a completed job
/// also gets its completion time.
pub open spec fn update_row_sql(id: Seq<char>, status: JobStatus, now: Seq<char>) -> Seq<char> {
    "UPDATE jobs SET job_status = "@ + signed_decimal(job_status_code(status) as int)
        + ", updated_at = '"@ + now + "' "@
        + present_if(status == JobStatus::Completed, ", completed_at = '"@ + now + "' "@)
        + " WHERE id = '"@ + id + "';"@
}

/// Each kind and status is stored as its position in declaration order,
/// so no two share a number.
pub proof fn lemma_job_codes(a: JobStatus, b: JobStatus, x: JobType, y: JobType)
    ensures
        job_status_code(JobStatus::Pending) == 0,
        job_status_code(JobStatus::Running) == 1,
        job_status_code(JobStatus::Completed) == 2,
        job_status_code(JobStatus::Failed) == 3,
        job_type_code(JobType::SMScrape) == 0,
        job_type_code(JobType::Embed) == 1,
        job_status_code(a) == job_status_code(b) ==> a == b,
        job_type_code(x) == job_type_code(y) ==> x == y,
{
}

/// Only a completed job gets a completion time: the update to any other
/// status sets the status and the update time and nothing else, and the
/// update to `Completed` sets the completion time to the same instant.
pub proof fn lemma_update_row_sets_completion_only_when_completed(
    id: Seq<char>,
    status: JobStatus,
    now: Seq<char>,
)
    ensures
        status != JobStatus::Completed ==> update_row_sql(id, status, now) == "UPDATE jobs SET job_status = "@
            + signed_decimal(job_status_code(status) as int) + ", updated_at = '"@ + now
            + "'  WHERE id = '"@ + id + "';"@,
        update_row_sql(id, JobStatus::Completed, now) == "UPDATE jobs SET job_status = 2, updated_at = '"@
            + now + "' , completed_at = '"@ + now + "'  WHERE id = '"@ + id + "';"@,
{
    reveal_strlit("' ");
    reveal_strlit(" WHERE id = '");
    reveal_strlit("'  WHERE id = '");
    reveal_strlit("UPDATE jobs SET job_status = ");
    reveal_strlit(", updated_at = '");
    reveal_strlit("UPDATE jobs SET job_status = 2, updated_at = '");
    reveal_strlit("' , completed_at = '");
    reveal_strlit(", completed_at = '");
    assert(decimal(2) =~= seq!['2']);
    if status != JobStatus::Completed {
        assert(update_row_sql(id, status, now) =~= "UPDATE jobs SET job_status = "@ + signed_decimal(
            job_status_code(status) as int,
        ) + ", updated_at = '"@ + now + "'  WHERE id = '"@ + id + "';"@);
    }
    assert(update_row_sql(id, JobStatus::Completed, now) =~= "UPDATE jobs SET job_status = 2, updated_at = '"@
        + now + "' , completed_at = '"@ + now + "'  WHERE id = '"@ + id + "';"@);
}

/// Whether `s` ends with ` UTC`, as the clock's text does.
pub open spec fn is_utc_text(s: Seq<char>) -> bool {
    s.len() >= 4 && s.subrange(s.len() - 4, s.len() as int) == " UTC"@
}

/// The `INSERT` for a new job with the given id and time.
pub fn create_job_at(job_type: JobType, job_status: JobStatus, id: &str, now: &str) -> (res: String)
    ensures
        res@ == create_job_sql(job_type, job_status, id@, now@),
{
    let mut s = String::new();
    push_str(&mut s, "INSERT INTO jobs (id, job_type, job_status, created_at, updated_at) VALUES ('");
    push_str(&mut s, id);
    push_str(&mut s, "', ");
    push_signed_decimal(&mut s, job_type.as_i32());
    push_str(&mut s, ", ");
    push_signed_decimal(&mut s, job_status.as_i32());
    push_str(&mut s, ", '");
    push_str(&mut s, now);
    push_str(&mut s, "', '");
    push_str(&mut s, now);
    push_str(&mut s, "');");
    assert(s@ =~= create_job_sql(job_type, job_status, id@, now@));
    s
}

/// The `INSERT` for a new job, with a fresh random id and the current time.
pub fn create_job(job_type: JobType, job_status: JobStatus) -> (res: String)
    ensures
        exists|id: Seq<char>, now: Seq<char>|
            is_hyphenated_v4_uuid(id) && is_utc_text(now) && res@ == create_job_sql(
                job_type,
                job_status,
                id,
                now,
            ),
{
    let now = utc_now_display();
    let uuid = new_uuid_v4();
    let res = create_job_at(job_type, job_status, uuid.as_str(), now.as_str());
    assert(is_hyphenated_v4_uuid(uuid@) && is_utc_text(now@));
    res
}

/// The `UPDATE` that moves job `id` to `job_status` at the given time.
pub fn update_row_at(id: &str, job_status: JobStatus, now: &str) -> (res: String)
    ensures
        res@ == update_row_sql(id@, job_status, now@),
{
    let mut result = String::new();
    push_str(&mut result, "UPDATE jobs SET job_status = ");
    push_signed_decimal(&mut result, job_status.as_i32());
    push_str(&mut result, ", updated_at = '");
    push_str(&mut result, now);
    push_str(&mut result, "' ");
    let ghost head = result@;
    if job_status == JobStatus::Completed {
        push_str(&mut result, ", completed_at = '");
        push_str(&mut result, now);
        push_str(&mut result, "' ");
    }
    assert(result@ =~= head + present_if(
        job_status == JobStatus::Completed,
        ", completed_at = '"@ + now@ + "' "@,
    ));
    push_str(&mut result, " WHERE id = '");
    push_str(&mut result, id);
    push_str(&mut result, "';");
    assert(result@ =~= update_row_sql(id@, job_status, now@));
    result
}

/// The `UPDATE` that moves job `id` to `job_status` now.
pub fn update_row(id: &str, job_status: JobStatus) -> (res: String)
    ensures
        exists|now: Seq<char>| is_utc_text(now) && res@ == update_row_sql(id@, job_status, now),
{
    let now = utc_now_display();
    let res = update_row_at(id, job_status, now.as_str());
    assert(is_utc_text(now@));
    res
}

/// The filter that selects pending jobs.
pub open spec fn pending_filter() -> Seq<char> {
    "job_status = "@ + signed_decimal(job_status_code(JobStatus::Pending) as int)
}

/// The filter that selects pending jobs (see `pending_filter`).
pub fn pending_filter_text() -> (res: String)
    ensures
        res@ == pending_filter(),
{
    let mut q = String::new();
    push_str(&mut q, "job_status = ");
    push_signed_decimal(&mut q, JobStatus::Pending.as_i32());
    assert(q@ =~= pending_filter());
    q
}

/// A page of the `jobs` table (see `paginated_select`).
pub fn select_with_pagination(
    columns: &str,
    q: &str,
    sort_by: &str,
    sort_direction: &str,
    limit: u32,
    offset: u32,
) -> (res: String)
    ensures
        res@ == paginated_select("jobs"@, columns@, q@, sort_by@, sort_direction@, limit, offset),
{
    let paginate = create_paginator("jobs");
    paginate(columns, q, sort_by, sort_direction, limit, offset)
}

} // verus!
