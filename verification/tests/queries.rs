use zero2prod::jobs::migrations::{
    existing_migration_query, record_migration_query, record_migration_query_at, setup_query,
};
use zero2prod::models::jobs::{
    create_job, create_job_at, pending_filter_text, select_with_pagination, update_row,
    update_row_at, JobStatus, JobType,
};
use zero2prod::models::scrape;
use zero2prod::models::sm_scrape;
use zero2prod::models::utils::create_paginator;

fn is_v4_uuid(s: &str) -> bool {
    let chars: Vec<char> = s.chars().collect();
    chars.len() == 36
        && chars.iter().enumerate().all(|(i, c)| {
            if i == 8 || i == 13 || i == 18 || i == 23 {
                *c == '-'
            } else {
                c.is_ascii_digit() || ('a'..='f').contains(c)
            }
        })
        && chars[14] == '4'
        && "89ab".contains(chars[19])
}

#[test]
fn paginator_bare_select() {
    let paginate = create_paginator("jobs");
    assert_eq!(paginate("id", "", "", "", 0, 0), "SELECT id FROM jobs;");
}

#[test]
fn paginator_every_clause() {
    let paginate = create_paginator("jobs");
    assert_eq!(
        paginate("id, name", "a = 1", "created_at", "DESC", 10, 20),
        "SELECT id, name FROM jobs WHERE a = 1 ORDER BY created_at DESC LIMIT 10 OFFSET 20;"
    );
}

#[test]
fn paginator_default_direction_is_ascending() {
    let paginate = create_paginator("scrapes");
    assert_eq!(
        paginate("*", "", "score", "", 0, 5),
        "SELECT * FROM scrapes ORDER BY score ASC OFFSET 5;"
    );
}

#[test]
fn paginator_direction_without_sort_column_is_ignored() {
    let paginate = create_paginator("jobs");
    assert_eq!(paginate("id", "", "", "DESC", 4294967295, 0), "SELECT id FROM jobs LIMIT 4294967295;");
}

#[test]
fn jobs_page_query() {
    assert_eq!(
        select_with_pagination("id, job_type", "job_status = 0", "created_at", "ASC", 1, 0),
        "SELECT id, job_type FROM jobs WHERE job_status = 0 ORDER BY created_at ASC LIMIT 1;"
    );
}

#[test]
fn scrapes_page_query_table() {
    assert_eq!(
        scrape::select_with_pagination("id", "", "", "", 2, 0),
        "SELECT id FROM scrapes LIMIT 2;"
    );
}

#[test]
fn job_codes() {
    assert_eq!(JobType::SMScrape.as_i32(), 0);
    assert_eq!(JobType::Embed.as_i32(), 1);
    assert_eq!(JobStatus::Pending.as_i32(), 0);
    assert_eq!(JobStatus::Running.as_i32(), 1);
    assert_eq!(JobStatus::Completed.as_i32(), 2);
    assert_eq!(JobStatus::Failed.as_i32(), 3);
    assert_eq!(pending_filter_text(), "job_status = 0");
}

#[test]
fn update_row_running() {
    assert_eq!(
        update_row_at("abc", JobStatus::Running, "NOW"),
        "UPDATE jobs SET job_status = 1, updated_at = 'NOW'  WHERE id = 'abc';"
    );
}

#[test]
fn update_row_completed_sets_completion_time() {
    assert_eq!(
        update_row_at("abc", JobStatus::Completed, "NOW"),
        "UPDATE jobs SET job_status = 2, updated_at = 'NOW' , completed_at = 'NOW'  WHERE id = 'abc';"
    );
}

#[test]
fn update_row_uses_the_clock() {
    let q = update_row("job-1", JobStatus::Failed);
    assert!(q.starts_with("UPDATE jobs SET job_status = 3, updated_at = '"));
    assert!(q.ends_with(" UTC'  WHERE id = 'job-1';"));
    assert!(!q.contains("completed_at"));
}

#[test]
fn create_job_at_text() {
    assert_eq!(
        create_job_at(JobType::SMScrape, JobStatus::Pending, "ID", "NOW"),
        "INSERT INTO jobs (id, job_type, job_status, created_at, updated_at) VALUES ('ID', 0, 0, 'NOW', 'NOW');"
    );
}

#[test]
fn create_job_fresh_id_and_time() {
    let q = create_job(JobType::Embed, JobStatus::Running);
    let prefix = "INSERT INTO jobs (id, job_type, job_status, created_at, updated_at) VALUES ('";
    assert!(q.starts_with(prefix));
    let id = &q[prefix.len()..prefix.len() + 36];
    assert!(is_v4_uuid(id));
    let rest = &q[prefix.len() + 36..];
    assert!(rest.starts_with("', 1, 1, '"));
    assert!(rest.ends_with(" UTC');"));
}

#[test]
fn create_job_ids_differ() {
    assert_ne!(
        create_job(JobType::SMScrape, JobStatus::Pending),
        create_job(JobType::SMScrape, JobStatus::Pending)
    );
}

#[test]
fn scrape_page_without_filters() {
    assert_eq!(
        scrape::select_page(&false, &None),
        "\n        SELECT s.id, s.url, s.content, s.scraped_at, se.embedding\n        FROM scrapes AS s\n        LEFT JOIN scrape_embeddings AS se\n        ON se.scrape_id = s.id\n     ORDER BY scraped_at ASC LIMIT ? OFFSET ?"
    );
}

#[test]
fn scrape_page_with_both_filters() {
    let batch = 7;
    let q = scrape::select_page(&true, &Some(&batch));
    assert!(q.ends_with(
        "ON se.scrape_id = s.id\n     WHERE se.embedding IS NULL AND s.batch_id = 7 ORDER BY scraped_at ASC LIMIT ? OFFSET ?"
    ));
}

#[test]
fn scrape_page_with_one_filter() {
    let batch = -12;
    assert!(scrape::select_page(&false, &Some(&batch))
        .ends_with("\n     WHERE s.batch_id = -12 ORDER BY scraped_at ASC LIMIT ? OFFSET ?"));
    assert!(scrape::select_page(&true, &None)
        .ends_with("\n     WHERE se.embedding IS NULL ORDER BY scraped_at ASC LIMIT ? OFFSET ?"));
}

#[test]
fn sm_scrape_page() {
    assert_eq!(
        sm_scrape::select_page(false),
        "\n        SELECT id, url, content, scraped_at, embedding\n        FROM sm_scrapes\n     ORDER BY scraped_at ASC LIMIT ? OFFSET ?"
    );
    assert_eq!(
        sm_scrape::select_page(true),
        "\n        SELECT id, url, content, scraped_at, embedding\n        FROM sm_scrapes\n     WHERE embedding IS NULL ORDER BY scraped_at ASC LIMIT ? OFFSET ?"
    );
}

#[test]
fn migration_queries() {
    assert_eq!(
        setup_query(),
        "\n        CREATE TABLE IF NOT EXISTS migrations (\n            id uuid NOT NULL PRIMARY KEY,\n            title TEXT NOT NULL,\n            created_at TEXT\n        );\n    "
    );
    assert_eq!(
        existing_migration_query("001_init.sql"),
        "SELECT id FROM migrations WHERE title = '001_init.sql';"
    );
    assert_eq!(
        record_migration_query_at("ID", "001_init.sql", "NOW"),
        "INSERT INTO migrations (id, title, created_at) VALUES ('ID', '001_init.sql', 'NOW');"
    );
}

#[test]
fn record_migration_query_fresh_id_and_time() {
    let q = record_migration_query("m.sql");
    let prefix = "INSERT INTO migrations (id, title, created_at) VALUES ('";
    assert!(q.starts_with(prefix));
    assert!(is_v4_uuid(&q[prefix.len()..prefix.len() + 36]));
    assert!(q[prefix.len() + 36..].starts_with("', 'm.sql', '"));
    assert!(q.ends_with("+00:00');"));
}
