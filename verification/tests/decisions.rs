use zero2prod::configuration::{configuration_file_name, listen_address};
use zero2prod::db::{db_directory, plan_database, replica_auth_token, DbConfigError};
use zero2prod::jobs::migrations::{
    migration_step, sort_migration_files, MigrationAction, MigrationEvent, MigrationOutcome,
    MigrationState,
};
use zero2prod::jobs::similars::most_similar;
use zero2prod::jobs::process::{
    pending_job_query, process_job_step, ProcessJobAction, ProcessJobEvent, ProcessJobState,
    ProcessOutcome,
};
use zero2prod::models::fast_embeds::FastEmbed;
use zero2prod::models::jobs::{JobStatus, JobType};
use zero2prod::models::scrape_embeddings::ScrapeEmbedding;
use zero2prod::routes::green_recs::{rank_closest, GreenRecQuery, SimilarityOptions};
use zero2prod::routes::index::{home_scrapes_query, recent_scrape_job_query};
use zero2prod::routes::jobs::{
    conflict_message, pending_job_id_query, recent_jobs_query, start_job_step, StartJobAction,
    StartJobEvent, StartJobState,
};
use zero2prod::routes::scrapes::{
    scrapes_page_query, QueryParams, Response, Scrape, SortDirection, SortOptions,
};
use zero2prod::routes::subscriptions::{
    subscription_params, validate_subscriber, SubscribeError,
};

fn run_process(events: Vec<ProcessJobEvent>) -> (ProcessJobState, Vec<ProcessJobAction>) {
    let mut state = ProcessJobState::Start;
    let mut actions = Vec::new();
    for event in events {
        let (next, action) = process_job_step(state, event);
        state = next;
        actions.push(action);
    }
    (state, actions)
}

#[test]
fn process_job_runs_a_scrape_job() {
    let (state, actions) = run_process(vec![
        ProcessJobEvent::Begin,
        ProcessJobEvent::PendingFound { id: "j1".to_string(), job_type: 0 },
        ProcessJobEvent::StatusUpdated,
        ProcessJobEvent::JobDone,
        ProcessJobEvent::StatusUpdated,
    ]);
    assert!(matches!(state, ProcessJobState::Finished));
    assert!(matches!(actions[0], ProcessJobAction::QueryPending));
    assert!(matches!(&actions[1], ProcessJobAction::MarkStatus { id, status: JobStatus::Running } if id == "j1"));
    assert!(matches!(actions[2], ProcessJobAction::RunJob(JobType::SMScrape)));
    assert!(matches!(&actions[3], ProcessJobAction::MarkStatus { id, status: JobStatus::Completed } if id == "j1"));
    assert!(matches!(actions[4], ProcessJobAction::Finish(ProcessOutcome::Completed)));
}

#[test]
fn process_job_runs_an_embedding_job() {
    let (_, actions) = run_process(vec![
        ProcessJobEvent::Begin,
        ProcessJobEvent::PendingFound { id: "j2".to_string(), job_type: 1 },
        ProcessJobEvent::StatusUpdated,
    ]);
    assert!(matches!(actions[2], ProcessJobAction::RunJob(JobType::Embed)));
}

#[test]
fn process_job_leaves_unknown_jobs_running() {
    let (state, actions) = run_process(vec![
        ProcessJobEvent::Begin,
        ProcessJobEvent::PendingFound { id: "j3".to_string(), job_type: 7 },
        ProcessJobEvent::StatusUpdated,
        ProcessJobEvent::JobDone,
    ]);
    assert!(matches!(state, ProcessJobState::Finished));
    assert!(matches!(actions[2], ProcessJobAction::Finish(ProcessOutcome::UnknownJobType)));
    assert!(matches!(actions[3], ProcessJobAction::Nothing));
}

#[test]
fn process_job_without_pending_jobs() {
    let (_, actions) = run_process(vec![ProcessJobEvent::Begin, ProcessJobEvent::NoPending]);
    assert!(matches!(actions[1], ProcessJobAction::Finish(ProcessOutcome::NoPendingJob)));
    let (_, actions) = run_process(vec![ProcessJobEvent::Begin, ProcessJobEvent::LookupFailed]);
    assert!(matches!(actions[1], ProcessJobAction::Finish(ProcessOutcome::LookupFailed)));
}

#[test]
fn process_job_ignores_events_out_of_turn() {
    let (state, actions) = run_process(vec![
        ProcessJobEvent::JobDone,
        ProcessJobEvent::Begin,
        ProcessJobEvent::JobDone,
    ]);
    assert!(matches!(state, ProcessJobState::AwaitingPending));
    assert!(matches!(actions[0], ProcessJobAction::Nothing));
    assert!(matches!(actions[2], ProcessJobAction::Nothing));
}

#[test]
fn process_job_completes_only_after_running() {
    let (_, actions) = run_process(vec![
        ProcessJobEvent::Begin,
        ProcessJobEvent::JobDone,
        ProcessJobEvent::PendingFound { id: "x".to_string(), job_type: 1 },
        ProcessJobEvent::JobDone,
        ProcessJobEvent::StatusUpdated,
        ProcessJobEvent::JobDone,
        ProcessJobEvent::StatusUpdated,
        ProcessJobEvent::Begin,
    ]);
    let completed = actions
        .iter()
        .position(|a| matches!(a, ProcessJobAction::MarkStatus { status: JobStatus::Completed, .. }))
        .unwrap();
    let running = actions
        .iter()
        .position(|a| matches!(a, ProcessJobAction::MarkStatus { status: JobStatus::Running, .. }))
        .unwrap();
    let ran = actions.iter().position(|a| matches!(a, ProcessJobAction::RunJob(_))).unwrap();
    assert!(running < ran && ran < completed);
    let finish = actions.iter().position(|a| matches!(a, ProcessJobAction::Finish(_))).unwrap();
    assert!(actions[finish + 1..].iter().all(|a| matches!(a, ProcessJobAction::Nothing)));
}

#[test]
fn pending_queries() {
    assert_eq!(
        pending_job_query(),
        "SELECT id, job_type FROM jobs WHERE job_status = 0 ORDER BY created_at ASC LIMIT 1;"
    );
    assert_eq!(
        pending_job_id_query(),
        "SELECT id FROM jobs WHERE job_status = 0 ORDER BY created_at ASC LIMIT 1;"
    );
    assert_eq!(
        recent_jobs_query(10),
        "SELECT id, job_type, job_status, created_at, completed_at FROM jobs ORDER BY created_at DESC LIMIT 10;"
    );
}

fn run_start(events: Vec<StartJobEvent>) -> Vec<StartJobAction> {
    let mut state = StartJobState::Start;
    let mut actions = Vec::new();
    for event in events {
        let (next, action) = start_job_step(state, event);
        state = next;
        actions.push(action);
    }
    actions
}

#[test]
fn start_job_refuses_when_a_job_is_pending() {
    let actions = run_start(vec![
        StartJobEvent::Begin,
        StartJobEvent::PendingFound,
        StartJobEvent::NoPending,
        StartJobEvent::Executed,
    ]);
    assert!(matches!(actions[1], StartJobAction::RespondConflict));
    assert!(!actions.iter().any(|a| matches!(a, StartJobAction::CreateJob)));
    assert_eq!(conflict_message(), "A job is already running");
}

#[test]
fn start_job_queues_a_scrape() {
    let actions = run_start(vec![
        StartJobEvent::Begin,
        StartJobEvent::NoPending,
        StartJobEvent::Executed,
        StartJobEvent::RowsRead,
    ]);
    assert!(matches!(actions[0], StartJobAction::QueryPending));
    assert!(matches!(actions[1], StartJobAction::CreateJob));
    assert!(matches!(actions[2], StartJobAction::QueryConfirm));
    assert!(matches!(actions[3], StartJobAction::RespondJobs));
}

#[test]
fn start_job_reports_database_errors() {
    let actions = run_start(vec![
        StartJobEvent::Begin,
        StartJobEvent::NoPending,
        StartJobEvent::Failed("disk full".to_string()),
        StartJobEvent::NoPending,
    ]);
    assert!(matches!(&actions[2], StartJobAction::RespondError(m) if m == "disk full"));
    assert!(matches!(actions[3], StartJobAction::Nothing));
    assert_eq!(actions.iter().filter(|a| matches!(a, StartJobAction::CreateJob)).count(), 1);
}

#[test]
fn migration_is_skipped_when_recorded() {
    let (s, a) = migration_step(MigrationState::Start, MigrationEvent::Begin);
    assert_eq!((s, a), (MigrationState::AwaitingSetup, MigrationAction::Setup));
    let (s, a) = migration_step(s, MigrationEvent::Executed);
    assert_eq!(a, MigrationAction::LookUpRecord);
    let (s, a) = migration_step(s, MigrationEvent::RecordFound);
    assert_eq!(a, MigrationAction::Finish(MigrationOutcome::Skipped));
    let (_, a) = migration_step(s, MigrationEvent::NoRecord);
    assert_eq!(a, MigrationAction::Nothing);
}

#[test]
fn migration_runs_once_when_not_recorded() {
    let mut state = MigrationState::Start;
    let mut actions = Vec::new();
    for event in [
        MigrationEvent::Begin,
        MigrationEvent::Executed,
        MigrationEvent::NoRecord,
        MigrationEvent::NoRecord,
        MigrationEvent::Executed,
        MigrationEvent::Executed,
        MigrationEvent::NoRecord,
    ] {
        let (next, action) = migration_step(state, event);
        state = next;
        actions.push(action);
    }
    assert_eq!(
        actions,
        vec![
            MigrationAction::Setup,
            MigrationAction::LookUpRecord,
            MigrationAction::RunBatch,
            MigrationAction::Nothing,
            MigrationAction::Record,
            MigrationAction::Finish(MigrationOutcome::Ran),
            MigrationAction::Nothing,
        ]
    );
}

#[test]
fn migration_files_sort_by_name() {
    let files = vec!["b.sql", "a.sql", "10.sql", "a.sql", "2.sql", "Z.sql", "é.sql", ""]
        .into_iter()
        .map(String::from)
        .collect::<Vec<_>>();
    let mut expected = files.clone();
    expected.sort();
    assert_eq!(sort_migration_files(files), expected);
    assert_eq!(
        expected,
        vec!["", "10.sql", "2.sql", "Z.sql", "a.sql", "a.sql", "b.sql", "é.sql"]
    );
    assert!(sort_migration_files(Vec::new()).is_empty());
}

fn params(page: Option<usize>, per_page: Option<usize>) -> QueryParams {
    QueryParams { q: None, page, per_page, sort_by: None, sort_direction: None }
}

#[test]
fn scrapes_page_defaults() {
    assert_eq!(
        scrapes_page_query(&params(None, None)),
        "SELECT id, url, arrival, lot_size, bag_size, score, packaging, cultivar_detail, spro_rec FROM scrapes LIMIT 10;"
    );
}

#[test]
fn scrapes_page_sorted_and_capped() {
    let p = QueryParams {
        q: Some("score > 85".to_string()),
        page: Some(3),
        per_page: Some(500),
        sort_by: Some(SortOptions::Score),
        sort_direction: Some(SortDirection::Desc),
    };
    assert_eq!(
        scrapes_page_query(&p),
        "SELECT id, url, arrival, lot_size, bag_size, score, packaging, cultivar_detail, spro_rec FROM scrapes WHERE score > 85 ORDER BY score DESC LIMIT 200 OFFSET 400;"
    );
}

#[test]
fn scrapes_page_sort_columns() {
    let mut p = params(Some(2), Some(5));
    p.sort_by = Some(SortOptions::Arrival);
    assert!(scrapes_page_query(&p).ends_with(" ORDER BY scraped_at ASC LIMIT 5 OFFSET 5;"));
    p.sort_by = Some(SortOptions::BagSize);
    p.sort_direction = Some(SortDirection::Asc);
    assert!(scrapes_page_query(&p).ends_with(" ORDER BY bag_size ASC LIMIT 5 OFFSET 5;"));
    p.sort_by = Some(SortOptions::LotSize);
    assert!(scrapes_page_query(&p).ends_with(" ORDER BY lot_size ASC LIMIT 5 OFFSET 5;"));
    p.sort_by = None;
    assert!(scrapes_page_query(&p).ends_with(" FROM scrapes LIMIT 5 OFFSET 5;"));
}

#[test]
fn scrapes_page_of_size_zero() {
    assert!(scrapes_page_query(&params(Some(1), Some(0))).ends_with(" FROM scrapes;"));
}

#[test]
fn response_counts_its_scrapes() {
    let scrape = Scrape {
        id: "1".to_string(),
        url: "u".to_string(),
        arrival: "a".to_string(),
        lot_size: "l".to_string(),
        bag_size: "b".to_string(),
        score: "88".to_string(),
        packaging: "p".to_string(),
        cultivar_detail: "c".to_string(),
        spro_rec: "s".to_string(),
    };
    let response = Response::from_scrapes(vec![scrape]);
    assert_eq!(response.total, 1);
    assert_eq!(response.scrapes[0].score, "88");
    assert_eq!(Response::from_scrapes(Vec::new()).total, 0);
}

#[test]
fn home_queries() {
    assert_eq!(
        recent_scrape_job_query(),
        "SELECT created_at, completed_at FROM jobs WHERE job_type = 0 ORDER BY created_at DESC LIMIT 1;"
    );
    assert_eq!(
        home_scrapes_query("2024-01-01"),
        "SELECT id, url, arrival, lot_size, bag_size, score, packaging, cultivar_detail, spro_rec FROM scrapes WHERE score != '' AND strftime(scraped_at) > strftime('2024-01-01') ORDER BY score DESC LIMIT 200;"
    );
}

#[test]
fn subscriber_needs_name_and_email() {
    let ok = validate_subscriber(Some("leeroy".to_string()), Some("some@email.co".to_string())).unwrap();
    assert_eq!(ok.name, "leeroy");
    assert_eq!(ok.email, "some@email.co");
    assert_eq!(validate_subscriber(None, None).err(), Some(SubscribeError::MissingNameAndEmail));
    assert_eq!(
        validate_subscriber(None, Some("some@email.co".to_string())).err(),
        Some(SubscribeError::MissingName)
    );
    assert_eq!(
        validate_subscriber(Some("leeroy".to_string()), None).err(),
        Some(SubscribeError::MissingEmail)
    );
}

#[test]
fn subscriber_error_bodies() {
    assert_eq!(
        SubscribeError::MissingNameAndEmail.body(),
        "{\"error\":\"missing both name and email\"}"
    );
    assert_eq!(SubscribeError::MissingName.body(), "{\"error\":\"missing name\"}");
    assert_eq!(SubscribeError::MissingEmail.body(), "{\"error\":\"missing email\"}");
}

#[test]
fn subscription_insert_params() {
    let data = validate_subscriber(Some("leeroy".to_string()), Some("some@email.co".to_string())).unwrap();
    assert_eq!(
        subscription_params("id".to_string(), &data, "now".to_string()),
        vec!["id", "some@email.co", "leeroy", "now"]
    );
}

#[test]
fn similarity_defaults_to_cosine() {
    assert_eq!(GreenRecQuery { similarity: None }.similarity_option(), SimilarityOptions::Cosine);
    assert_eq!(
        GreenRecQuery { similarity: Some(SimilarityOptions::Manhattan) }.similarity_option(),
        SimilarityOptions::Manhattan
    );
}

#[test]
fn database_directory() {
    assert_eq!(db_directory("./.data/tests.db"), "./.data");
    assert_eq!(db_directory("tests.db"), "");
    assert_eq!(db_directory("a/b/"), "a/b");
    assert_eq!(db_directory("/db"), "");
    assert_eq!(db_directory(""), "");
}

#[test]
fn database_plans() {
    assert_eq!(plan_database(Some("libsql://x".to_string()), None).err(), Some(DbConfigError::MissingFilePath));
    let local = plan_database(Some("".to_string()), Some("data/app.db".to_string())).unwrap();
    assert_eq!(local.file_path, "data/app.db");
    assert_eq!(local.directory, "data");
    assert_eq!(local.remote_url, None);
    let remote = plan_database(Some("libsql://x".to_string()), Some("app.db".to_string())).unwrap();
    assert_eq!(remote.remote_url, Some("libsql://x".to_string()));
    assert_eq!(plan_database(None, Some("a.db".to_string())).unwrap().remote_url, None);
    assert_eq!(replica_auth_token(None), Err(DbConfigError::MissingAuthToken));
    assert_eq!(replica_auth_token(Some("t".to_string())), Ok("t".to_string()));
    assert_eq!(DbConfigError::MissingFilePath.message(), "DB_FILE_PATH must be set");
    assert_eq!(
        DbConfigError::MissingAuthToken.message(),
        "DB_AUTH_TOKEN must be provided with DB_URL"
    );
}

#[test]
fn configuration_defaults() {
    assert_eq!(configuration_file_name(None), "configuration.yaml");
    assert_eq!(configuration_file_name(Some("other.yaml")), "other.yaml");
    assert_eq!(listen_address(None), "0.0.0.0:8000");
    assert_eq!(listen_address(Some("9090".to_string())), "0.0.0.0:9090");
}

#[test]
fn empty_records() {
    let e = FastEmbed::new();
    assert!(e.id.is_empty() && e.doc_type.is_empty() && e.doc_id.is_empty() && e.embedding.is_empty());
    let d = FastEmbed::default();
    assert!(d.id.is_empty() && d.embedding.is_empty());
    let s = ScrapeEmbedding::new();
    assert!(s.id.is_empty() && s.scrape_id.is_empty() && s.embedding.is_empty());
    assert!(ScrapeEmbedding::default().scrape_id.is_empty());
}

#[test]
fn rank_closest_puts_the_best_score_first_and_skips_unscored() {
    let keys = vec![Some(3), None, Some(9), Some(1), Some(7)];
    assert_eq!(rank_closest(&keys, 5), vec![2, 4, 0, 3]);
}

#[test]
fn rank_closest_keeps_listing_order_on_equal_scores() {
    let keys = vec![Some(4), Some(8), Some(4), Some(8)];
    assert_eq!(rank_closest(&keys, 5), vec![1, 3, 0, 2]);
}

#[test]
fn rank_closest_keeps_at_most_count() {
    let keys: Vec<Option<u32>> = (0..12).map(Some).collect();
    assert_eq!(rank_closest(&keys, 5), vec![11, 10, 9, 8, 7]);
    assert_eq!(rank_closest(&keys, 0), Vec::<usize>::new());
}

#[test]
fn rank_closest_of_no_scores_is_empty() {
    assert_eq!(rank_closest(&vec![None, None], 5), Vec::<usize>::new());
    assert_eq!(rank_closest(&Vec::new(), 5), Vec::<usize>::new());
}

#[test]
fn most_similar_takes_the_first_best_above_the_floor() {
    let scores = vec![None, Some(15), Some(40), Some(40), Some(12)];
    assert_eq!(most_similar(&scores, 10, 100), Some(2));
}

#[test]
fn most_similar_stops_at_the_first_that_reaches_the_ceiling() {
    let scores = vec![Some(50), Some(100), Some(120), None];
    assert_eq!(most_similar(&scores, 10, 100), Some(1));
}

#[test]
fn most_similar_finds_nothing_at_or_below_the_floor() {
    let scores = vec![Some(10), None, Some(3)];
    assert_eq!(most_similar(&scores, 10, 100), None);
    assert_eq!(most_similar(&Vec::new(), 10, 100), None);
}
