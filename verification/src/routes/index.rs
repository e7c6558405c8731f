//! `GET /`: the home page lists the scored listings scraped since the
//! latest scrape job was queued.
use vstd::prelude::*;
use crate::models::jobs::{JobType, select_with_pagination as select_jobs};
use crate::models::scrape::select_with_pagination as select_scrapes;
use crate::models::utils::paginated_select;
use crate::routes::scrapes::listing_columns;
use crate::text::{i32_to_decimal, push_str, signed_decimal};

verus! {

/// The query for the creation and completion times of the latest scrape job.
pub fn recent_scrape_job_query() -> (res: String)
    ensures
        res@ == paginated_select(
            "jobs"@,
            "created_at, completed_at"@,
            "job_type = "@ + signed_decimal(0),
            "created_at"@,
            "DESC"@,
            1,
            0,
        ),
{
    let mut q = String::new();
    push_str(&mut q, "job_type = ");
    let code = i32_to_decimal(JobType::SMScrape.as_i32());
    push_str(&mut q, code.as_str());
    select_jobs("created_at, completed_at", q.as_str(), "created_at", "DESC", 1, 0)
}

/// The filter of the home page: scored listings scraped after `since`.
pub open spec fn home_filter(since: Seq<char>) -> Seq<char> {
    "score != '' AND strftime(scraped_at) > strftime('"@ + since + "')"@
}

/// The query for the home page: up to 200 scored listings scraped after
/// `scrape_created_at`, best score first.
pub fn home_scrapes_query(scrape_created_at: &str) -> (res: String)
    ensures
        res@ == paginated_select(
            "scrapes"@,
            listing_columns(),
            home_filter(scrape_created_at@),
            "score"@,
            "DESC"@,
            200,
            0,
        ),
{
    let mut q = String::new();
    push_str(&mut q, "score != '' AND strftime(scraped_at) > strftime('");
    push_str(&mut q, scrape_created_at);
    push_str(&mut q, "')");
    select_scrapes(
        "id, url, arrival, lot_size, bag_size, score, packaging, cultivar_detail, spro_rec",
        q.as_str(),
        "score",
        "DESC",
        200,
        0,
    )
}

} // verus!
