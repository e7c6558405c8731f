//! `GET /scrapes`: a page of scraped listings, filtered and sorted as asked.
use vstd::prelude::*;
use crate::models::scrape::select_with_pagination;
use crate::models::utils::paginated_select;

verus! {

/// The columns a listing page shows.
pub open spec fn listing_columns() -> Seq<char> {
    "id, url, arrival, lot_size, bag_size, score, packaging, cultivar_detail, spro_rec"@
}

/// The column a listing page can be sorted by.
#[derive(Clone, Copy, Debug, PartialEq, Eq, Structural)]
pub enum SortOptions {
    Score,
    Arrival,
    BagSize,
    LotSize,
}

/// The direction of the sort.
#[derive(Clone, Copy, Debug, PartialEq, Eq, Structural)]
pub enum SortDirection {
    Asc,
    Desc,
}

/// The query string of `GET /scrapes`: a filter, the page (from 1), the page
/// size, and the sort.
pub struct QueryParams {
    pub q: Option<String>,
    pub page: Option<usize>,
    pub per_page: Option<usize>,
    pub sort_by: Option<SortOptions>,
    pub sort_direction: Option<SortDirection>,
}

/// The largest page size served.
pub const MAX_PER_PAGE: usize = 200;

/// The page asked for, 1 when none is given.
pub open spec fn page_of(params: QueryParams) -> usize {
    match params.page {
        Some(p) => p,
        None => 1,
    }
}

/// The page size asked for (10 when none is given), at most `MAX_PER_PAGE`.
pub open spec fn per_page_of(params: QueryParams) -> usize {
    let asked = match params.per_page {
        Some(n) => n,
        None => 10,
    };
    if asked < MAX_PER_PAGE {
        asked
    } else {
        MAX_PER_PAGE
    }
}

/// The column sorted by, or nothing.
pub open spec fn sort_column(sort_by: Option<SortOptions>) -> Seq<char> {
    match sort_by {
        Some(SortOptions::Score) => "score"@,
        Some(SortOptions::Arrival) => "scraped_at"@,
        Some(SortOptions::BagSize) => "bag_size"@,
        Some(SortOptions::LotSize) => "lot_size"@,
        None => ""@,
    }
}

/// The sort direction, or nothing.
pub open spec fn sort_direction_text(direction: Option<SortDirection>) -> Seq<char> {
    match direction {
        Some(SortDirection::Asc) => "ASC"@,
        Some(SortDirection::Desc) => "DESC"@,
        None => ""@,
    }
}

/// The offset of the page: the pages before it, each of the page size, in
/// 32-bit arithmetic (the page number is cut to 32 bits first).
pub open spec fn offset_of(params: QueryParams) -> int {
    ((page_of(params) - 1) as u32) * (per_page_of(params) as u32)
}

/// The pages a request can ask for: from the first on, with an offset that
/// fits in 32 bits.
pub open spec fn page_in_range(params: QueryParams) -> bool {
    page_of(params) >= 1 && offset_of(params) <= u32::MAX
}

/// The query for the listing page that `params` asks for.
pub open spec fn scrapes_page_sql(params: QueryParams) -> Seq<char> {
    paginated_select(
        "scrapes"@,
        listing_columns(),
        match params.q {
            Some(q) => q@,
            None => ""@,
        },
        sort_column(params.sort_by),
        sort_direction_text(params.sort_direction),
        per_page_of(params) as u32,
        offset_of(params) as u32,
    )
}

/// The page size asked for (10 when none is given) is the limit of the
/// query as it is when it is at most 200, and 200 when it is larger; the
/// offset skips that many listings for each page before the one asked for.
pub proof fn lemma_page_size_is_asked_size_capped(params: QueryParams)
    ensures
        ({
            let size: u32 = match params.per_page {
                Some(n) => if n <= 200 {
                    n as u32
                } else {
                    200
                },
                None => 10,
            };
            let page: usize = match params.page {
                Some(p) => p,
                None => 1,
            };
            scrapes_page_sql(params) == paginated_select(
                "scrapes"@,
                listing_columns(),
                match params.q {
                    Some(q) => q@,
                    None => ""@,
                },
                sort_column(params.sort_by),
                sort_direction_text(params.sort_direction),
                size,
                (((page - 1) as u32) * size) as u32,
            )
        }),
{
}

/// The query for the listing page that `params` asks for (see
/// `scrapes_page_sql`).
pub fn scrapes_page_query(params: &QueryParams) -> (res: String)
    requires
        page_in_range(*params),
    ensures
        res@ == scrapes_page_sql(*params),
{
    let q: &str = match &params.q {
        Some(q) => q.as_str(),
        None => "",
    };
    let page: usize = match params.page {
        Some(p) => p,
        None => 1,
    };
    let asked: usize = match params.per_page {
        Some(n) => n,
        None => 10,
    };
    let per_page: usize = if asked < MAX_PER_PAGE {
        asked
    } else {
        MAX_PER_PAGE
    };
    let sort_by: &str = match params.sort_by {
        Some(SortOptions::Score) => "score",
        Some(SortOptions::Arrival) => "scraped_at",
        Some(SortOptions::BagSize) => "bag_size",
        Some(SortOptions::LotSize) => "lot_size",
        None => "",
    };
    let sort_direction: &str = match params.sort_direction {
        Some(SortDirection::Asc) => "ASC",
        Some(SortDirection::Desc) => "DESC",
        None => "",
    };
    let offset: u32 = (page - 1) as u32 * per_page as u32;
    select_with_pagination(
        "id, url, arrival, lot_size, bag_size, score, packaging, cultivar_detail, spro_rec",
        q,
        sort_by,
        sort_direction,
        per_page as u32,
        offset,
    )
}

/// One listing as a page shows it.
pub struct Scrape {
    pub id: String,
    pub url: String,
    pub arrival: String,
    pub lot_size: String,
    pub bag_size: String,
    pub score: String,
    pub packaging: String,
    pub cultivar_detail: String,
    pub spro_rec: String,
}

/// A page of listings and how many it holds.
pub struct Response {
    pub scrapes: Vec<Scrape>,
    pub total: u32,
}

impl Response {
    /// The page made of `scrapes`, its total their number (in 32 bits).
    pub fn from_scrapes(scrapes: Vec<Scrape>) -> (res: Response)
        ensures
            res.scrapes@ == scrapes@,
            res.total == scrapes@.len() as u32,
    {
        let total = scrapes.len() as u32;
        Response { scrapes, total }
    }
}

} // verus!
