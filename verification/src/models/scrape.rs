//! Scraped listings: the SQL that pages through them.
use vstd::prelude::*;
use crate::models::utils::{create_paginator, paginated_select, present_if};
use crate::text::{i32_to_decimal, join, join_text, push_str, signed_decimal};

verus! {

/// The query for the largest batch number so far, 0 when there is none.
pub const MAX_BATCH_ID_QUERY: &'static str = "SELECT COALESCE(MAX(batch_id), 0) FROM scrapes";

/// A page of the `scrapes` table (see `paginated_select`).
pub fn select_with_pagination(
    columns: &str,
    q: &str,
    sort_by: &str,
    sort_direction: &str,
    limit: u32,
    offset: u32,
) -> (res: String)
    ensures
        res@ == paginated_select("scrapes"@, columns@, q@, sort_by@, sort_direction@, limit, offset),
{
    let paginate = create_paginator("scrapes");
    paginate(columns, q, sort_by, sort_direction, limit, offset)
}

/// The listing columns with their stored embedding, before any filter.
pub open spec fn scrape_page_head() -> Seq<char> {
    "\n        SELECT s.id, s.url, s.content, s.scraped_at, se.embedding\n        FROM scrapes AS s\n        LEFT JOIN scrape_embeddings AS se\n        ON se.scrape_id = s.id\n    "@
}

/// The conditions on a listing page: no stored embedding when
/// `without_embedding` holds, then membership of the batch when one is given.
pub open spec fn scrape_page_conditions(without_embedding: bool, batch_id: Option<i32>) -> Seq<Seq<char>> {
    present_if_seq(without_embedding, "se.embedding IS NULL"@) + match batch_id {
        Some(b) => seq!["s.batch_id = "@ + signed_decimal(b as int)],
        None => Seq::empty(),
    }
}

/// The one-element list of `text` when `present` holds, the empty list otherwise.
pub open spec fn present_if_seq(present: bool, text: Seq<char>) -> Seq<Seq<char>> {
    if present {
        seq![text]
    } else {
        Seq::empty()
    }
}

/// The `WHERE` clause of a listing page: its conditions joined by `AND`,
/// or nothing when there are none.
pub open spec fn scrape_page_filter(without_embedding: bool, batch_id: Option<i32>) -> Seq<char> {
    let conditions = scrape_page_conditions(without_embedding, batch_id);
    present_if(conditions.len() > 0, " WHERE "@ + join_text(conditions, " AND "@))
}

/// The statement for a page of listings in scrape order, its limit and
/// offset left as parameters.
pub open spec fn scrape_page_sql(without_embedding: bool, batch_id: Option<i32>) -> Seq<char> {
    scrape_page_head() + scrape_page_filter(without_embedding, batch_id)
        + " ORDER BY scraped_at ASC LIMIT ? OFFSET ?"@
}

/// The filters of a listing page: none when nothing is asked; listings
/// without an embedding, listings of the batch, or both joined by `AND`,
/// the embedding condition first.
pub proof fn lemma_scrape_page_filters(batch_id: i32)
    ensures
        scrape_page_sql(false, None) == scrape_page_head()
            + " ORDER BY scraped_at ASC LIMIT ? OFFSET ?"@,
        scrape_page_sql(true, None) == scrape_page_head() + " WHERE se.embedding IS NULL"@
            + " ORDER BY scraped_at ASC LIMIT ? OFFSET ?"@,
        scrape_page_sql(false, Some(batch_id)) == scrape_page_head() + " WHERE s.batch_id = "@
            + signed_decimal(batch_id as int) + " ORDER BY scraped_at ASC LIMIT ? OFFSET ?"@,
        scrape_page_sql(true, Some(batch_id)) == scrape_page_head()
            + " WHERE se.embedding IS NULL AND s.batch_id = "@ + signed_decimal(batch_id as int)
            + " ORDER BY scraped_at ASC LIMIT ? OFFSET ?"@,
{
    reveal_strlit(" WHERE ");
    reveal_strlit(" AND ");
    reveal_strlit("se.embedding IS NULL");
    reveal_strlit(" WHERE se.embedding IS NULL");
    reveal_strlit(" WHERE se.embedding IS NULL AND s.batch_id = ");
    reveal_strlit("s.batch_id = ");
    reveal_strlit(" WHERE s.batch_id = ");
    let b = "s.batch_id = "@ + signed_decimal(batch_id as int);
    assert(scrape_page_conditions(false, None) =~= Seq::<Seq<char>>::empty());
    assert(scrape_page_conditions(true, None) =~= seq!["se.embedding IS NULL"@]);
    assert(scrape_page_conditions(false, Some(batch_id)) =~= seq![b]);
    assert(scrape_page_conditions(true, Some(batch_id)) =~= seq!["se.embedding IS NULL"@, b]);
    assert(seq!["se.embedding IS NULL"@, b].drop_last() =~= seq!["se.embedding IS NULL"@]);
    assert(scrape_page_filter(false, None) =~= Seq::<char>::empty());
    assert(scrape_page_filter(true, None) =~= " WHERE se.embedding IS NULL"@);
    assert(scrape_page_filter(false, Some(batch_id)) =~= " WHERE s.batch_id = "@ + signed_decimal(
        batch_id as int,
    ));
    assert(scrape_page_filter(true, Some(batch_id)) =~= " WHERE se.embedding IS NULL AND s.batch_id = "@
        + signed_decimal(batch_id as int));
    assert(scrape_page_sql(false, None) =~= scrape_page_head()
        + " ORDER BY scraped_at ASC LIMIT ? OFFSET ?"@);
}

/// The statement for a page of listings (see `scrape_page_sql`).
pub fn select_page(filter_non_null_embeddings: &bool, max_batch_id: &Option<&i32>) -> (res: String)
    ensures
        res@ == scrape_page_sql(
            *filter_non_null_embeddings,
            match *max_batch_id {
                Some(b) => Some(*b),
                None => None,
            },
        ),
{
    let mut where_stmts: Vec<String> = Vec::new();
    let ghost batch: Option<i32> = match *max_batch_id {
        Some(b) => Some(*b),
        None => None,
    };
    let mut result = String::new();
    push_str(
        &mut result,
        "\n        SELECT s.id, s.url, s.content, s.scraped_at, se.embedding\n        FROM scrapes AS s\n        LEFT JOIN scrape_embeddings AS se\n        ON se.scrape_id = s.id\n    ",
    );
    if *filter_non_null_embeddings {
        where_stmts.push("se.embedding IS NULL".to_owned());
    }
    match max_batch_id {
        Some(batch_id) => {
            let mut condition = String::new();
            push_str(&mut condition, "s.batch_id = ");
            let digits = i32_to_decimal(**batch_id);
            push_str(&mut condition, digits.as_str());
            where_stmts.push(condition);
        },
        None => {},
    }
    assert(where_stmts.deep_view() =~= scrape_page_conditions(*filter_non_null_embeddings, batch));
    let ghost head = result@;
    if where_stmts.len() > 0 {
        push_str(&mut result, " WHERE ");
        let joined = join(&where_stmts, " AND ");
        push_str(&mut result, joined.as_str());
    }
    assert(result@ =~= head + scrape_page_filter(*filter_non_null_embeddings, batch));
    push_str(&mut result, " ORDER BY scraped_at ASC LIMIT ? OFFSET ?");
    assert(result@ =~= scrape_page_sql(*filter_non_null_embeddings, batch));
    result
}

} // verus!
