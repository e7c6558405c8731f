//! Sweet Maria's listings: the SQL that pages through them.
use vstd::prelude::*;
use crate::models::utils::present_if;
use crate::text::push_str;

verus! {

/// The schema of the `sm_scrapes` table.
pub const INIT_TABLE: &'static str = "
CREATE TABLE IF NOT EXISTS sm_scrapes (
    id uuid NOT NULL PRIMARY KEY,
    url TEXT NOT NULL,
    original TEXT,
    content TEXT,
    scraped_at timestampz NOT NULL,
    embedding BLOB,
    region TEXT,
    processing TEXT,
    drying TEXT,
    arrival TEXT,
    lot_size TEXT,
    bag_size TEXT,
    packaging TEXT,
    farm_gate TEXT,
    cultivar_detail TEXT,
    grade TEXT,
    appearance TEXT,
    roast_rec TEXT,
    coffee_type TEXT,
    spro_rec TEXT
);
";

/// The statement for a page of listings in scrape order, only those without
/// an embedding when `without_embedding` holds; its limit and offset are left
/// as parameters.
pub open spec fn sm_scrape_page_sql(without_embedding: bool) -> Seq<char> {
    "\n        SELECT id, url, content, scraped_at, embedding\n        FROM sm_scrapes\n    "@
        + present_if(without_embedding, " WHERE embedding IS NULL"@)
        + " ORDER BY scraped_at ASC LIMIT ? OFFSET ?"@
}

/// The statement for a page of listings (see `sm_scrape_page_sql`).
pub fn select_page(filter_non_null_embeddings: bool) -> (res: String)
    ensures
        res@ == sm_scrape_page_sql(filter_non_null_embeddings),
{
    let mut result = String::new();
    push_str(
        &mut result,
        "\n        SELECT id, url, content, scraped_at, embedding\n        FROM sm_scrapes\n    ",
    );
    let ghost head = result@;
    if filter_non_null_embeddings {
        push_str(&mut result, " WHERE embedding IS NULL");
    }
    assert(result@ =~= head + present_if(filter_non_null_embeddings, " WHERE embedding IS NULL"@));
    push_str(&mut result, " ORDER BY scraped_at ASC LIMIT ? OFFSET ?");
    assert(result@ =~= sm_scrape_page_sql(filter_non_null_embeddings));
    result
}

} // verus!
