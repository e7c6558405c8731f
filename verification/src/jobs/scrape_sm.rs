//! The listing scraper's bookkeeping: batch numbers and the values stored
//! for each scraped listing.
use vstd::prelude::*;
use crate::services::scraper::{detail_field_pairs, detail_fields, detail_value, lookup_detail};
use crate::text::{i32_to_decimal, signed_decimal};

verus! {

/// The directory page that lists every green coffee on offer.
pub const DIRECTORY_URL: &'static str =
    "https://www.sweetmarias.com/green-coffee.html?product_list_limit=all&sm_status=1";

/// The insert of one scraped listing; its parameters are those of
/// `scrape_row_values`, in order.
pub const INSERT_QUERY: &'static str = r#"
    INSERT INTO scrapes (
        id, 
        url, 
        content, 
        scraped_at, 
        original, 
        region, 
        processing,
        drying,
        arrival,
        lot_size,
        bag_size,
        packaging,
        farm_gate,
        cultivar_detail,
        grade,
        appearance,
        roast_rec,
        coffee_type,
        spro_rec,
        score,
        batch_id
    )
    VALUES (?1, ?2, ?3, ?4, ?5, ?6, ?7, ?8, ?9, ?10, ?11, ?12, ?13, ?14, ?15, ?16, ?17, ?18, ?19, ?20, ?21);
"#;

/// The batch number of a new scrape run: one past the largest so far.
pub fn next_batch_id(max_batch_id: i32) -> (res: i32)
    requires
        max_batch_id < i32::MAX,
    ensures
        res == max_batch_id + 1,
{
    max_batch_id + 1
}

/// The stored details of a listing, in the order of `detail_fields`: each
/// looked up by name, a missing one as empty text.
pub open spec fn detail_values(details: Seq<(Seq<char>, Seq<char>)>) -> Seq<Seq<char>> {
    detail_fields().map_values(|field: (Seq<char>, Seq<char>)| lookup_detail(details, field.0))
}

/// The values of one scraped listing row, in column order: id, url, text,
/// scrape time, page, the details, and the batch number.
pub open spec fn scrape_row_values(
    id: Seq<char>,
    url: Seq<char>,
    content: Seq<char>,
    scraped_at: Seq<char>,
    original: Seq<char>,
    details: Seq<(Seq<char>, Seq<char>)>,
    batch_id: i32,
) -> Seq<Seq<char>> {
    seq![id, url, content, scraped_at, original] + detail_values(details) + seq![
        signed_decimal(batch_id as int),
    ]
}

/// Each parameter of a scraped row sits at the placeholder of its own
/// column of `INSERT_QUERY`: id, url, text, time and page first, then each
/// detail column holds the detail stored under that column's name (the
/// drying method at the 8th placeholder, the arrival date at the 9th, ...),
/// and the batch number last.
pub proof fn lemma_row_values_in_column_order(
    id: Seq<char>,
    url: Seq<char>,
    content: Seq<char>,
    scraped_at: Seq<char>,
    original: Seq<char>,
    details: Seq<(Seq<char>, Seq<char>)>,
    batch_id: i32,
)
    ensures
        scrape_row_values(id, url, content, scraped_at, original, details, batch_id).len() == 21,
        scrape_row_values(id, url, content, scraped_at, original, details, batch_id)[0] == id,
        scrape_row_values(id, url, content, scraped_at, original, details, batch_id)[1] == url,
        scrape_row_values(id, url, content, scraped_at, original, details, batch_id)[2] == content,
        scrape_row_values(id, url, content, scraped_at, original, details, batch_id)[3] == scraped_at,
        scrape_row_values(id, url, content, scraped_at, original, details, batch_id)[4] == original,
        scrape_row_values(id, url, content, scraped_at, original, details, batch_id)[5]
            == lookup_detail(details, "region"@),
        scrape_row_values(id, url, content, scraped_at, original, details, batch_id)[6]
            == lookup_detail(details, "processing"@),
        scrape_row_values(id, url, content, scraped_at, original, details, batch_id)[7]
            == lookup_detail(details, "drying"@),
        scrape_row_values(id, url, content, scraped_at, original, details, batch_id)[8]
            == lookup_detail(details, "arrival"@),
        scrape_row_values(id, url, content, scraped_at, original, details, batch_id)[9]
            == lookup_detail(details, "lot_size"@),
        scrape_row_values(id, url, content, scraped_at, original, details, batch_id)[10]
            == lookup_detail(details, "bag_size"@),
        scrape_row_values(id, url, content, scraped_at, original, details, batch_id)[11]
            == lookup_detail(details, "packaging"@),
        scrape_row_values(id, url, content, scraped_at, original, details, batch_id)[12]
            == lookup_detail(details, "farm_gate"@),
        scrape_row_values(id, url, content, scraped_at, original, details, batch_id)[13]
            == lookup_detail(details, "cultivar_detail"@),
        scrape_row_values(id, url, content, scraped_at, original, details, batch_id)[14]
            == lookup_detail(details, "grade"@),
        scrape_row_values(id, url, content, scraped_at, original, details, batch_id)[15]
            == lookup_detail(details, "appearance"@),
        scrape_row_values(id, url, content, scraped_at, original, details, batch_id)[16]
            == lookup_detail(details, "roast_rec"@),
        scrape_row_values(id, url, content, scraped_at, original, details, batch_id)[17]
            == lookup_detail(details, "coffee_type"@),
        scrape_row_values(id, url, content, scraped_at, original, details, batch_id)[18]
            == lookup_detail(details, "spro_rec"@),
        scrape_row_values(id, url, content, scraped_at, original, details, batch_id)[19]
            == lookup_detail(details, "score"@),
        scrape_row_values(id, url, content, scraped_at, original, details, batch_id)[20]
            == signed_decimal(batch_id as int),
{
}

/// The parameters of the insert for one scraped listing (see
/// `scrape_row_values`): one for each of the 21 placeholders of
/// `INSERT_QUERY`.
pub fn scrape_insert_params(
    id: String,
    url: String,
    content: String,
    scraped_at: String,
    original: String,
    details: &Vec<(String, String)>,
    batch_id: i32,
) -> (res: Vec<String>)
    ensures
        res@.len() == 21,
        res.deep_view() == scrape_row_values(
            id@,
            url@,
            content@,
            scraped_at@,
            original@,
            details.deep_view(),
            batch_id,
        ),
{
    let ghost head = seq![id@, url@, content@, scraped_at@, original@];
    let mut res: Vec<String> = Vec::new();
    res.push(id);
    res.push(url);
    res.push(content);
    res.push(scraped_at);
    res.push(original);
    assert(res.deep_view() =~= head);
    let fields = detail_field_pairs();
    let mut i: usize = 0;
    while i < fields.len()
        invariant
            i <= fields@.len(),
            head.len() == 5,
            fields.deep_view() == detail_fields(),
            res@.len() == 5 + i,
            res.deep_view() == head + detail_values(details.deep_view()).take(i as int),
        decreases fields.len() - i,
    {
        let ghost before = res@;
        let ghost before_deep = res.deep_view();
        let value = detail_value(details, fields[i].0);
        assert(fields.deep_view()[i as int].0 == fields@[i as int].0@);
        let ghost v = value@;
        assert(detail_values(details.deep_view())[i as int] == v);
        res.push(value);
        assert forall|k: int| 0 <= k < res@.len() implies #[trigger] res.deep_view()[k] == (head
            + detail_values(details.deep_view()).take(i + 1))[k] by {
            let dv = detail_values(details.deep_view());
            if k < before.len() {
                assert(res@[k] == before[k]);
                assert(before_deep[k] == before[k].deep_view());
                if k < 5 {
                    assert((head + dv.take(i + 1))[k] == head[k]);
                    assert((head + dv.take(i as int))[k] == head[k]);
                } else {
                    assert((head + dv.take(i + 1))[k] == dv[k - 5]);
                    assert((head + dv.take(i as int))[k] == dv[k - 5]);
                }
            } else {
                assert(res.deep_view()[k] == v);
                assert((head + dv.take(i + 1))[k] == dv[i as int]);
            }
        }
        assert(res.deep_view() =~= head + detail_values(details.deep_view()).take(i + 1));
        i = i + 1;
    }
    let batch = i32_to_decimal(batch_id);
    let ghost before = res@;
    let ghost before_deep = res.deep_view();
    res.push(batch);
    assert forall|k: int| 0 <= k < res@.len() implies #[trigger] res.deep_view()[k]
        == scrape_row_values(
        head[0],
        head[1],
        head[2],
        head[3],
        head[4],
        details.deep_view(),
        batch_id,
    )[k] by {
        if k < before.len() {
            assert(res@[k] == before[k]);
            assert(before_deep[k] == before[k].deep_view());
        }
    }
    assert(detail_values(details.deep_view()).take(fields@.len() as int) =~= detail_values(
        details.deep_view(),
    ));
    assert(res.deep_view() =~= scrape_row_values(
        id@,
        url@,
        content@,
        scraped_at@,
        original@,
        details.deep_view(),
        batch_id,
    ));
    res
}

} // verus!
