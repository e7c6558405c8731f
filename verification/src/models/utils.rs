//! The paginated `SELECT` that every listing uses.
use vstd::prelude::*;
use crate::text::{decimal, push_decimal, push_str};

verus! {

/// `text` when `present` holds, nothing otherwise.
pub open spec fn present_if(present: bool, text: Seq<char>) -> Seq<char> {
    if present {
        text
    } else {
        Seq::empty()
    }
}

/// The statement that a paginator made for `table` builds:
/// `SELECT <columns> FROM <table>`, then ` WHERE <q>` when `q` is not empty,
/// ` ORDER BY <sort_by>` followed by ` <sort_direction>` (or ` ASC` when no
/// direction is given) when `sort_by` is not empty, ` LIMIT <limit>` when the
/// limit is positive, ` OFFSET <offset>` when the offset is positive, and `;`.
pub open spec fn paginated_select(
    table: Seq<char>,
    columns: Seq<char>,
    q: Seq<char>,
    sort_by: Seq<char>,
    sort_direction: Seq<char>,
    limit: u32,
    offset: u32,
) -> Seq<char> {
    "SELECT "@ + columns + " FROM "@ + table
        + present_if(q.len() > 0, " WHERE "@ + q)
        + present_if(sort_by.len() > 0, " ORDER BY "@ + sort_by + if sort_direction.len() > 0 {
            " "@ + sort_direction
        } else {
            " ASC"@
        })
        + present_if(limit > 0, " LIMIT "@ + decimal(limit as nat))
        + present_if(offset > 0, " OFFSET "@ + decimal(offset as nat))
        + ";"@
}

/// The laws of a paginated `SELECT`:
/// - with nothing else asked, it is `SELECT <columns> FROM <table>;`;
/// - a filter adds ` WHERE <filter>` right after the table;
/// - a sort column with no direction sorts ascending, and a direction
///   without a sort column is ignored;
/// - a positive limit adds ` LIMIT <limit>` before the closing `;`, and a
///   positive offset then adds ` OFFSET <offset>` after it.
pub proof fn lemma_paginated_select_laws(
    table: Seq<char>,
    columns: Seq<char>,
    q: Seq<char>,
    sort_by: Seq<char>,
    sort_direction: Seq<char>,
    limit: u32,
    offset: u32,
)
    ensures
        paginated_select(table, columns, ""@, ""@, sort_direction, 0, 0) == "SELECT "@ + columns
            + " FROM "@ + table + ";"@,
        q.len() > 0 ==> paginated_select(table, columns, q, ""@, sort_direction, 0, 0)
            == "SELECT "@ + columns + " FROM "@ + table + " WHERE "@ + q + ";"@,
        sort_by.len() > 0 ==> paginated_select(table, columns, q, sort_by, ""@, limit, offset)
            == paginated_select(table, columns, q, sort_by, "ASC"@, limit, offset),
        sort_by.len() == 0 ==> paginated_select(table, columns, q, sort_by, sort_direction, limit, offset)
            == paginated_select(table, columns, q, sort_by, ""@, limit, offset),
        limit > 0 ==> paginated_select(table, columns, q, sort_by, sort_direction, limit, 0)
            == paginated_select(table, columns, q, sort_by, sort_direction, 0, 0).drop_last()
            + " LIMIT "@ + decimal(limit as nat) + ";"@,
        offset > 0 ==> paginated_select(table, columns, q, sort_by, sort_direction, limit, offset)
            == paginated_select(table, columns, q, sort_by, sort_direction, limit, 0).drop_last()
            + " OFFSET "@ + decimal(offset as nat) + ";"@,
{
    reveal_strlit("");
    reveal_strlit(" ");
    reveal_strlit(" ASC");
    reveal_strlit("ASC");
    reveal_strlit(";");
    let head = "SELECT "@ + columns + " FROM "@ + table;
    let filter = present_if(q.len() > 0, " WHERE "@ + q);
    let order = present_if(sort_by.len() > 0, " ORDER BY "@ + sort_by + if sort_direction.len() > 0 {
        " "@ + sort_direction
    } else {
        " ASC"@
    });
    let lim = present_if(limit > 0, " LIMIT "@ + decimal(limit as nat));
    let off = present_if(offset > 0, " OFFSET "@ + decimal(offset as nat));
    assert(paginated_select(table, columns, ""@, ""@, sort_direction, 0, 0) =~= head + ";"@);
    if q.len() > 0 {
        assert(paginated_select(table, columns, q, ""@, sort_direction, 0, 0) =~= head + (" WHERE "@ + q)
            + ";"@);
    }
    if sort_by.len() > 0 {
        assert(" "@ + "ASC"@ =~= " ASC"@);
        assert(paginated_select(table, columns, q, sort_by, ""@, limit, offset) =~= paginated_select(
            table,
            columns,
            q,
            sort_by,
            "ASC"@,
            limit,
            offset,
        ));
    } else {
        assert(paginated_select(table, columns, q, sort_by, sort_direction, limit, offset)
            =~= paginated_select(table, columns, q, sort_by, ""@, limit, offset));
    }
    let base = head + filter + order;
    assert(paginated_select(table, columns, q, sort_by, sort_direction, 0, 0) =~= base + ";"@);
    assert((base + ";"@).drop_last() =~= base);
    if limit > 0 {
        assert(paginated_select(table, columns, q, sort_by, sort_direction, limit, 0) =~= base + (
        " LIMIT "@ + decimal(limit as nat)) + ";"@);
    }
    assert(paginated_select(table, columns, q, sort_by, sort_direction, limit, 0) =~= base + lim
        + ";"@);
    assert((base + lim + ";"@).drop_last() =~= base + lim);
    if offset > 0 {
        assert(paginated_select(table, columns, q, sort_by, sort_direction, limit, offset) =~= base
            + lim + (" OFFSET "@ + decimal(offset as nat)) + ";"@);
    }
}

/// Builds the paginated `SELECT` over `table` (see `paginated_select`).
pub fn paginate(
    table: &str,
    columns: &str,
    q: &str,
    sort_by: &str,
    sort_direction: &str,
    limit: u32,
    offset: u32,
) -> (res: String)
    ensures
        res@ == paginated_select(table@, columns@, q@, sort_by@, sort_direction@, limit, offset),
{
    let mut result = String::new();
    push_str(&mut result, "SELECT ");
    push_str(&mut result, columns);
    push_str(&mut result, " FROM ");
    push_str(&mut result, table);
    let ghost head = result@;
    if !q.is_empty() {
        push_str(&mut result, " WHERE ");
        push_str(&mut result, q);
    }
    let ghost with_where = result@;
    assert(with_where =~= head + present_if(q@.len() > 0, " WHERE "@ + q@));
    if !sort_by.is_empty() {
        push_str(&mut result, " ORDER BY ");
        push_str(&mut result, sort_by);
        if !sort_direction.is_empty() {
            push_str(&mut result, " ");
            push_str(&mut result, sort_direction);
        } else {
            push_str(&mut result, " ASC");
        }
    }
    let ghost with_order = result@;
    assert(with_order =~= with_where + present_if(
        sort_by@.len() > 0,
        " ORDER BY "@ + sort_by@ + if sort_direction@.len() > 0 {
            " "@ + sort_direction@
        } else {
            " ASC"@
        },
    ));
    if limit > 0 {
        push_str(&mut result, " LIMIT ");
        push_decimal(&mut result, limit);
    }
    let ghost with_limit = result@;
    assert(with_limit =~= with_order + present_if(limit > 0, " LIMIT "@ + decimal(limit as nat)));
    if offset > 0 {
        push_str(&mut result, " OFFSET ");
        push_decimal(&mut result, offset);
    }
    assert(result@ =~= with_limit + present_if(offset > 0, " OFFSET "@ + decimal(offset as nat)));
    push_str(&mut result, ";");
    result
}

/// Makes the paginator for `table_name`: a function from the columns, the
/// filter, the sort column, the sort direction, the limit and the offset to
/// the `SELECT` statement that `paginated_select` describes.
pub fn create_paginator(table_name: &str) -> (paginator: impl Fn(&str, &str, &str, &str, u32, u32) -> String)
    ensures
        forall|columns: &str, q: &str, sort_by: &str, sort_direction: &str, limit: u32, offset: u32|
            #[trigger] paginator.requires((columns, q, sort_by, sort_direction, limit, offset)),
        forall|columns: &str, q: &str, sort_by: &str, sort_direction: &str, limit: u32, offset: u32, res: String|
            #[trigger] paginator.ensures((columns, q, sort_by, sort_direction, limit, offset), res)
                ==> res@ == paginated_select(table_name@, columns@, q@, sort_by@, sort_direction@, limit, offset),
{
    let table_name = table_name.to_owned();
    let paginate_table = move |columns: &str, q: &str, sort_by: &str, sort_direction: &str, limit: u32, offset: u32| -> (res: String)
        ensures
            res@ == paginated_select(table_name@, columns@, q@, sort_by@, sort_direction@, limit, offset),
        {
            paginate(table_name.as_str(), columns, q, sort_by, sort_direction, limit, offset)
        };
    paginate_table
}

} // verus!
