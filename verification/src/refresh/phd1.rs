//! Removing rows that a join left behind.
//!
//! A refresh may leave rows in a stream table whose partners were deleted at
//! the same time.  They are found by comparing row ids with those of the
//! defining query.

use vstd::prelude::*;
use vstd::string::*;

use crate::text;
use crate::text::i64_text;

verus! {

/// The row ids of the defining query.
pub open spec fn full_sql(row_id: Seq<char>, query: Seq<char>) -> Seq<char> {
    "SELECT "@ + row_id + " AS __pgt_row_id FROM ("@ + query + ") sub"@
}

/// The row ids of the defining query.
fn full_query(row_id: &str, query: &str) -> (r: String)
    ensures
        r@ == full_sql(row_id@, query@),
{
    let mut r = "SELECT ".to_string();
    r.append(row_id);
    r.append(" AS __pgt_row_id FROM (");
    r.append(query);
    r.append(") sub");
    r
}

/// Deletes rows whose ids the defining query does not give, up to a number that
/// is the parameter, and counts them.
pub open spec fn cleanup_sql(full: Seq<char>, table: Seq<char>) -> Seq<char> {
    "WITH current_full AS MATERIALIZED ("@ + full
        + "), orphans AS ( SELECT DISTINCT st.__pgt_row_id FROM "@ + table
        + " st WHERE NOT EXISTS ( SELECT 1 FROM current_full cf WHERE cf.__pgt_row_id = st.__pgt_row_id ) LIMIT $1 ), deleted AS ( DELETE FROM "@
        + table
        + " st USING orphans o WHERE st.__pgt_row_id = o.__pgt_row_id RETURNING 1 ) SELECT count(*)::bigint FROM deleted"@
}

/// Deletes rows whose ids the defining query does not give, up to a number that
/// is the parameter, and counts them.
fn cleanup_query(full: &str, table: &str) -> (r: String)
    ensures
        r@ == cleanup_sql(full@, table@),
{
    let mut r = "WITH current_full AS MATERIALIZED (".to_string();
    r.append(full);
    r.append("), orphans AS ( SELECT DISTINCT st.__pgt_row_id FROM ");
    r.append(table);
    r.append(
        " st WHERE NOT EXISTS ( SELECT 1 FROM current_full cf WHERE cf.__pgt_row_id = st.__pgt_row_id ) LIMIT $1 ), deleted AS ( DELETE FROM ",
    );
    r.append(table);
    r.append(
        " st USING orphans o WHERE st.__pgt_row_id = o.__pgt_row_id RETURNING 1 ) SELECT count(*)::bigint FROM deleted",
    );
    r
}

/// What is said when rows were removed.
pub open spec fn cleaned_text(deleted: Seq<char>, pgt_id: Seq<char>) -> Seq<char> {
    "[pg_trickle] EC01-2: cleaned up "@ + deleted + " cross-cycle phantom rows for pgt_id="@
        + pgt_id
}

/// What is said when rows were removed.
fn build_cleaned(deleted: &str, pgt_id: &str) -> (r: String)
    ensures
        r@ == cleaned_text(deleted@, pgt_id@),
{
    let mut r = "[pg_trickle] EC01-2: cleaned up ".to_string();
    r.append(deleted);
    r.append(" cross-cycle phantom rows for pgt_id=");
    r.append(pgt_id);
    r
}

/// The statement that removes rows that were left behind.
pub fn cleanup_cross_cycle_phantoms(
    stream_table_name: &str,
    row_id_expr: &str,
    defining_query: &str,
) -> (r: String)
    ensures
        r@ == cleanup_sql(full_sql(row_id_expr@, defining_query@), stream_table_name@),
{
    cleanup_query(full_query(row_id_expr, defining_query).as_str(), stream_table_name)
}

/// How many rows were removed, and what is said of it if there were any.
pub fn cleanup_outcome(deleted: Option<i64>, pgt_id: i64) -> (r: (i64, Option<String>))
    ensures
        r.0 == match deleted {
            Some(n) => n,
            None => 0,
        },
        text::opt_text(r.1) == if r.0 > 0 {
            Some(
                cleaned_text(text::decimal_int(r.0 as int), text::decimal_int(pgt_id as int)),
            )
        } else {
            None
        },
{
    let n: i64 = match deleted {
        Some(n) => n,
        None => 0,
    };
    if n > 0 {
        (n, Some(build_cleaned(i64_text(n).as_str(), i64_text(pgt_id).as_str())))
    } else {
        (n, None)
    }
}

// ── What the texts say ─────────────────────────────────────────────────

/// The row ids are those that the expression gives over the defining query.
pub proof fn the_query_gives_the_row_ids(
    row_id: Seq<char>,
    query: Seq<char>,
)
    ensures
        ({
            let t = full_sql(row_id, query);
            &&& text::occurs(
                t,
                "SELECT "@ + row_id + " AS __pgt_row_id FROM ("@ + query + ") sub"@,
            )
        }),
{
    reveal_strlit(") sub");
    reveal_strlit("SELECT ");
    reveal_strlit(" AS __pgt_row_id FROM (");
    let t = full_sql(row_id, query);
    let f0 = "SELECT "@ + row_id + " AS __pgt_row_id FROM ("@ + query + ") sub"@;
    let k0 = 0int;
    assert(t.subrange(k0, k0 + f0.len()) =~= f0);
    assert(text::occurs_at(t, f0, k0));
}

/// Only rows whose ids the query does not give are removed, no more than the
/// limit, and they are counted.
pub proof fn only_rows_without_partners_are_removed(
    full: Seq<char>,
    table: Seq<char>,
)
    ensures
        ({
            let t = cleanup_sql(full, table);
            &&& text::occurs(
                t,
                "WITH current_full AS MATERIALIZED ("@ + full + ")"@,
            )
            &&& text::occurs(
                t,
                "FROM "@ + table
                    + " st WHERE NOT EXISTS ( SELECT 1 FROM current_full cf WHERE cf.__pgt_row_id = st.__pgt_row_id ) LIMIT $1"@,
            )
            &&& text::occurs(
                t,
                "DELETE FROM "@ + table
                    + " st USING orphans o WHERE st.__pgt_row_id = o.__pgt_row_id RETURNING 1"@,
            )
            &&& text::occurs(
                t,
                "SELECT count(*)::bigint FROM deleted"@,
            )
        }),
{
    reveal_strlit(")");
    reveal_strlit("FROM ");
    reveal_strlit("DELETE FROM ");
    reveal_strlit("WITH current_full AS MATERIALIZED (");
    reveal_strlit("SELECT count(*)::bigint FROM deleted");
    reveal_strlit("), orphans AS ( SELECT DISTINCT st.__pgt_row_id FROM ");
    reveal_strlit(" st USING orphans o WHERE st.__pgt_row_id = o.__pgt_row_id RETURNING 1");
    reveal_strlit(" st WHERE NOT EXISTS ( SELECT 1 FROM current_full cf WHERE cf.__pgt_row_id = st.__pgt_row_id ) LIMIT $1");
    reveal_strlit(" st USING orphans o WHERE st.__pgt_row_id = o.__pgt_row_id RETURNING 1 ) SELECT count(*)::bigint FROM deleted");
    reveal_strlit(" st WHERE NOT EXISTS ( SELECT 1 FROM current_full cf WHERE cf.__pgt_row_id = st.__pgt_row_id ) LIMIT $1 ), deleted AS ( DELETE FROM ");
    let t = cleanup_sql(full, table);
    let f0 = "WITH current_full AS MATERIALIZED ("@ + full + ")"@;
    let k0 = 0int;
    assert(t.subrange(k0, k0 + f0.len()) =~= f0);
    assert(text::occurs_at(t, f0, k0));
    let f1 = "FROM "@ + table
        + " st WHERE NOT EXISTS ( SELECT 1 FROM current_full cf WHERE cf.__pgt_row_id = st.__pgt_row_id ) LIMIT $1"@;
    let k1 = 83int + full.len();
    assert(t.subrange(k1, k1 + f1.len()) =~= f1);
    assert(text::occurs_at(t, f1, k1));
    let f2 = "DELETE FROM "@ + table
        + " st USING orphans o WHERE st.__pgt_row_id = o.__pgt_row_id RETURNING 1"@;
    let k2 = 208int + full.len() + table.len();
    assert(t.subrange(k2, k2 + f2.len()) =~= f2);
    assert(text::occurs_at(t, f2, k2));
    let f3 = "SELECT count(*)::bigint FROM deleted"@;
    let k3 = 293int + full.len() + table.len() + table.len();
    assert(t.subrange(k3, k3 + f3.len()) =~= f3);
    assert(text::occurs_at(t, f3, k3));
}

/// The message tells how many rows were removed, and from which stream table.
pub proof fn the_message_tells_how_many_rows(
    deleted: Seq<char>,
    pgt_id: Seq<char>,
)
    ensures
        ({
            let t = cleaned_text(deleted, pgt_id);
            &&& text::occurs(
                t,
                "cleaned up "@ + deleted + " "@,
            )
            &&& text::occurs(
                t,
                "rows for pgt_id="@ + pgt_id,
            )
        }),
{
    reveal_strlit(" ");
    reveal_strlit("cleaned up ");
    reveal_strlit("rows for pgt_id=");
    reveal_strlit("[pg_trickle] EC01-2: cleaned up ");
    reveal_strlit(" cross-cycle phantom rows for pgt_id=");
    let t = cleaned_text(deleted, pgt_id);
    let f0 = "cleaned up "@ + deleted + " "@;
    let k0 = 21int;
    assert(t.subrange(k0, k0 + f0.len()) =~= f0);
    assert(text::occurs_at(t, f0, k0));
    let f1 = "rows for pgt_id="@ + pgt_id;
    let k1 = 53int + deleted.len();
    assert(t.subrange(k1, k1 + f1.len()) =~= f1);
    assert(text::occurs_at(t, f1, k1));
}

} // verus!
