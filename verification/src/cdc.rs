//! Change capture by row triggers.
//!
//! Each tracked table has a trigger that writes inserts, updates and deletes
//! into a change buffer table.  The buffer has the columns `new_<column>` and
//! `old_<column>` for each column of the table, and a hash of the primary key
//! where there is one.

use vstd::prelude::*;
use vstd::string::*;

use crate::error::{ErrorView, PgTrickleError};
use crate::lexical;
use crate::text;
use crate::text::{join_texts, list_contains, replace_char, u32_text};

verus! {

// ── Statements ─────────────────────────────────────────────────────────

/// The function that a trigger calls.
pub open spec fn trigger_fn_sql(
    schema: Seq<char>,
    oid: Seq<char>,
    pk_decl: Seq<char>,
    new_names: Seq<char>,
    old_names: Seq<char>,
    new_pk: Seq<char>,
    old_pk: Seq<char>,
    new_vals: Seq<char>,
    old_vals: Seq<char>,
) -> Seq<char> {
    "CREATE OR REPLACE FUNCTION "@ + schema + ".pg_stream_cdc_fn_"@ + oid + "()\n         \
        RETURNS trigger LANGUAGE plpgsql AS $$\n         \
        BEGIN\n             \
        IF TG_OP = 'INSERT' THEN\n                 \
        INSERT INTO "@ + schema + ".changes_"@ + oid + "\n                     \
        (lsn, action"@ + pk_decl + new_names + ")\n                 \
        VALUES (pg_current_wal_lsn(), 'I'\n                         "@ + new_pk + new_vals
        + ");\n                 \
        RETURN NEW;\n             \
        ELSIF TG_OP = 'UPDATE' THEN\n                 \
        INSERT INTO "@ + schema + ".changes_"@ + oid + "\n                     \
        (lsn, action"@ + pk_decl + new_names + old_names + ")\n                 \
        VALUES (pg_current_wal_lsn(), 'U'\n                         "@ + new_pk + new_vals
        + old_vals + ");\n                 \
        RETURN NEW;\n             \
        ELSIF TG_OP = 'DELETE' THEN\n                 \
        INSERT INTO "@ + schema + ".changes_"@ + oid + "\n                     \
        (lsn, action"@ + pk_decl + old_names + ")\n                 \
        VALUES (pg_current_wal_lsn(), 'D'\n                         "@ + old_pk + old_vals
        + ");\n                 \
        RETURN OLD;\n             \
        END IF;\n             \
        RETURN NULL;\n         \
        END;\n         \
        $$"@
}

/// The function that a trigger calls.
fn trigger_fn_query(
    schema: &str,
    oid: &str,
    pk_decl: &str,
    new_names: &str,
    old_names: &str,
    new_pk: &str,
    old_pk: &str,
    new_vals: &str,
    old_vals: &str,
) -> (r: String)
    ensures
        r@ == trigger_fn_sql(
            schema@,
            oid@,
            pk_decl@,
            new_names@,
            old_names@,
            new_pk@,
            old_pk@,
            new_vals@,
            old_vals@,
        ),
{
    let mut r = "CREATE OR REPLACE FUNCTION ".to_string();
    r.append(schema);
    r.append(".pg_stream_cdc_fn_");
    r.append(oid);
    r.append("()\n         \
        RETURNS trigger LANGUAGE plpgsql AS $$\n         \
        BEGIN\n             \
        IF TG_OP = 'INSERT' THEN\n                 \
        INSERT INTO ");
    r.append(schema);
    r.append(".changes_");
    r.append(oid);
    r.append("\n                     \
        (lsn, action");
    r.append(pk_decl);
    r.append(new_names);
    r.append(")\n                 \
        VALUES (pg_current_wal_lsn(), 'I'\n                         ");
    r.append(new_pk);
    r.append(new_vals);
    r.append(");\n                 \
        RETURN NEW;\n             \
        ELSIF TG_OP = 'UPDATE' THEN\n                 \
        INSERT INTO ");
    r.append(schema);
    r.append(".changes_");
    r.append(oid);
    r.append("\n                     \
        (lsn, action");
    r.append(pk_decl);
    r.append(new_names);
    r.append(old_names);
    r.append(")\n                 \
        VALUES (pg_current_wal_lsn(), 'U'\n                         ");
    r.append(new_pk);
    r.append(new_vals);
    r.append(old_vals);
    r.append(");\n                 \
        RETURN NEW;\n             \
        ELSIF TG_OP = 'DELETE' THEN\n                 \
        INSERT INTO ");
    r.append(schema);
    r.append(".changes_");
    r.append(oid);
    r.append("\n                     \
        (lsn, action");
    r.append(pk_decl);
    r.append(old_names);
    r.append(")\n                 \
        VALUES (pg_current_wal_lsn(), 'D'\n                         ");
    r.append(old_pk);
    r.append(old_vals);
    r.append(");\n                 \
        RETURN OLD;\n             \
        END IF;\n             \
        RETURN NULL;\n         \
        END;\n         \
        $$");
    r
}

/// The trigger on a tracked table.
pub open spec fn trigger_sql(
    name: Seq<char>,
    table: Seq<char>,
    schema: Seq<char>,
    oid: Seq<char>,
) -> Seq<char> {
    "CREATE TRIGGER "@ + name + "\n         \
        AFTER INSERT OR UPDATE OR DELETE ON "@ + table + "\n         \
        FOR EACH ROW EXECUTE FUNCTION "@ + schema + ".pg_stream_cdc_fn_"@ + oid + "()"@
}

/// The trigger on a tracked table.
fn trigger_query(name: &str, table: &str, schema: &str, oid: &str) -> (r: String)
    ensures
        r@ == trigger_sql(name@, table@, schema@, oid@),
{
    let mut r = "CREATE TRIGGER ".to_string();
    r.append(name);
    r.append("\n         \
        AFTER INSERT OR UPDATE OR DELETE ON ");
    r.append(table);
    r.append("\n         \
        FOR EACH ROW EXECUTE FUNCTION ");
    r.append(schema);
    r.append(".pg_stream_cdc_fn_");
    r.append(oid);
    r.append("()");
    r
}

/// Drops a trigger.
pub open spec fn drop_trigger_sql(name: Seq<char>, table: Seq<char>) -> Seq<char> {
    "DROP TRIGGER IF EXISTS "@ + name + " ON "@ + table
}

/// Drops a trigger.
fn drop_trigger_query(name: &str, table: &str) -> (r: String)
    ensures
        r@ == drop_trigger_sql(name@, table@),
{
    let mut r = "DROP TRIGGER IF EXISTS ".to_string();
    r.append(name);
    r.append(" ON ");
    r.append(table);
    r
}

/// Drops the function that a trigger calls.
pub open spec fn drop_fn_sql(schema: Seq<char>, oid: Seq<char>) -> Seq<char> {
    "DROP FUNCTION IF EXISTS "@ + schema + ".pg_stream_cdc_fn_"@ + oid + "() CASCADE"@
}

/// Drops the function that a trigger calls.
fn drop_fn_query(schema: &str, oid: &str) -> (r: String)
    ensures
        r@ == drop_fn_sql(schema@, oid@),
{
    let mut r = "DROP FUNCTION IF EXISTS ".to_string();
    r.append(schema);
    r.append(".pg_stream_cdc_fn_");
    r.append(oid);
    r.append("() CASCADE");
    r
}

/// Creates a change buffer table.
pub open spec fn buffer_table_sql(
    schema: Seq<char>,
    oid: Seq<char>,
    pk_col: Seq<char>,
    typed_cols: Seq<char>,
) -> Seq<char> {
    "CREATE TABLE IF NOT EXISTS "@ + schema + ".changes_"@ + oid
        + " (change_id   BIGSERIAL,lsn         PG_LSN NOT NULL,action      CHAR(1) NOT NULL"@
        + pk_col + typed_cols + ")"@
}

/// Creates a change buffer table.
fn buffer_table_query(schema: &str, oid: &str, pk_col: &str, typed_cols: &str) -> (r: String)
    ensures
        r@ == buffer_table_sql(schema@, oid@, pk_col@, typed_cols@),
{
    let mut r = "CREATE TABLE IF NOT EXISTS ".to_string();
    r.append(schema);
    r.append(".changes_");
    r.append(oid);
    r.append(" (change_id   BIGSERIAL,lsn         PG_LSN NOT NULL,action      CHAR(1) NOT NULL");
    r.append(pk_col);
    r.append(typed_cols);
    r.append(")");
    r
}

/// The index of a change buffer with a key hash.
pub open spec fn keyed_index_sql(schema: Seq<char>, oid: Seq<char>) -> Seq<char> {
    "CREATE INDEX IF NOT EXISTS idx_changes_"@ + oid + "_lsn_pk_cid ON "@ + schema + ".changes_"@
        + oid + " (lsn, pk_hash, change_id) INCLUDE (action)"@
}

/// The index of a change buffer with a key hash.
fn keyed_index_query(schema: &str, oid: &str) -> (r: String)
    ensures
        r@ == keyed_index_sql(schema@, oid@),
{
    let mut r = "CREATE INDEX IF NOT EXISTS idx_changes_".to_string();
    r.append(oid);
    r.append("_lsn_pk_cid ON ");
    r.append(schema);
    r.append(".changes_");
    r.append(oid);
    r.append(" (lsn, pk_hash, change_id) INCLUDE (action)");
    r
}

/// The index of a change buffer without a key hash.
pub open spec fn plain_index_sql(schema: Seq<char>, oid: Seq<char>) -> Seq<char> {
    "CREATE INDEX IF NOT EXISTS idx_changes_"@ + oid + "_lsn ON "@ + schema + ".changes_"@ + oid
        + " (lsn) INCLUDE (action)"@
}

/// The index of a change buffer without a key hash.
fn plain_index_query(schema: &str, oid: &str) -> (r: String)
    ensures
        r@ == plain_index_sql(schema@, oid@),
{
    let mut r = "CREATE INDEX IF NOT EXISTS idx_changes_".to_string();
    r.append(oid);
    r.append("_lsn ON ");
    r.append(schema);
    r.append(".changes_");
    r.append(oid);
    r.append(" (lsn) INCLUDE (action)");
    r
}

/// The columns of a table and their types, in order.
pub open spec fn column_defs_sql(oid: Seq<char>) -> Seq<char> {
    "SELECT a.attname::text, format_type(a.atttypid, a.atttypmod) FROM pg_attribute a WHERE a.attrelid = "@
        + oid + " AND a.attnum > 0 AND NOT a.attisdropped ORDER BY a.attnum"@
}

/// The columns of a table and their types, in order.
fn column_defs_query(oid: &str) -> (r: String)
    ensures
        r@ == column_defs_sql(oid@),
{
    let mut r = "SELECT a.attname::text, format_type(a.atttypid, a.atttypmod) FROM pg_attribute a WHERE a.attrelid = ".to_string();
    r.append(oid);
    r.append(" AND a.attnum > 0 AND NOT a.attisdropped ORDER BY a.attnum");
    r
}

/// The primary key columns of a table, in key order.
pub open spec fn pk_columns_sql(oid: Seq<char>) -> Seq<char> {
    "SELECT a.attname::text FROM pg_constraint c JOIN pg_attribute a ON a.attrelid = c.conrelid AND a.attnum = ANY(c.conkey) WHERE c.conrelid = "@
        + oid + " AND c.contype = 'p' ORDER BY array_position(c.conkey, a.attnum)"@
}

/// The primary key columns of a table, in key order.
fn pk_columns_query(oid: &str) -> (r: String)
    ensures
        r@ == pk_columns_sql(oid@),
{
    let mut r = "SELECT a.attname::text FROM pg_constraint c JOIN pg_attribute a ON a.attrelid = c.conrelid AND a.attnum = ANY(c.conkey) WHERE c.conrelid = ".to_string();
    r.append(oid);
    r.append(" AND c.contype = 'p' ORDER BY array_position(c.conkey, a.attnum)");
    r
}

/// The number of pending changes.
pub open spec fn count_changes_sql(schema: Seq<char>, oid: Seq<char>) -> Seq<char> {
    "SELECT count(*)::bigint FROM "@ + schema + ".changes_"@ + oid
}

/// The number of pending changes.
fn count_changes_query(schema: &str, oid: &str) -> (r: String)
    ensures
        r@ == count_changes_sql(schema@, oid@),
{
    let mut r = "SELECT count(*)::bigint FROM ".to_string();
    r.append(schema);
    r.append(".changes_");
    r.append(oid);
    r
}

/// Deletes changes up to a log position and counts them.
pub open spec fn delete_changes_sql(schema: Seq<char>, oid: Seq<char>) -> Seq<char> {
    "WITH deleted AS (DELETE FROM "@ + schema + ".changes_"@ + oid
        + " WHERE lsn <= $1::pg_lsn RETURNING 1) SELECT count(*)::bigint FROM deleted"@
}

/// Deletes changes up to a log position and counts them.
fn delete_changes_query(schema: &str, oid: &str) -> (r: String)
    ensures
        r@ == delete_changes_sql(schema@, oid@),
{
    let mut r = "WITH deleted AS (DELETE FROM ".to_string();
    r.append(schema);
    r.append(".changes_");
    r.append(oid);
    r.append(" WHERE lsn <= $1::pg_lsn RETURNING 1) SELECT count(*)::bigint FROM deleted");
    r
}

/// The columns of a change buffer table.
pub open spec fn buffer_columns_sql(table: Seq<char>) -> Seq<char> {
    "SELECT attname::text FROM pg_attribute WHERE attrelid = '"@ + table
        + "'::regclass AND attnum > 0 AND NOT attisdropped"@
}

/// The columns of a change buffer table.
fn buffer_columns_query(table: &str) -> (r: String)
    ensures
        r@ == buffer_columns_sql(table@),
{
    let mut r = "SELECT attname::text FROM pg_attribute WHERE attrelid = '".to_string();
    r.append(table);
    r.append("'::regclass AND attnum > 0 AND NOT attisdropped");
    r
}

/// Adds a column to a change buffer table.
pub open spec fn add_column_sql(
    table: Seq<char>,
    column: Seq<char>,
    sql_type: Seq<char>,
) -> Seq<char> {
    "ALTER TABLE "@ + table + " ADD COLUMN IF NOT EXISTS \""@ + column + "\" "@ + sql_type
}

/// Adds a column to a change buffer table.
fn add_column_query(table: &str, column: &str, sql_type: &str) -> (r: String)
    ensures
        r@ == add_column_sql(table@, column@, sql_type@),
{
    let mut r = "ALTER TABLE ".to_string();
    r.append(table);
    r.append(" ADD COLUMN IF NOT EXISTS \"");
    r.append(column);
    r.append("\" ");
    r.append(sql_type);
    r
}

/// The hash of a key of one column.
pub open spec fn hash_one_sql(value: Seq<char>) -> Seq<char> {
    "pgstream.pg_stream_hash("@ + value + ")"@
}

/// The hash of a key of one column.
pub fn hash_one_query(value: &str) -> (r: String)
    ensures
        r@ == hash_one_sql(value@),
{
    let mut r = "pgstream.pg_stream_hash(".to_string();
    r.append(value);
    r.append(")");
    r
}

/// The hash of a key of several columns.
pub open spec fn hash_many_sql(values: Seq<char>) -> Seq<char> {
    "pgstream.pg_stream_hash_multi(ARRAY["@ + values + "])"@
}

/// The hash of a key of several columns.
pub fn hash_many_query(values: &str) -> (r: String)
    ensures
        r@ == hash_many_sql(values@),
{
    let mut r = "pgstream.pg_stream_hash_multi(ARRAY[".to_string();
    r.append(values);
    r.append("])");
    r
}

// ── Columns ────────────────────────────────────────────────────────────

/// A column name as it stands between double quotes.
pub open spec fn doubled(name: Seq<char>) -> Seq<char> {
    text::replaced(name, '"', "\"\""@)
}

/// Column names, each between two texts.
pub open spec fn each(before: Seq<char>, names: Seq<Seq<char>>, after: Seq<char>) -> Seq<
    Seq<char>,
> {
    Seq::new(names.len(), |i: int| before + doubled(names[i]) + after)
}

/// Column names, each between two texts.
fn build_each(before: &str, names: &Vec<String>, after: &str) -> (r: Vec<String>)
    ensures
        text::texts(r@) == each(before@, text::texts(names@), after@),
{
    let mut r: Vec<String> = Vec::new();
    let mut i: usize = 0;
    while i < names.len()
        invariant
            i <= names.len(),
            r@.len() == i,
            forall|k: int|
                0 <= k < i ==> (#[trigger] r@[k])@ == before@ + doubled(names@[k]@) + after@,
        decreases names.len() - i,
    {
        let mut t = before.to_string();
        t.append(replace_char(names[i].as_str(), '"', "\"\"").as_str());
        t.append(after);
        r.push(t);
        i += 1;
    }
    assert(text::texts(r@) =~= each(before@, text::texts(names@), after@));
    r
}

/// The names of column definitions.
pub open spec fn def_names(columns: Seq<(String, String)>) -> Seq<Seq<char>> {
    Seq::new(columns.len(), |i: int| columns[i].0@)
}

/// The names of column definitions.
fn names_of_defs(columns: &Vec<(String, String)>) -> (r: Vec<String>)
    ensures
        text::texts(r@) == def_names(columns@),
{
    let mut r: Vec<String> = Vec::new();
    let mut i: usize = 0;
    while i < columns.len()
        invariant
            i <= columns.len(),
            r@.len() == i,
            forall|k: int| 0 <= k < i ==> (#[trigger] r@[k])@ == columns@[k].0@,
        decreases columns.len() - i,
    {
        r.push(columns[i].0.clone());
        i += 1;
    }
    assert(text::texts(r@) =~= def_names(columns@));
    r
}

/// The columns of a buffer table for the columns of a table: one for the value
/// before and one for the value after, with the type of the column.
pub open spec fn typed_columns(columns: Seq<(String, String)>) -> Seq<Seq<char>> {
    Seq::new(
        columns.len(),
        |i: int|
            ",\"new_"@ + doubled(columns[i].0@) + "\" "@ + columns[i].1@ + ",\"old_"@ + doubled(
                columns[i].0@,
            ) + "\" "@ + columns[i].1@,
    )
}

/// The columns of a buffer table for the columns of a table.
fn build_typed_columns(columns: &Vec<(String, String)>) -> (r: Vec<String>)
    ensures
        text::texts(r@) == typed_columns(columns@),
{
    let mut r: Vec<String> = Vec::new();
    let mut i: usize = 0;
    while i < columns.len()
        invariant
            i <= columns.len(),
            r@.len() == i,
            forall|k: int| 0 <= k < i ==> (#[trigger] r@[k])@ == typed_columns(columns@)[k],
        decreases columns.len() - i,
    {
        let name = replace_char(columns[i].0.as_str(), '"', "\"\"");
        let mut t = ",\"new_".to_string();
        t.append(name.as_str());
        t.append("\" ");
        t.append(columns[i].1.as_str());
        t.append(",\"old_");
        t.append(name.as_str());
        t.append("\" ");
        t.append(columns[i].1.as_str());
        r.push(t);
        i += 1;
    }
    assert(text::texts(r@) =~= typed_columns(columns@));
    r
}

// ── Key hashes ─────────────────────────────────────────────────────────

/// The hash of the primary key of a record; zero where there is no key.
pub open spec fn key_hash(record: Seq<char>, pk: Seq<Seq<char>>) -> Seq<char> {
    let values = each(record + ".\""@, pk, "\"::text"@);
    if pk.len() == 0 {
        "0"@
    } else if pk.len() == 1 {
        hash_one_sql(values[0])
    } else {
        hash_many_sql(text::join(values, ", "@))
    }
}

/// The hash of the primary key of a record.
fn build_key_hash(record: &str, pk_columns: &Vec<String>) -> (r: String)
    ensures
        r@ == key_hash(record@, text::texts(pk_columns@)),
{
    let mut before = record.to_string();
    before.append(".\"");
    let values = build_each(before.as_str(), pk_columns, "\"::text");
    if values.len() == 0 {
        "0".to_string()
    } else if values.len() == 1 {
        assert(text::texts(values@)[0] == values@[0]@);
        hash_one_query(values[0].as_str())
    } else {
        hash_many_query(join_texts(&values, ", ").as_str())
    }
}

/// The hash of the primary key of the new record and that of the old one, as
/// expressions in a trigger.
pub fn build_pk_hash_trigger_exprs(pk_columns: &Vec<String>) -> (r: (String, String))
    ensures
        r.0@ == key_hash("NEW"@, text::texts(pk_columns@)),
        r.1@ == key_hash("OLD"@, text::texts(pk_columns@)),
{
    (build_key_hash("NEW", pk_columns), build_key_hash("OLD", pk_columns))
}

// ── Triggers ───────────────────────────────────────────────────────────

/// The name of the trigger on a table.
pub open spec fn trigger_name(oid: u32) -> Seq<char> {
    "pg_stream_cdc_"@ + text::decimal(oid as nat)
}

/// Different tables have different triggers.
pub proof fn triggers_differ(a: u32, b: u32)
    requires
        trigger_name(a) == trigger_name(b),
    ensures
        a == b,
{
    reveal_strlit("pg_stream_cdc_");
    let prefix = "pg_stream_cdc_"@;
    assert(prefix.last() == '_');
    lexical::last_number_is_read(prefix, prefix, a as nat, b as nat);
}

/// The name of the trigger on a table.
pub fn trigger_name_for_source(source_oid: u32) -> (r: String)
    ensures
        r@ == trigger_name(source_oid),
{
    let mut r = "pg_stream_cdc_".to_string();
    r.append(u32_text(source_oid).as_str());
    r
}

/// The change buffer table of a table.
pub open spec fn buffer_name(schema: Seq<char>, oid: u32) -> Seq<char> {
    schema + ".changes_"@ + text::decimal(oid as nat)
}

/// Different tables have different change buffers, whatever the schemas.
pub proof fn buffers_differ(schema: Seq<char>, other: Seq<char>, a: u32, b: u32)
    requires
        buffer_name(schema, a) == buffer_name(other, b),
    ensures
        a == b,
{
    reveal_strlit(".changes_");
    let x = schema + ".changes_"@;
    let y = other + ".changes_"@;
    assert(x.last() == '_');
    assert(y.last() == '_');
    lexical::last_number_is_read(x, y, a as nat, b as nat);
}

/// The change buffer table of a table.
pub fn buffer_table_name(change_schema: &str, source_oid: u32) -> (r: String)
    ensures
        r@ == buffer_name(change_schema@, source_oid),
{
    let mut r = change_schema.to_string();
    r.append(".changes_");
    r.append(u32_text(source_oid).as_str());
    r
}

/// A value in a list, after a comma, where there is a primary key.
pub open spec fn if_keyed(keyed: bool, value: Seq<char>) -> Seq<char> {
    if keyed {
        ", "@ + value
    } else {
        Seq::empty()
    }
}

/// A value in a list, after a comma, where there is a primary key.
fn build_if_keyed(keyed: bool, value: &str) -> (r: String)
    ensures
        r@ == if_keyed(keyed, value@),
{
    if keyed {
        let mut r = ", ".to_string();
        r.append(value);
        r
    } else {
        let r = "".to_string();
        proof {
            reveal_strlit("");
            assert(r@ =~= Seq::empty());
        }
        r
    }
}

/// The function that the trigger on a table calls.
///
/// It writes a hash of the key where there is one, the new values of inserts
/// and updates, and the old values of updates and deletes.
pub open spec fn trigger_function(
    oid: u32,
    schema: Seq<char>,
    pk: Seq<Seq<char>>,
    columns: Seq<Seq<char>>,
) -> Seq<char> {
    trigger_fn_sql(
        schema,
        text::decimal(oid as nat),
        if_keyed(pk.len() > 0, "pk_hash"@),
        text::join(each(", \"new_"@, columns, "\""@), ""@),
        text::join(each(", \"old_"@, columns, "\""@), ""@),
        if_keyed(pk.len() > 0, key_hash("NEW"@, pk)),
        if_keyed(pk.len() > 0, key_hash("OLD"@, pk)),
        text::join(each(", NEW.\""@, columns, "\""@), ""@),
        text::join(each(", OLD.\""@, columns, "\""@), ""@),
    )
}

/// The statement that creates or replaces the function that the trigger on a
/// table calls.
pub fn trigger_function_sql(
    source_oid: u32,
    change_schema: &str,
    pk_columns: &Vec<String>,
    columns: &Vec<(String, String)>,
) -> (r: String)
    ensures
        r@ == trigger_function(
            source_oid,
            change_schema@,
            text::texts(pk_columns@),
            def_names(columns@),
        ),
{
    let keyed = pk_columns.len() > 0;
    let (new_hash, old_hash) = build_pk_hash_trigger_exprs(pk_columns);
    let names = names_of_defs(columns);
    trigger_fn_query(
        change_schema,
        u32_text(source_oid).as_str(),
        build_if_keyed(keyed, "pk_hash").as_str(),
        join_texts(&build_each(", \"new_", &names, "\""), "").as_str(),
        join_texts(&build_each(", \"old_", &names, "\""), "").as_str(),
        build_if_keyed(keyed, new_hash.as_str()).as_str(),
        build_if_keyed(keyed, old_hash.as_str()).as_str(),
        join_texts(&build_each(", NEW.\"", &names, "\""), "").as_str(),
        join_texts(&build_each(", OLD.\"", &names, "\""), "").as_str(),
    )
}

/// What creates the trigger on a table.
#[derive(Debug)]
pub struct ChangeTrigger {
    /// The name of the trigger.
    pub name: String,
    /// Creates the function that the trigger calls.
    pub function_sql: String,
    /// Creates the trigger.
    pub trigger_sql: String,
}

/// What creates the trigger on a table.
///
/// The source table is given by its name, or there is none with that object
/// id, which is an error.
pub fn create_change_trigger(
    source_oid: u32,
    source_table: Option<String>,
    change_schema: &str,
    pk_columns: &Vec<String>,
    columns: &Vec<(String, String)>,
) -> (r: Result<ChangeTrigger, PgTrickleError>)
    ensures
        match source_table {
            None => r is Err && r->Err_0@ == table_missing(source_oid),
            Some(table) => {
                &&& r is Ok
                &&& r->Ok_0.name@ == trigger_name(source_oid)
                &&& r->Ok_0.function_sql@ == trigger_function(
                    source_oid,
                    change_schema@,
                    text::texts(pk_columns@),
                    def_names(columns@),
                )
                &&& r->Ok_0.trigger_sql@ == trigger_sql(
                    trigger_name(source_oid),
                    table@,
                    change_schema@,
                    text::decimal(source_oid as nat),
                )
            },
        },
{
    match source_table {
        Some(table) => {
            let name = trigger_name_for_source(source_oid);
            let function_sql = trigger_function_sql(
                source_oid,
                change_schema,
                pk_columns,
                columns,
            );
            let trigger_sql = trigger_query(
                name.as_str(),
                table.as_str(),
                change_schema,
                u32_text(source_oid).as_str(),
            );
            Ok(ChangeTrigger { name, function_sql, trigger_sql })
        },
        None => Err(no_table(source_oid)),
    }
}

/// The failure where no table has an object id.
pub open spec fn table_missing(oid: u32) -> ErrorView {
    ErrorView::NotFound("Table with OID "@ + text::decimal(oid as nat) + " not found"@)
}

/// The error where no table has an object id.
pub fn no_table(oid: u32) -> (r: PgTrickleError)
    ensures
        r@ == table_missing(oid),
{
    let mut m = "Table with OID ".to_string();
    m.append(u32_text(oid).as_str());
    m.append(" not found");
    PgTrickleError::NotFound(m)
}

/// The statements that drop the trigger on a table and its function, in order.
/// The trigger is left to the drop of the function where the table is gone.
pub fn drop_change_trigger(
    source_oid: u32,
    source_table: Option<String>,
    change_schema: &str,
) -> (r: Vec<String>)
    ensures
        text::texts(r@) == match source_table {
            Some(table) => seq![
                drop_trigger_sql(trigger_name(source_oid), table@),
                drop_fn_sql(change_schema@, text::decimal(source_oid as nat)),
            ],
            None => seq![drop_fn_sql(change_schema@, text::decimal(source_oid as nat))],
        },
{
    let mut r: Vec<String> = Vec::new();
    let drop_fn = drop_fn_query(change_schema, u32_text(source_oid).as_str());
    match source_table {
        Some(table) => {
            let name = trigger_name_for_source(source_oid);
            r.push(drop_trigger_query(name.as_str(), table.as_str()));
            r.push(drop_fn);
            assert(text::texts(r@) =~= seq![
                drop_trigger_sql(trigger_name(source_oid), table@),
                drop_fn_sql(change_schema@, text::decimal(source_oid as nat)),
            ]);
        },
        None => {
            r.push(drop_fn);
            assert(text::texts(r@) =~= seq![
                drop_fn_sql(change_schema@, text::decimal(source_oid as nat)),
            ]);
        },
    }
    r
}

/// The function that the trigger on a table calls, after the columns of the
/// table changed.  There is nothing to rebuild for a table without columns.
pub fn rebuild_cdc_trigger_function(
    source_oid: u32,
    change_schema: &str,
    pk_columns: &Vec<String>,
    columns: &Vec<(String, String)>,
) -> (r: Option<String>)
    ensures
        text::opt_text(r) == if columns@.len() == 0 {
            None
        } else {
            Some(
                trigger_function(
                    source_oid,
                    change_schema@,
                    text::texts(pk_columns@),
                    def_names(columns@),
                ),
            )
        },
{
    if columns.len() == 0 {
        None
    } else {
        Some(trigger_function_sql(source_oid, change_schema, pk_columns, columns))
    }
}

// ── Change buffers ─────────────────────────────────────────────────────

/// The statements that create the change buffer of a table and its index.
pub fn create_change_buffer_table(
    source_oid: u32,
    change_schema: &str,
    has_pk: bool,
    columns: &Vec<(String, String)>,
) -> (r: (String, String))
    ensures
        r.0@ == buffer_table_sql(
            change_schema@,
            text::decimal(source_oid as nat),
            if has_pk {
                ",pk_hash BIGINT"@
            } else {
                ""@
            },
            text::join(typed_columns(columns@), ""@),
        ),
        r.1@ == if has_pk {
            keyed_index_sql(change_schema@, text::decimal(source_oid as nat))
        } else {
            plain_index_sql(change_schema@, text::decimal(source_oid as nat))
        },
{
    let oid = u32_text(source_oid);
    let pk_col = if has_pk {
        ",pk_hash BIGINT"
    } else {
        ""
    };
    let table = buffer_table_query(
        change_schema,
        oid.as_str(),
        pk_col,
        join_texts(&build_typed_columns(columns), "").as_str(),
    );
    let index = if has_pk {
        keyed_index_query(change_schema, oid.as_str())
    } else {
        plain_index_query(change_schema, oid.as_str())
    };
    (table, index)
}

/// A column that a change buffer lacks.
#[derive(Debug)]
pub struct MissingColumn {
    pub column: String,
    /// Adds the column.
    pub sql: String,
}

/// A column that a change buffer lacks.
pub struct MissingColumnView {
    pub column: Seq<char>,
    pub sql: Seq<char>,
}

impl View for MissingColumn {
    type V = MissingColumnView;

    open spec fn view(&self) -> MissingColumnView {
        MissingColumnView { column: self.column@, sql: self.sql@ }
    }
}

/// The views of columns that a change buffer lacks.
pub open spec fn missing_views(v: Seq<MissingColumn>) -> Seq<MissingColumnView> {
    Seq::new(v.len(), |i: int| v[i]@)
}

/// A list with one more column, unless the change buffer has it.
pub open spec fn with_missing(
    list: Seq<MissingColumnView>,
    existing: Seq<Seq<char>>,
    table: Seq<char>,
    column: Seq<char>,
    sql_type: Seq<char>,
) -> Seq<MissingColumnView> {
    if existing.contains(column) {
        list
    } else {
        list.push(
            MissingColumnView { column, sql: add_column_sql(table, doubled(column), sql_type) },
        )
    }
}

/// The columns that a change buffer lacks: for each column of the table the one
/// for new values and the one for old values.
pub open spec fn missing_columns(
    existing: Seq<Seq<char>>,
    table: Seq<char>,
    columns: Seq<(String, String)>,
) -> Seq<MissingColumnView>
    decreases columns.len(),
{
    if columns.len() == 0 {
        Seq::empty()
    } else {
        let (name, sql_type) = columns.last();
        with_missing(
            with_missing(
                missing_columns(existing, table, columns.drop_last()),
                existing,
                table,
                "new_"@ + name@,
                sql_type@,
            ),
            existing,
            table,
            "old_"@ + name@,
            sql_type@,
        )
    }
}

/// Adds a column to a list, unless the change buffer has it.
fn push_missing(
    list: &mut Vec<MissingColumn>,
    existing: &Vec<String>,
    table: &str,
    prefix: &str,
    name: &str,
    sql_type: &str,
)
    ensures
        missing_views(final(list)@) == with_missing(
            missing_views(old(list)@),
            text::texts(existing@),
            table@,
            prefix@ + name@,
            sql_type@,
        ),
{
    let ghost before = list@;
    let mut column = prefix.to_string();
    column.append(name);
    if !list_contains(existing, column.as_str()) {
        let quoted = replace_char(column.as_str(), '"', "\"\"");
        let sql = add_column_query(table, quoted.as_str(), sql_type);
        let missing = MissingColumn { column, sql };
        let ghost added = missing@;
        list.push(missing);
        assert(missing_views(list@) =~= missing_views(before).push(added));
    }
}

/// The columns that a change buffer lacks, with the statements that add them.
///
/// Columns that the table no longer has are left in the change buffer.
pub fn sync_change_buffer_columns(
    source_oid: u32,
    change_schema: &str,
    existing: &Vec<String>,
    columns: &Vec<(String, String)>,
) -> (r: Vec<MissingColumn>)
    ensures
        missing_views(r@) == missing_columns(
            text::texts(existing@),
            buffer_name(change_schema@, source_oid),
            columns@,
        ),
{
    let table = buffer_table_name(change_schema, source_oid);
    let mut r: Vec<MissingColumn> = Vec::new();
    let mut i: usize = 0;
    assert(missing_views(r@) =~= Seq::empty());
    while i < columns.len()
        invariant
            i <= columns.len(),
            missing_views(r@) == missing_columns(
                text::texts(existing@),
                table@,
                columns@.take(i as int),
            ),
        decreases columns.len() - i,
    {
        assert(columns@.take(i + 1).drop_last() =~= columns@.take(i as int));
        let name = columns[i].0.as_str();
        let sql_type = columns[i].1.as_str();
        push_missing(&mut r, existing, table.as_str(), "new_", name, sql_type);
        push_missing(&mut r, existing, table.as_str(), "old_", name, sql_type);
        i += 1;
    }
    assert(columns@.take(i as int) =~= columns@);
    r
}

// ── Queries about tables ───────────────────────────────────────────────

/// The query for the columns of a change buffer table.
pub fn existing_columns_sql(source_oid: u32, change_schema: &str) -> (r: String)
    ensures
        r@ == buffer_columns_sql(buffer_name(change_schema@, source_oid)),
{
    buffer_columns_query(buffer_table_name(change_schema, source_oid).as_str())
}

/// The query for the columns of a table.
pub fn source_column_defs_sql(source_oid: u32) -> (r: String)
    ensures
        r@ == column_defs_sql(text::decimal(source_oid as nat)),
{
    column_defs_query(u32_text(source_oid).as_str())
}

/// The query for the primary key columns of a table.
pub fn source_pk_columns_sql(source_oid: u32) -> (r: String)
    ensures
        r@ == pk_columns_sql(text::decimal(source_oid as nat)),
{
    pk_columns_query(u32_text(source_oid).as_str())
}

/// A text, or another where there is none.
pub open spec fn text_or(s: Option<String>, default: Seq<char>) -> Seq<char> {
    match s {
        Some(t) => t@,
        None => default,
    }
}

/// A text, or another where there is none.
pub fn or_default(s: &Option<String>, default: &str) -> (r: String)
    ensures
        r@ == text_or(*s, default@),
{
    match s {
        Some(t) => t.clone(),
        None => default.to_string(),
    }
}

/// The columns of a table from the rows of the query for them.  A name that is
/// missing is empty, a type that is missing is `text`.
pub fn resolve_source_column_defs(rows: &Vec<(Option<String>, Option<String>)>) -> (r: Vec<
    (String, String),
>)
    ensures
        r@.len() == rows@.len(),
        forall|i: int|
            0 <= i < rows@.len() ==> (#[trigger] r@[i]).0@ == text_or(rows@[i].0, ""@)
                && r@[i].1@ == text_or(rows@[i].1, "text"@),
{
    let mut r: Vec<(String, String)> = Vec::new();
    let mut i: usize = 0;
    while i < rows.len()
        invariant
            i <= rows.len(),
            r@.len() == i,
            forall|k: int|
                0 <= k < i ==> (#[trigger] r@[k]).0@ == text_or(rows@[k].0, ""@) && r@[k].1@
                    == text_or(rows@[k].1, "text"@),
        decreases rows.len() - i,
    {
        r.push((or_default(&rows[i].0, ""), or_default(&rows[i].1, "text")));
        i += 1;
    }
    r
}

/// The primary key columns of a table from the rows of the query for them.
pub fn resolve_pk_columns(rows: &Vec<Option<String>>) -> (r: Vec<String>)
    ensures
        r@.len() == rows@.len(),
        forall|i: int|
            0 <= i < rows@.len() ==> (#[trigger] r@[i])@ == text_or(rows@[i], ""@),
{
    let mut r: Vec<String> = Vec::new();
    let mut i: usize = 0;
    while i < rows.len()
        invariant
            i <= rows.len(),
            r@.len() == i,
            forall|k: int| 0 <= k < i ==> (#[trigger] r@[k])@ == text_or(rows@[k], ""@),
        decreases rows.len() - i,
    {
        r.push(or_default(&rows[i], ""));
        i += 1;
    }
    r
}

/// A log position, or the start of the log where there is none.
pub fn lsn_or_start(lsn: &Option<String>) -> (r: String)
    ensures
        r@ == text_or(*lsn, "0/0"@),
{
    or_default(lsn, "0/0")
}

/// Whether a list of positions has one for a source.
pub open spec fn has_position(positions: Seq<(u32, String)>, oid: u32) -> bool {
    exists|i: int| 0 <= i < positions.len() && (#[trigger] positions[i]).0 == oid
}

/// The position of each source: the current end of the log.
pub fn get_slot_positions(source_oids: &Vec<u32>, current_lsn: &str) -> (r: Vec<(u32, String)>)
    ensures
        forall|i: int, j: int|
            0 <= i < j < r@.len() ==> (#[trigger] r@[i]).0 != (#[trigger] r@[j]).0,
        forall|oid: u32| #[trigger] has_position(r@, oid) <==> source_oids@.contains(oid),
        forall|i: int| 0 <= i < r@.len() ==> (#[trigger] r@[i]).1@ == current_lsn@,
{
    let mut r: Vec<(u32, String)> = Vec::new();
    let mut i: usize = 0;
    while i < source_oids.len()
        invariant
            i <= source_oids.len(),
            forall|a: int, b: int|
                0 <= a < b < r@.len() ==> (#[trigger] r@[a]).0 != (#[trigger] r@[b]).0,
            forall|oid: u32| #[trigger]
                has_position(r@, oid) <==> source_oids@.take(i as int).contains(oid),
            forall|k: int| 0 <= k < r@.len() ==> (#[trigger] r@[k]).1@ == current_lsn@,
        decreases source_oids.len() - i,
    {
        let oid = source_oids[i];
        let ghost before = r@;
        let mut known = false;
        let mut j: usize = 0;
        while j < r.len()
            invariant
                j <= r.len(),
                r@ == before,
                known ==> has_position(before, oid),
                !known ==> forall|k: int| 0 <= k < j ==> (#[trigger] before[k]).0 != oid,
            decreases r.len() - j,
        {
            if r[j].0 == oid {
                assert(before[j as int].0 == oid);
                known = true;
            }
            j += 1;
        }
        if !known {
            r.push((oid, current_lsn.to_string()));
        }
        proof {
            let now = source_oids@.take(i as int);
            let next = source_oids@.take(i + 1);
            assert(next =~= now.push(oid));
            assert forall|x: u32| #[trigger] has_position(r@, x) <==> next.contains(x) by {
                if has_position(before, x) {
                    let k = choose|k: int| 0 <= k < before.len() && (#[trigger] before[k]).0 == x;
                    assert(r@[k].0 == x);
                    assert(now.contains(x));
                    assert(next[now.index_of(x)] == x);
                }
                if x == oid {
                    assert(next[now.len() as int] == x);
                    if !known {
                        assert(r@[before.len() as int].0 == x);
                    }
                }
                if next.contains(x) && x != oid {
                    assert(now[next.index_of(x)] == x);
                    assert(has_position(before, x));
                }
                if has_position(r@, x) && x != oid {
                    let k = choose|k: int| 0 <= k < r@.len() && (#[trigger] r@[k]).0 == x;
                    assert(before[k].0 == x);
                }
            }
        }
        i += 1;
    }
    assert(source_oids@.take(i as int) =~= source_oids@);
    r
}

/// The query for the number of pending changes of a table.
pub fn consume_slot_changes(source_oid: u32, change_schema: &str) -> (r: String)
    ensures
        r@ == count_changes_sql(change_schema@, text::decimal(source_oid as nat)),
{
    count_changes_query(change_schema, u32_text(source_oid).as_str())
}

/// The statement that deletes the changes of a table up to a log position,
/// which is its parameter, and counts them.
pub fn delete_consumed_changes(source_oid: u32, change_schema: &str) -> (r: String)
    ensures
        r@ == delete_changes_sql(change_schema@, text::decimal(source_oid as nat)),
{
    delete_changes_query(change_schema, u32_text(source_oid).as_str())
}

/// A count, or zero where there is none.
pub fn count_or_zero(count: Option<i64>) -> (r: i64)
    ensures
        r == match count {
            Some(n) => n,
            None => 0,
        },
{
    match count {
        Some(n) => n,
        None => 0,
    }
}

/// The error of a statement that failed, with what it was for.
pub fn statement_failed(what: &str, error: &str) -> (r: PgTrickleError)
    ensures
        r@ == ErrorView::SpiError(what@ + ": "@ + error@),
{
    let mut m = what.to_string();
    m.append(": ");
    m.append(error);
    PgTrickleError::SpiError(m)
}

// ── Laws ───────────────────────────────────────────────────────────────

/// Once the columns that a change buffer lacks are added, it lacks none.
pub proof fn synced_lacks_nothing(
    existing: Seq<Seq<char>>,
    table: Seq<char>,
    columns: Seq<(String, String)>,
    all: Seq<Seq<char>>,
)
    requires
        forall|c: Seq<char>| #[trigger] existing.contains(c) ==> all.contains(c),
        forall|i: int|
            0 <= i < missing_columns(existing, table, columns).len() ==> all.contains(
                (#[trigger] missing_columns(existing, table, columns)[i]).column,
            ),
    ensures
        missing_columns(all, table, columns) == Seq::<MissingColumnView>::empty(),
    decreases columns.len(),
{
    if columns.len() > 0 {
        let rest = columns.drop_last();
        let (name, sql_type) = columns.last();
        let a = missing_columns(existing, table, rest);
        let b = with_missing(a, existing, table, "new_"@ + name@, sql_type@);
        let c = missing_columns(existing, table, columns);
        assert(c == with_missing(b, existing, table, "old_"@ + name@, sql_type@));
        assert forall|i: int| 0 <= i < a.len() implies all.contains((#[trigger] a[i]).column) by {
            assert(c[i] == a[i]);
        }
        synced_lacks_nothing(existing, table, rest, all);
        if !existing.contains("new_"@ + name@) {
            assert(b[a.len() as int].column == "new_"@ + name@);
            assert(c[a.len() as int] == b[a.len() as int]);
        }
        if !existing.contains("old_"@ + name@) {
            assert(c[b.len() as int].column == "old_"@ + name@);
        }
    }
}

// ── What the queries say ───────────────────────────────────────────────

/// An insert is written with the new values, an update with the new and the old
/// ones, a delete with the old ones; the hash is that of the key after the
/// change, and for a delete that of the key before it.
pub proof fn each_change_is_written_with_its_values(
    schema: Seq<char>,
    oid: Seq<char>,
    pk_decl: Seq<char>,
    new_names: Seq<char>,
    old_names: Seq<char>,
    new_pk: Seq<char>,
    old_pk: Seq<char>,
    new_vals: Seq<char>,
    old_vals: Seq<char>,
)
    ensures
        ({
            let t = trigger_fn_sql(
                schema,
                oid,
                pk_decl,
                new_names,
                old_names,
                new_pk,
                old_pk,
                new_vals,
                old_vals,
            );
            &&& text::occurs(
                t,
                "IF TG_OP = 'INSERT' THEN\n                 INSERT INTO "@ + schema + ".changes_"@
                    + oid + "\n                     (lsn, action"@ + pk_decl + new_names
                    + ")\n                 VALUES (pg_current_wal_lsn(), 'I'\n                         "@
                    + new_pk + new_vals + ");"@,
            )
            &&& text::occurs(
                t,
                "ELSIF TG_OP = 'UPDATE' THEN\n                 INSERT INTO "@ + schema
                    + ".changes_"@ + oid + "\n                     (lsn, action"@ + pk_decl
                    + new_names + old_names
                    + ")\n                 VALUES (pg_current_wal_lsn(), 'U'\n                         "@
                    + new_pk + new_vals + old_vals + ");"@,
            )
            &&& text::occurs(
                t,
                "ELSIF TG_OP = 'DELETE' THEN\n                 INSERT INTO "@ + schema
                    + ".changes_"@ + oid + "\n                     (lsn, action"@ + pk_decl
                    + old_names
                    + ")\n                 VALUES (pg_current_wal_lsn(), 'D'\n                         "@
                    + old_pk + old_vals + ");"@,
            )
        }),
{
    reveal_strlit(");");
    reveal_strlit(".changes_");
    reveal_strlit(".pg_stream_cdc_fn_");
    reveal_strlit("CREATE OR REPLACE FUNCTION ");
    reveal_strlit("\n                     (lsn, action");
    reveal_strlit("IF TG_OP = 'INSERT' THEN\n                 INSERT INTO ");
    reveal_strlit("ELSIF TG_OP = 'DELETE' THEN\n                 INSERT INTO ");
    reveal_strlit("ELSIF TG_OP = 'UPDATE' THEN\n                 INSERT INTO ");
    reveal_strlit(")\n                 VALUES (pg_current_wal_lsn(), 'D'\n                         ");
    reveal_strlit(")\n                 VALUES (pg_current_wal_lsn(), 'I'\n                         ");
    reveal_strlit(")\n                 VALUES (pg_current_wal_lsn(), 'U'\n                         ");
    reveal_strlit(");\n                 RETURN NEW;\n             ELSIF TG_OP = 'DELETE' THEN\n                 INSERT INTO ");
    reveal_strlit(");\n                 RETURN NEW;\n             ELSIF TG_OP = 'UPDATE' THEN\n                 INSERT INTO ");
    reveal_strlit(");\n                 RETURN OLD;\n             END IF;\n             RETURN NULL;\n         END;\n         $$");
    reveal_strlit("()\n         RETURNS trigger LANGUAGE plpgsql AS $$\n         BEGIN\n             IF TG_OP = 'INSERT' THEN\n                 INSERT INTO ");
    let t = trigger_fn_sql(
        schema,
        oid,
        pk_decl,
        new_names,
        old_names,
        new_pk,
        old_pk,
        new_vals,
        old_vals,
    );
    let f0 = "IF TG_OP = 'INSERT' THEN\n                 INSERT INTO "@ + schema + ".changes_"@
        + oid + "\n                     (lsn, action"@ + pk_decl + new_names
        + ")\n                 VALUES (pg_current_wal_lsn(), 'I'\n                         "@
        + new_pk + new_vals + ");"@;
    let k0 = 124int + schema.len() + oid.len();
    assert(t.subrange(k0, k0 + f0.len()) =~= f0);
    assert(text::occurs_at(t, f0, k0));
    let f1 = "ELSIF TG_OP = 'UPDATE' THEN\n                 INSERT INTO "@ + schema + ".changes_"@
        + oid + "\n                     (lsn, action"@ + pk_decl + new_names + old_names
        + ")\n                 VALUES (pg_current_wal_lsn(), 'U'\n                         "@
        + new_pk + new_vals + old_vals + ");"@;
    let k1 = 344int + schema.len() + oid.len() + schema.len() + oid.len() + pk_decl.len()
        + new_names.len() + new_pk.len() + new_vals.len();
    assert(t.subrange(k1, k1 + f1.len()) =~= f1);
    assert(text::occurs_at(t, f1, k1));
    let f2 = "ELSIF TG_OP = 'DELETE' THEN\n                 INSERT INTO "@ + schema + ".changes_"@
        + oid + "\n                     (lsn, action"@ + pk_decl + old_names
        + ")\n                 VALUES (pg_current_wal_lsn(), 'D'\n                         "@
        + old_pk + old_vals + ");"@;
    let k2 = 567int + schema.len() + oid.len() + schema.len() + oid.len() + pk_decl.len()
        + new_names.len() + new_pk.len() + new_vals.len() + schema.len() + oid.len() + pk_decl.len()
        + new_names.len() + old_names.len() + new_pk.len() + new_vals.len() + old_vals.len();
    assert(t.subrange(k2, k2 + f2.len()) =~= f2);
    assert(text::occurs_at(t, f2, k2));
}

/// Every insert, update and delete of a row of the table calls the function of
/// the table.
pub proof fn every_change_of_a_row_calls_the_function(
    name: Seq<char>,
    table: Seq<char>,
    schema: Seq<char>,
    oid: Seq<char>,
)
    ensures
        ({
            let t = trigger_sql(name, table, schema, oid);
            &&& text::occurs(
                t,
                "AFTER INSERT OR UPDATE OR DELETE ON "@ + table
                    + "\n         FOR EACH ROW EXECUTE FUNCTION "@ + schema + ".pg_stream_cdc_fn_"@
                    + oid + "()"@,
            )
        }),
{
    reveal_strlit("()");
    reveal_strlit("CREATE TRIGGER ");
    reveal_strlit(".pg_stream_cdc_fn_");
    reveal_strlit("AFTER INSERT OR UPDATE OR DELETE ON ");
    reveal_strlit("\n         FOR EACH ROW EXECUTE FUNCTION ");
    reveal_strlit("\n         AFTER INSERT OR UPDATE OR DELETE ON ");
    let t = trigger_sql(name, table, schema, oid);
    let f0 = "AFTER INSERT OR UPDATE OR DELETE ON "@ + table
        + "\n         FOR EACH ROW EXECUTE FUNCTION "@ + schema + ".pg_stream_cdc_fn_"@ + oid
        + "()"@;
    let k0 = 25int + name.len();
    assert(t.subrange(k0, k0 + f0.len()) =~= f0);
    assert(text::occurs_at(t, f0, k0));
}

/// Changes up to the position, and no others, are deleted from the buffer of
/// the table.
pub proof fn changes_up_to_a_position_are_deleted(
    schema: Seq<char>,
    oid: Seq<char>,
)
    ensures
        ({
            let t = delete_changes_sql(schema, oid);
            &&& text::occurs(
                t,
                "DELETE FROM "@ + schema + ".changes_"@ + oid
                    + " WHERE lsn <= $1::pg_lsn RETURNING 1"@,
            )
        }),
{
    reveal_strlit(".changes_");
    reveal_strlit("DELETE FROM ");
    reveal_strlit("WITH deleted AS (DELETE FROM ");
    reveal_strlit(" WHERE lsn <= $1::pg_lsn RETURNING 1");
    reveal_strlit(" WHERE lsn <= $1::pg_lsn RETURNING 1) SELECT count(*)::bigint FROM deleted");
    let t = delete_changes_sql(schema, oid);
    let f0 = "DELETE FROM "@ + schema + ".changes_"@ + oid
        + " WHERE lsn <= $1::pg_lsn RETURNING 1"@;
    let k0 = 17int;
    assert(t.subrange(k0, k0 + f0.len()) =~= f0);
    assert(text::occurs_at(t, f0, k0));
}

/// The columns of the primary key come in the order of the key.
pub proof fn key_columns_come_in_the_order_of_the_key(
    oid: Seq<char>,
)
    ensures
        ({
            let t = pk_columns_sql(oid);
            &&& text::occurs(
                t,
                "c.conrelid = "@ + oid
                    + " AND c.contype = 'p' ORDER BY array_position(c.conkey, a.attnum)"@,
            )
        }),
{
    reveal_strlit("c.conrelid = ");
    reveal_strlit(" AND c.contype = 'p' ORDER BY array_position(c.conkey, a.attnum)");
    reveal_strlit("SELECT a.attname::text FROM pg_constraint c JOIN pg_attribute a ON a.attrelid = c.conrelid AND a.attnum = ANY(c.conkey) WHERE c.conrelid = ");
    let t = pk_columns_sql(oid);
    let f0 = "c.conrelid = "@ + oid
        + " AND c.contype = 'p' ORDER BY array_position(c.conkey, a.attnum)"@;
    let k0 = 126int;
    assert(t.subrange(k0, k0 + f0.len()) =~= f0);
    assert(text::occurs_at(t, f0, k0));
}

/// The columns that the table has come in their order, with their types.
pub proof fn columns_come_in_their_order(
    oid: Seq<char>,
)
    ensures
        ({
            let t = column_defs_sql(oid);
            &&& text::occurs(
                t,
                "format_type(a.atttypid, a.atttypmod) FROM pg_attribute a WHERE a.attrelid = "@
                    + oid + " AND a.attnum > 0 AND NOT a.attisdropped ORDER BY a.attnum"@,
            )
        }),
{
    reveal_strlit(" AND a.attnum > 0 AND NOT a.attisdropped ORDER BY a.attnum");
    reveal_strlit("format_type(a.atttypid, a.atttypmod) FROM pg_attribute a WHERE a.attrelid = ");
    reveal_strlit("SELECT a.attname::text, format_type(a.atttypid, a.atttypmod) FROM pg_attribute a WHERE a.attrelid = ");
    let t = column_defs_sql(oid);
    let f0 = "format_type(a.atttypid, a.atttypmod) FROM pg_attribute a WHERE a.attrelid = "@ + oid
        + " AND a.attnum > 0 AND NOT a.attisdropped ORDER BY a.attnum"@;
    let k0 = 24int;
    assert(t.subrange(k0, k0 + f0.len()) =~= f0);
    assert(text::occurs_at(t, f0, k0));
}

// ── What the statements say ────────────────────────────────────────────

/// A change buffer has a number for each change in the order of capture, the
/// position and the action of the change, and the columns for key and values.
pub proof fn a_buffer_has_a_number_a_position_and_an_action(
    schema: Seq<char>,
    oid: Seq<char>,
    pk_col: Seq<char>,
    typed_cols: Seq<char>,
)
    ensures
        ({
            let t = buffer_table_sql(schema, oid, pk_col, typed_cols);
            &&& text::occurs(
                t,
                "CREATE TABLE IF NOT EXISTS "@ + schema + ".changes_"@ + oid
                    + " (change_id   BIGSERIAL,lsn         PG_LSN NOT NULL,action      CHAR(1) NOT NULL"@
                    + pk_col + typed_cols + ")"@,
            )
        }),
{
    reveal_strlit(")");
    reveal_strlit(".changes_");
    reveal_strlit("CREATE TABLE IF NOT EXISTS ");
    reveal_strlit(" (change_id   BIGSERIAL,lsn         PG_LSN NOT NULL,action      CHAR(1) NOT NULL");
    let t = buffer_table_sql(schema, oid, pk_col, typed_cols);
    let f0 = "CREATE TABLE IF NOT EXISTS "@ + schema + ".changes_"@ + oid
        + " (change_id   BIGSERIAL,lsn         PG_LSN NOT NULL,action      CHAR(1) NOT NULL"@
        + pk_col + typed_cols + ")"@;
    let k0 = 0int;
    assert(t.subrange(k0, k0 + f0.len()) =~= f0);
    assert(text::occurs_at(t, f0, k0));
}

/// A buffer with a key hash is searched by position, key and number.
pub proof fn buffers_with_a_key_are_searched_by_position_and_key(
    schema: Seq<char>,
    oid: Seq<char>,
)
    ensures
        ({
            let t = keyed_index_sql(schema, oid);
            &&& text::occurs(
                t,
                "ON "@ + schema + ".changes_"@ + oid + " (lsn, pk_hash, change_id) "@,
            )
        }),
{
    reveal_strlit("ON ");
    reveal_strlit(".changes_");
    reveal_strlit("_lsn_pk_cid ON ");
    reveal_strlit(" (lsn, pk_hash, change_id) ");
    reveal_strlit("CREATE INDEX IF NOT EXISTS idx_changes_");
    reveal_strlit(" (lsn, pk_hash, change_id) INCLUDE (action)");
    let t = keyed_index_sql(schema, oid);
    let f0 = "ON "@ + schema + ".changes_"@ + oid + " (lsn, pk_hash, change_id) "@;
    let k0 = 51int + oid.len();
    assert(t.subrange(k0, k0 + f0.len()) =~= f0);
    assert(text::occurs_at(t, f0, k0));
}

/// A buffer without a key hash is searched by position.
pub proof fn buffers_without_a_key_are_searched_by_position(
    schema: Seq<char>,
    oid: Seq<char>,
)
    ensures
        ({
            let t = plain_index_sql(schema, oid);
            &&& text::occurs(
                t,
                "ON "@ + schema + ".changes_"@ + oid + " (lsn) "@,
            )
        }),
{
    reveal_strlit("ON ");
    reveal_strlit(" (lsn) ");
    reveal_strlit("_lsn ON ");
    reveal_strlit(".changes_");
    reveal_strlit(" (lsn) INCLUDE (action)");
    reveal_strlit("CREATE INDEX IF NOT EXISTS idx_changes_");
    let t = plain_index_sql(schema, oid);
    let f0 = "ON "@ + schema + ".changes_"@ + oid + " (lsn) "@;
    let k0 = 44int + oid.len();
    assert(t.subrange(k0, k0 + f0.len()) =~= f0);
    assert(text::occurs_at(t, f0, k0));
}

/// A column is added to the buffer with its type.
pub proof fn a_column_is_added_with_its_type(
    table: Seq<char>,
    column: Seq<char>,
    sql_type: Seq<char>,
)
    ensures
        ({
            let t = add_column_sql(table, column, sql_type);
            &&& text::occurs(
                t,
                "ALTER TABLE "@ + table + " ADD COLUMN IF NOT EXISTS \""@ + column + "\" "@
                    + sql_type,
            )
        }),
{
    reveal_strlit("\" ");
    reveal_strlit("ALTER TABLE ");
    reveal_strlit(" ADD COLUMN IF NOT EXISTS \"");
    let t = add_column_sql(table, column, sql_type);
    let f0 = "ALTER TABLE "@ + table + " ADD COLUMN IF NOT EXISTS \""@ + column + "\" "@ + sql_type;
    let k0 = 0int;
    assert(t.subrange(k0, k0 + f0.len()) =~= f0);
    assert(text::occurs_at(t, f0, k0));
}

/// The columns of a buffer are those it has and that were not dropped.
pub proof fn the_columns_of_a_buffer_are_those_it_has(
    table: Seq<char>,
)
    ensures
        ({
            let t = buffer_columns_sql(table);
            &&& text::occurs(
                t,
                "attname::text FROM pg_attribute WHERE attrelid = '"@ + table
                    + "'::regclass AND attnum > 0 AND NOT attisdropped"@,
            )
        }),
{
    reveal_strlit("'::regclass AND attnum > 0 AND NOT attisdropped");
    reveal_strlit("attname::text FROM pg_attribute WHERE attrelid = '");
    reveal_strlit("SELECT attname::text FROM pg_attribute WHERE attrelid = '");
    let t = buffer_columns_sql(table);
    let f0 = "attname::text FROM pg_attribute WHERE attrelid = '"@ + table
        + "'::regclass AND attnum > 0 AND NOT attisdropped"@;
    let k0 = 7int;
    assert(t.subrange(k0, k0 + f0.len()) =~= f0);
    assert(text::occurs_at(t, f0, k0));
}

/// Pending changes are counted in the buffer of the table.
pub proof fn pending_changes_are_counted_in_the_buffer(
    schema: Seq<char>,
    oid: Seq<char>,
)
    ensures
        ({
            let t = count_changes_sql(schema, oid);
            &&& text::occurs(
                t,
                "SELECT count(*)::bigint FROM "@ + schema + ".changes_"@ + oid,
            )
        }),
{
    reveal_strlit(".changes_");
    reveal_strlit("SELECT count(*)::bigint FROM ");
    let t = count_changes_sql(schema, oid);
    let f0 = "SELECT count(*)::bigint FROM "@ + schema + ".changes_"@ + oid;
    let k0 = 0int;
    assert(t.subrange(k0, k0 + f0.len()) =~= f0);
    assert(text::occurs_at(t, f0, k0));
}

/// A trigger is dropped by its name from its table.
pub proof fn the_trigger_is_dropped_from_its_table(
    name: Seq<char>,
    table: Seq<char>,
)
    ensures
        ({
            let t = drop_trigger_sql(name, table);
            &&& text::occurs(
                t,
                "DROP TRIGGER IF EXISTS "@ + name + " ON "@ + table,
            )
        }),
{
    reveal_strlit(" ON ");
    reveal_strlit("DROP TRIGGER IF EXISTS ");
    let t = drop_trigger_sql(name, table);
    let f0 = "DROP TRIGGER IF EXISTS "@ + name + " ON "@ + table;
    let k0 = 0int;
    assert(t.subrange(k0, k0 + f0.len()) =~= f0);
    assert(text::occurs_at(t, f0, k0));
}

/// The function of the table is dropped.
pub proof fn the_function_of_the_table_is_dropped(
    schema: Seq<char>,
    oid: Seq<char>,
)
    ensures
        ({
            let t = drop_fn_sql(schema, oid);
            &&& text::occurs(
                t,
                "DROP FUNCTION IF EXISTS "@ + schema + ".pg_stream_cdc_fn_"@ + oid + "() CASCADE"@,
            )
        }),
{
    reveal_strlit("() CASCADE");
    reveal_strlit(".pg_stream_cdc_fn_");
    reveal_strlit("DROP FUNCTION IF EXISTS ");
    let t = drop_fn_sql(schema, oid);
    let f0 = "DROP FUNCTION IF EXISTS "@ + schema + ".pg_stream_cdc_fn_"@ + oid + "() CASCADE"@;
    let k0 = 0int;
    assert(t.subrange(k0, k0 + f0.len()) =~= f0);
    assert(text::occurs_at(t, f0, k0));
}

/// A key of one column is hashed by itself.
pub proof fn a_key_of_one_column_is_hashed_by_itself(
    value: Seq<char>,
)
    ensures
        ({
            let t = hash_one_sql(value);
            &&& text::occurs(
                t,
                "pg_stream_hash("@ + value + ")"@,
            )
        }),
{
    reveal_strlit(")");
    reveal_strlit("pg_stream_hash(");
    reveal_strlit("pgstream.pg_stream_hash(");
    let t = hash_one_sql(value);
    let f0 = "pg_stream_hash("@ + value + ")"@;
    let k0 = 9int;
    assert(t.subrange(k0, k0 + f0.len()) =~= f0);
    assert(text::occurs_at(t, f0, k0));
}

/// A key of several columns is hashed as a list.
pub proof fn a_key_of_several_columns_is_hashed_as_a_list(
    values: Seq<char>,
)
    ensures
        ({
            let t = hash_many_sql(values);
            &&& text::occurs(
                t,
                "pg_stream_hash_multi(ARRAY["@ + values + "])"@,
            )
        }),
{
    reveal_strlit("])");
    reveal_strlit("pg_stream_hash_multi(ARRAY[");
    reveal_strlit("pgstream.pg_stream_hash_multi(ARRAY[");
    let t = hash_many_sql(values);
    let f0 = "pg_stream_hash_multi(ARRAY["@ + values + "])"@;
    let k0 = 9int;
    assert(t.subrange(k0, k0 + f0.len()) =~= f0);
    assert(text::occurs_at(t, f0, k0));
}

// ── What the rows are ──────────────────────────────────────────────────

/// A trigger has its name.
pub proof fn a_trigger_has_its_name(
    name: Seq<char>,
    table: Seq<char>,
    schema: Seq<char>,
    oid: Seq<char>,
)
    ensures
        ({
            let t = trigger_sql(name, table, schema, oid);
            &&& text::occurs(
                t,
                "CREATE TRIGGER "@ + name + "\n"@,
            )
        }),
{
    reveal_strlit("\n");
    reveal_strlit("()");
    reveal_strlit("CREATE TRIGGER ");
    reveal_strlit(".pg_stream_cdc_fn_");
    reveal_strlit("\n         FOR EACH ROW EXECUTE FUNCTION ");
    reveal_strlit("\n         AFTER INSERT OR UPDATE OR DELETE ON ");
    let t = trigger_sql(name, table, schema, oid);
    let f0 = "CREATE TRIGGER "@ + name + "\n"@;
    let k0 = 0int;
    assert(t.subrange(k0, k0 + f0.len()) =~= f0);
    assert(text::occurs_at(t, f0, k0));
}

/// The function is that of the table.
pub proof fn the_function_is_that_of_the_table(
    schema: Seq<char>,
    oid: Seq<char>,
    pk_decl: Seq<char>,
    new_names: Seq<char>,
    old_names: Seq<char>,
    new_pk: Seq<char>,
    old_pk: Seq<char>,
    new_vals: Seq<char>,
    old_vals: Seq<char>,
)
    ensures
        ({
            let t = trigger_fn_sql(
                schema,
                oid,
                pk_decl,
                new_names,
                old_names,
                new_pk,
                old_pk,
                new_vals,
                old_vals,
            );
            &&& text::occurs(
                t,
                "CREATE OR REPLACE FUNCTION "@ + schema + ".pg_stream_cdc_fn_"@ + oid + "()"@,
            )
        }),
{
    reveal_strlit("()");
    reveal_strlit(".changes_");
    reveal_strlit(".pg_stream_cdc_fn_");
    reveal_strlit("CREATE OR REPLACE FUNCTION ");
    reveal_strlit("\n                     (lsn, action");
    reveal_strlit(")\n                 VALUES (pg_current_wal_lsn(), 'D'\n                         ");
    reveal_strlit(")\n                 VALUES (pg_current_wal_lsn(), 'I'\n                         ");
    reveal_strlit(")\n                 VALUES (pg_current_wal_lsn(), 'U'\n                         ");
    reveal_strlit(");\n                 RETURN NEW;\n             ELSIF TG_OP = 'DELETE' THEN\n                 INSERT INTO ");
    reveal_strlit(");\n                 RETURN NEW;\n             ELSIF TG_OP = 'UPDATE' THEN\n                 INSERT INTO ");
    reveal_strlit(");\n                 RETURN OLD;\n             END IF;\n             RETURN NULL;\n         END;\n         $$");
    reveal_strlit("()\n         RETURNS trigger LANGUAGE plpgsql AS $$\n         BEGIN\n             IF TG_OP = 'INSERT' THEN\n                 INSERT INTO ");
    let t = trigger_fn_sql(
        schema,
        oid,
        pk_decl,
        new_names,
        old_names,
        new_pk,
        old_pk,
        new_vals,
        old_vals,
    );
    let f0 = "CREATE OR REPLACE FUNCTION "@ + schema + ".pg_stream_cdc_fn_"@ + oid + "()"@;
    let k0 = 0int;
    assert(t.subrange(k0, k0 + f0.len()) =~= f0);
    assert(text::occurs_at(t, f0, k0));
}

/// The columns of the key are those of the constraint, by name.
pub proof fn key_columns_are_those_of_the_constraint(
    oid: Seq<char>,
)
    ensures
        ({
            let t = pk_columns_sql(oid);
            &&& text::occurs(
                t,
                "SELECT a.attname::text FROM pg_constraint c JOIN pg_attribute a ON a.attrelid = c.conrelid AND a.attnum = ANY(c.conkey) WHERE"@,
            )
        }),
{
    reveal_strlit(" AND c.contype = 'p' ORDER BY array_position(c.conkey, a.attnum)");
    reveal_strlit("SELECT a.attname::text FROM pg_constraint c JOIN pg_attribute a ON a.attrelid = c.conrelid AND a.attnum = ANY(c.conkey) WHERE");
    reveal_strlit("SELECT a.attname::text FROM pg_constraint c JOIN pg_attribute a ON a.attrelid = c.conrelid AND a.attnum = ANY(c.conkey) WHERE c.conrelid = ");
    let t = pk_columns_sql(oid);
    let f0 = "SELECT a.attname::text FROM pg_constraint c JOIN pg_attribute a ON a.attrelid = c.conrelid AND a.attnum = ANY(c.conkey) WHERE"@;
    let k0 = 0int;
    assert(t.subrange(k0, k0 + f0.len()) =~= f0);
    assert(text::occurs_at(t, f0, k0));
}

/// Columns are told by their name and type.
pub proof fn columns_are_told_by_name_and_type(
    oid: Seq<char>,
)
    ensures
        ({
            let t = column_defs_sql(oid);
            &&& text::occurs(
                t,
                "SELECT a.attname::text, format_type(a.atttypid, a.atttypmod)"@,
            )
        }),
{
    reveal_strlit(" AND a.attnum > 0 AND NOT a.attisdropped ORDER BY a.attnum");
    reveal_strlit("SELECT a.attname::text, format_type(a.atttypid, a.atttypmod)");
    reveal_strlit("SELECT a.attname::text, format_type(a.atttypid, a.atttypmod) FROM pg_attribute a WHERE a.attrelid = ");
    let t = column_defs_sql(oid);
    let f0 = "SELECT a.attname::text, format_type(a.atttypid, a.atttypmod)"@;
    let k0 = 0int;
    assert(t.subrange(k0, k0 + f0.len()) =~= f0);
    assert(text::occurs_at(t, f0, k0));
}

/// The changes that were deleted are counted.
pub proof fn deleted_changes_are_counted(
    schema: Seq<char>,
    oid: Seq<char>,
)
    ensures
        ({
            let t = delete_changes_sql(schema, oid);
            &&& text::occurs(
                t,
                "SELECT count(*)::bigint FROM deleted"@,
            )
        }),
{
    reveal_strlit(".changes_");
    reveal_strlit("WITH deleted AS (DELETE FROM ");
    reveal_strlit("SELECT count(*)::bigint FROM deleted");
    reveal_strlit(" WHERE lsn <= $1::pg_lsn RETURNING 1) SELECT count(*)::bigint FROM deleted");
    let t = delete_changes_sql(schema, oid);
    let f0 = "SELECT count(*)::bigint FROM deleted"@;
    let k0 = 76int + schema.len() + oid.len();
    assert(t.subrange(k0, k0 + f0.len()) =~= f0);
    assert(text::occurs_at(t, f0, k0));
}

} // verus!
