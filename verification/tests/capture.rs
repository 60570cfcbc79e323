//! Change capture: the statements and decisions around triggers and buffers.

use pg_trickle::cdc::{
    build_pk_hash_trigger_exprs, buffer_table_name, consume_slot_changes, count_or_zero,
    create_change_buffer_table, create_change_trigger, delete_consumed_changes,
    drop_change_trigger, existing_columns_sql, get_slot_positions, lsn_or_start,
    rebuild_cdc_trigger_function, resolve_pk_columns, resolve_source_column_defs,
    source_column_defs_sql, source_pk_columns_sql, statement_failed, sync_change_buffer_columns,
    trigger_name_for_source,
};

fn pair(name: &str, sql_type: &str) -> (String, String) {
    (name.to_string(), sql_type.to_string())
}

const KEYED_FUNCTION: &str = "CREATE OR REPLACE FUNCTION chg.pg_stream_cdc_fn_77()
         RETURNS trigger LANGUAGE plpgsql AS $$
         BEGIN
             IF TG_OP = 'INSERT' THEN
                 INSERT INTO chg.changes_77
                     (lsn, action, pk_hash, \"new_id\", \"new_a\"\"b\")
                 VALUES (pg_current_wal_lsn(), 'I'
                         , pgstream.pg_stream_hash(NEW.\"id\"::text), NEW.\"id\", NEW.\"a\"\"b\");
                 RETURN NEW;
             ELSIF TG_OP = 'UPDATE' THEN
                 INSERT INTO chg.changes_77
                     (lsn, action, pk_hash, \"new_id\", \"new_a\"\"b\", \"old_id\", \"old_a\"\"b\")
                 VALUES (pg_current_wal_lsn(), 'U'
                         , pgstream.pg_stream_hash(NEW.\"id\"::text), NEW.\"id\", NEW.\"a\"\"b\", OLD.\"id\", OLD.\"a\"\"b\");
                 RETURN NEW;
             ELSIF TG_OP = 'DELETE' THEN
                 INSERT INTO chg.changes_77
                     (lsn, action, pk_hash, \"old_id\", \"old_a\"\"b\")
                 VALUES (pg_current_wal_lsn(), 'D'
                         , pgstream.pg_stream_hash(OLD.\"id\"::text), OLD.\"id\", OLD.\"a\"\"b\");
                 RETURN OLD;
             END IF;
             RETURN NULL;
         END;
         $$";

const PLAIN_FUNCTION: &str = "CREATE OR REPLACE FUNCTION chg.pg_stream_cdc_fn_77()
         RETURNS trigger LANGUAGE plpgsql AS $$
         BEGIN
             IF TG_OP = 'INSERT' THEN
                 INSERT INTO chg.changes_77
                     (lsn, action, \"new_v\")
                 VALUES (pg_current_wal_lsn(), 'I'
                         , NEW.\"v\");
                 RETURN NEW;
             ELSIF TG_OP = 'UPDATE' THEN
                 INSERT INTO chg.changes_77
                     (lsn, action, \"new_v\", \"old_v\")
                 VALUES (pg_current_wal_lsn(), 'U'
                         , NEW.\"v\", OLD.\"v\");
                 RETURN NEW;
             ELSIF TG_OP = 'DELETE' THEN
                 INSERT INTO chg.changes_77
                     (lsn, action, \"old_v\")
                 VALUES (pg_current_wal_lsn(), 'D'
                         , OLD.\"v\");
                 RETURN OLD;
             END IF;
             RETURN NULL;
         END;
         $$";

#[test]
fn trigger_of_a_keyed_table() {
    let t = create_change_trigger(
        77,
        Some("public.orders".to_string()),
        "chg",
        &vec!["id".to_string()],
        &vec![pair("id", "integer"), pair("a\"b", "text")],
    )
    .unwrap();
    assert_eq!(t.name, "pg_stream_cdc_77");
    assert_eq!(t.function_sql, KEYED_FUNCTION);
    assert_eq!(
        t.trigger_sql,
        "CREATE TRIGGER pg_stream_cdc_77
         AFTER INSERT OR UPDATE OR DELETE ON public.orders
         FOR EACH ROW EXECUTE FUNCTION chg.pg_stream_cdc_fn_77()"
    );
}

#[test]
fn trigger_of_a_table_without_key() {
    let t = create_change_trigger(
        77,
        Some("t".to_string()),
        "chg",
        &Vec::new(),
        &vec![pair("v", "text")],
    )
    .unwrap();
    assert_eq!(t.function_sql, PLAIN_FUNCTION);
}

#[test]
fn no_trigger_without_table() {
    let e = create_change_trigger(77, None, "chg", &Vec::new(), &Vec::new()).unwrap_err();
    assert_eq!(e.to_string(), "stream table not found: Table with OID 77 not found");
}

#[test]
fn rebuilt_function_is_the_created_one() {
    let sql = rebuild_cdc_trigger_function(
        77,
        "chg",
        &vec!["id".to_string()],
        &vec![pair("id", "integer"), pair("a\"b", "text")],
    );
    assert_eq!(sql.as_deref(), Some(KEYED_FUNCTION));
}

#[test]
fn nothing_to_rebuild_without_columns() {
    assert!(rebuild_cdc_trigger_function(77, "chg", &vec!["id".to_string()], &Vec::new()).is_none());
}

#[test]
fn dropping_a_trigger() {
    assert_eq!(
        drop_change_trigger(5, Some("s.t".to_string()), "chg"),
        vec![
            "DROP TRIGGER IF EXISTS pg_stream_cdc_5 ON s.t".to_string(),
            "DROP FUNCTION IF EXISTS chg.pg_stream_cdc_fn_5() CASCADE".to_string(),
        ]
    );
    assert_eq!(
        drop_change_trigger(5, None, "chg"),
        vec!["DROP FUNCTION IF EXISTS chg.pg_stream_cdc_fn_5() CASCADE".to_string()]
    );
}

#[test]
fn buffer_of_a_keyed_table() {
    let (table, index) = create_change_buffer_table(9, "chg", true, &vec![pair("id", "bigint")]);
    assert_eq!(
        table,
        "CREATE TABLE IF NOT EXISTS chg.changes_9 (change_id   BIGSERIAL,lsn         PG_LSN NOT NULL,action      CHAR(1) NOT NULL,pk_hash BIGINT,\"new_id\" bigint,\"old_id\" bigint)"
    );
    assert_eq!(
        index,
        "CREATE INDEX IF NOT EXISTS idx_changes_9_lsn_pk_cid ON chg.changes_9 (lsn, pk_hash, change_id) INCLUDE (action)"
    );
}

#[test]
fn buffer_of_a_table_without_key() {
    let (table, index) = create_change_buffer_table(9, "chg", false, &Vec::new());
    assert_eq!(
        table,
        "CREATE TABLE IF NOT EXISTS chg.changes_9 (change_id   BIGSERIAL,lsn         PG_LSN NOT NULL,action      CHAR(1) NOT NULL)"
    );
    assert_eq!(
        index,
        "CREATE INDEX IF NOT EXISTS idx_changes_9_lsn ON chg.changes_9 (lsn) INCLUDE (action)"
    );
}

#[test]
fn missing_columns_are_added() {
    let existing = vec!["lsn".to_string(), "new_id".to_string()];
    let missing = sync_change_buffer_columns(
        9,
        "chg",
        &existing,
        &vec![pair("id", "bigint"), pair("v", "text"), pair("a\"b", "text")],
    );
    let names: Vec<&str> = missing.iter().map(|m| m.column.as_str()).collect();
    assert_eq!(names, vec!["old_id", "new_v", "old_v", "new_a\"b", "old_a\"b"]);
    assert_eq!(
        missing[3].sql,
        "ALTER TABLE chg.changes_9 ADD COLUMN IF NOT EXISTS \"new_a\"\"b\" text"
    );
    assert_eq!(
        missing[1].sql,
        "ALTER TABLE chg.changes_9 ADD COLUMN IF NOT EXISTS \"new_v\" text"
    );
}

#[test]
fn synced_buffer_lacks_nothing() {
    let columns = vec![pair("id", "bigint"), pair("v", "text")];
    let mut existing: Vec<String> = Vec::new();
    for m in sync_change_buffer_columns(9, "chg", &existing.clone(), &columns) {
        existing.push(m.column);
    }
    assert_eq!(existing, vec!["new_id", "old_id", "new_v", "old_v"]);
    assert!(sync_change_buffer_columns(9, "chg", &existing, &columns).is_empty());
}

#[test]
fn key_hashes_of_old_and_new_rows() {
    let (new, old) = build_pk_hash_trigger_exprs(&vec!["a".to_string(), "b".to_string()]);
    assert_eq!(
        new,
        "pgstream.pg_stream_hash_multi(ARRAY[NEW.\"a\"::text, NEW.\"b\"::text])"
    );
    assert_eq!(
        old,
        "pgstream.pg_stream_hash_multi(ARRAY[OLD.\"a\"::text, OLD.\"b\"::text])"
    );
}

#[test]
fn catalog_queries() {
    assert_eq!(
        existing_columns_sql(9, "chg"),
        "SELECT attname::text FROM pg_attribute WHERE attrelid = 'chg.changes_9'::regclass AND attnum > 0 AND NOT attisdropped"
    );
    assert_eq!(
        source_column_defs_sql(9),
        "SELECT a.attname::text, format_type(a.atttypid, a.atttypmod) FROM pg_attribute a WHERE a.attrelid = 9 AND a.attnum > 0 AND NOT a.attisdropped ORDER BY a.attnum"
    );
    assert_eq!(
        source_pk_columns_sql(9),
        "SELECT a.attname::text FROM pg_constraint c JOIN pg_attribute a ON a.attrelid = c.conrelid AND a.attnum = ANY(c.conkey) WHERE c.conrelid = 9 AND c.contype = 'p' ORDER BY array_position(c.conkey, a.attnum)"
    );
    assert_eq!(
        consume_slot_changes(9, "chg"),
        "SELECT count(*)::bigint FROM chg.changes_9"
    );
    assert_eq!(
        delete_consumed_changes(9, "chg"),
        "WITH deleted AS (DELETE FROM chg.changes_9 WHERE lsn <= $1::pg_lsn RETURNING 1) SELECT count(*)::bigint FROM deleted"
    );
}

#[test]
fn absent_cells_have_defaults() {
    let defs = resolve_source_column_defs(&vec![
        (Some("id".to_string()), Some("integer".to_string())),
        (None, None),
    ]);
    assert_eq!(defs, vec![pair("id", "integer"), pair("", "text")]);
    assert_eq!(
        resolve_pk_columns(&vec![Some("id".to_string()), None]),
        vec!["id".to_string(), String::new()]
    );
    assert_eq!(lsn_or_start(&None), "0/0");
    assert_eq!(lsn_or_start(&Some("1/AB".to_string())), "1/AB");
    assert_eq!(count_or_zero(None), 0);
    assert_eq!(count_or_zero(Some(12)), 12);
}

#[test]
fn every_source_gets_the_current_position() {
    let positions = get_slot_positions(&vec![3, 5, 3], "0/1F");
    let get = |oid: u32| positions.iter().rev().find(|p| p.0 == oid).map(|p| p.1.as_str());
    assert_eq!(get(3), Some("0/1F"));
    assert_eq!(get(5), Some("0/1F"));
    assert_eq!(get(4), None);
}

#[test]
fn names_carry_the_table() {
    assert_eq!(trigger_name_for_source(4294967295), "pg_stream_cdc_4294967295");
    assert_ne!(trigger_name_for_source(1), trigger_name_for_source(11));
    assert_eq!(buffer_table_name("chg", 10), "chg.changes_10");
    assert_ne!(buffer_table_name("chg", 1), buffer_table_name("chg", 10));
}

#[test]
fn failed_statement() {
    assert_eq!(
        statement_failed("Failed to create change buffer table", "boom").to_string(),
        "SPI error: Failed to create change buffer table: boom"
    );
}
