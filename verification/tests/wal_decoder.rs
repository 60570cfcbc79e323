//! Tests of `wal_decoder`.

use pg_trickle::text_map::TextMap;
use pg_trickle::wal_decoder::{build_pk_hash_from_values, parse_pgoutput_action, parse_pgoutput_columns, publication_name_for_source, quote_ident, slot_name_for_source};

// ── Naming convention tests ────────────────────────────────────

#[test]
fn test_slot_name_for_source() {
    let oid = 16384u32;
    assert_eq!(slot_name_for_source(oid), "pgstream_16384");
}

#[test]
fn test_slot_name_for_source_zero() {
    let oid = 0u32;
    assert_eq!(slot_name_for_source(oid), "pgstream_0");
}

#[test]
fn test_publication_name_for_source() {
    let oid = 16384u32;
    assert_eq!(publication_name_for_source(oid), "pgstream_cdc_16384");
}

#[test]
fn test_publication_name_for_source_large_oid() {
    let oid = 4294967295u32;
    assert_eq!(publication_name_for_source(oid), "pgstream_cdc_4294967295");
}

// ── quote_ident tests ──────────────────────────────────────────

#[test]
fn test_quote_ident_simple() {
    assert_eq!(quote_ident("my_slot"), "\"my_slot\"");
}

#[test]
fn test_quote_ident_with_quotes() {
    assert_eq!(quote_ident("my\"slot"), "\"my\"\"slot\"");
}

// ── parse_pgoutput_action tests ────────────────────────────────

#[test]
fn test_parse_pgoutput_insert() {
    let data = "table public.users: INSERT: id[integer]:1 name[text]:'Alice'";
    assert_eq!(parse_pgoutput_action(data), Some('I'));
}

#[test]
fn test_parse_pgoutput_update() {
    let data = "table public.users: UPDATE: id[integer]:1 name[text]:'Bob'";
    assert_eq!(parse_pgoutput_action(data), Some('U'));
}

#[test]
fn test_parse_pgoutput_delete() {
    let data = "table public.users: DELETE: id[integer]:1";
    assert_eq!(parse_pgoutput_action(data), Some('D'));
}

#[test]
fn test_parse_pgoutput_truncate() {
    let data = "table public.users: TRUNCATE: (no column data)";
    assert_eq!(parse_pgoutput_action(data), Some('T'));
}

#[test]
fn test_parse_pgoutput_begin() {
    let data = "BEGIN 12345";
    assert_eq!(parse_pgoutput_action(data), None);
}

#[test]
fn test_parse_pgoutput_commit() {
    let data = "COMMIT 12345";
    assert_eq!(parse_pgoutput_action(data), None);
}

// ── parse_pgoutput_columns tests ───────────────────────────────

#[test]
fn test_parse_pgoutput_columns_insert() {
    let data = "table public.users: INSERT: id[integer]:1 name[text]:'Alice'";
    let cols = parse_pgoutput_columns(data);
    assert_eq!(cols.get("id"), Some("1"));
    assert_eq!(cols.get("name"), Some("Alice"));
}

#[test]
fn test_parse_pgoutput_columns_empty() {
    let data = "BEGIN 12345";
    let cols = parse_pgoutput_columns(data);
    assert!(cols.is_empty());
}

// ── build_pk_hash_from_values tests ────────────────────────────

#[test]
fn test_build_pk_hash_empty() {
    let pk: Vec<String> = vec![];
    let parsed = TextMap::new();
    assert_eq!(build_pk_hash_from_values(&pk, &parsed), "0");
}

#[test]
fn test_build_pk_hash_single_key() {
    let pk = vec!["id".to_string()];
    let mut parsed = TextMap::new();
    parsed.insert("id".to_string(), "42".to_string());
    let result = build_pk_hash_from_values(&pk, &parsed);
    assert!(result.contains("pg_stream_hash"));
    assert!(result.contains("42"));
}

#[test]
fn wal_decoder_test_build_pk_hash_composite_key() {
    let pk = vec!["a".to_string(), "b".to_string()];
    let mut parsed = TextMap::new();
    parsed.insert("a".to_string(), "1".to_string());
    parsed.insert("b".to_string(), "2".to_string());
    let result = build_pk_hash_from_values(&pk, &parsed);
    assert!(result.contains("pg_stream_hash_multi"));
    assert!(result.contains("'1'"));
    assert!(result.contains("'2'"));
}

#[test]
fn test_build_pk_hash_missing_key() {
    let pk = vec!["id".to_string()];
    let parsed = TextMap::new(); // no "id" key
    assert_eq!(build_pk_hash_from_values(&pk, &parsed), "0");
}

#[test]
fn test_build_pk_hash_sql_injection_safe() {
    let pk = vec!["id".to_string()];
    let mut parsed = TextMap::new();
    parsed.insert("id".to_string(), "'; DROP TABLE users; --".to_string());
    let result = build_pk_hash_from_values(&pk, &parsed);
    // Value should have single quotes escaped
    assert!(result.contains("''"));
}
