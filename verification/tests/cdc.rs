//! Tests of `cdc`.

use pg_trickle::cdc::{build_pk_hash_trigger_exprs, trigger_name_for_source};

// ── trigger_name_for_source tests ───────────────────────────────

#[test]
fn test_trigger_name_for_source_basic() {
    let oid = 12345u32;
    assert_eq!(trigger_name_for_source(oid), "pg_stream_cdc_12345");
}

#[test]
fn test_trigger_name_for_source_zero() {
    let oid = 0u32;
    assert_eq!(trigger_name_for_source(oid), "pg_stream_cdc_0");
}

#[test]
fn test_trigger_name_for_source_large_oid() {
    let oid = 4294967295u32; // u32::MAX
    assert_eq!(trigger_name_for_source(oid), "pg_stream_cdc_4294967295");
}

// ── build_pk_hash_trigger_exprs tests ────────────────────────────

#[test]
fn test_build_pk_hash_single_column() {
    let pk = vec!["id".to_string()];
    let (new_expr, old_expr) = build_pk_hash_trigger_exprs(&pk);
    assert_eq!(new_expr, r#"pgstream.pg_stream_hash(NEW."id"::text)"#);
    assert_eq!(old_expr, r#"pgstream.pg_stream_hash(OLD."id"::text)"#);
}

#[test]
fn cdc_test_build_pk_hash_composite_key() {
    let pk = vec!["a".to_string(), "b".to_string()];
    let (new_expr, old_expr) = build_pk_hash_trigger_exprs(&pk);
    assert!(new_expr.contains("pgstream.pg_stream_hash_multi"));
    assert!(new_expr.contains(r#"NEW."a"::text"#));
    assert!(new_expr.contains(r#"NEW."b"::text"#));
    assert!(old_expr.contains(r#"OLD."a"::text"#));
    assert!(old_expr.contains(r#"OLD."b"::text"#));
}

#[test]
fn test_build_pk_hash_empty_pk() {
    let pk: Vec<String> = vec![];
    let (new_expr, old_expr) = build_pk_hash_trigger_exprs(&pk);
    assert_eq!(new_expr, "0");
    assert_eq!(old_expr, "0");
}

#[test]
fn test_build_pk_hash_special_chars() {
    let pk = vec![r#"col"name"#.to_string()];
    let (new_expr, old_expr) = build_pk_hash_trigger_exprs(&pk);
    // The embedded quote should be doubled
    assert!(new_expr.contains(r#"col""name"#), "Got: {new_expr}");
    assert!(old_expr.contains(r#"col""name"#), "Got: {old_expr}");
}
