//! Tests of `scan`.

use pg_trickle::dvm::diff::{DiffContext, Frontier};
use pg_trickle::dvm::operators::scan::{build_hash_expr, diff_scan, find_pk_columns};
use pg_trickle::dvm::parser::{Column, OpTree};

fn test_ctx() -> DiffContext {
    DiffContext::new(Frontier::new(), Frontier::new())
}

fn col(name: &str) -> Column {
    Column { name: name.to_string(), type_oid: 23, is_nullable: true }
}

fn col_not_null(name: &str) -> Column {
    Column { name: name.to_string(), type_oid: 23, is_nullable: false }
}

fn scan(oid: u32, table: &str, schema: &str, alias: &str, cols: &[&str]) -> OpTree {
    OpTree::Scan {
        table_oid: oid,
        table_name: table.to_string(),
        schema: schema.to_string(),
        columns: cols.iter().map(|c| col(c)).collect(),
        pk_columns: vec![],
        alias: alias.to_string(),
    }
}

fn scan_not_null(oid: u32, table: &str, schema: &str, alias: &str, cols: &[&str]) -> OpTree {
    OpTree::Scan {
        table_oid: oid,
        table_name: table.to_string(),
        schema: schema.to_string(),
        columns: cols.iter().map(|c| col_not_null(c)).collect(),
        pk_columns: vec![],
        alias: alias.to_string(),
    }
}

fn scan_with_pk(
    oid: u32,
    table: &str,
    schema: &str,
    alias: &str,
    cols: &[&str],
    pk: &[&str],
) -> OpTree {
    OpTree::Scan {
        table_oid: oid,
        table_name: table.to_string(),
        schema: schema.to_string(),
        columns: cols.iter().map(|c| col(c)).collect(),
        pk_columns: pk.iter().map(|c| c.to_string()).collect(),
        alias: alias.to_string(),
    }
}

fn assert_sql_contains(sql: &str, fragment: &str) {
    assert!(sql.contains(fragment), "expected SQL to contain {fragment:?}\nSQL was:\n{sql}");
}

// ── diff_scan basic ─────────────────────────────────────────────

#[test]
fn test_diff_scan_basic_columns() {
    let mut ctx = test_ctx();
    let tree = scan(100, "orders", "public", "o", &["id", "amount", "region"]);
    let result = diff_scan(&mut ctx, &tree).unwrap();

    assert_eq!(result.columns, vec!["id", "amount", "region"]);
    assert!(!result.cte_name.is_empty());
}

#[test]
fn test_diff_scan_generates_change_table_ref() {
    let mut ctx = test_ctx();
    let tree = scan(42, "orders", "public", "o", &["id", "amount"]);
    let result = diff_scan(&mut ctx, &tree).unwrap();
    let sql = ctx.build_with_query(&result.cte_name);

    assert_sql_contains(&sql, "\"pgtrickle_changes\".changes_42");
}

#[test]
fn test_diff_scan_lsn_filter() {
    let mut ctx = test_ctx();
    let tree = scan(100, "orders", "public", "o", &["id"]);
    let result = diff_scan(&mut ctx, &tree).unwrap();
    let sql = ctx.build_with_query(&result.cte_name);

    // Default frontiers produce "0/0" LSNs
    assert_sql_contains(&sql, "c.lsn > '0/0'::pg_lsn");
    assert_sql_contains(&sql, "c.lsn <= '0/0'::pg_lsn");
}

#[test]
fn test_diff_scan_placeholder_mode() {
    let mut ctx = test_ctx().with_placeholders();
    let tree = scan(55, "items", "public", "i", &["id", "name"]);
    let result = diff_scan(&mut ctx, &tree).unwrap();
    let sql = ctx.build_with_query(&result.cte_name);

    assert_sql_contains(&sql, "__PGS_PREV_LSN_55__");
    assert_sql_contains(&sql, "__PGS_NEW_LSN_55__");
}

#[test]
fn test_diff_scan_with_pk_columns() {
    let mut ctx = test_ctx();
    let tree = scan_with_pk(100, "orders", "public", "o", &["id", "amount"], &["id"]);
    let result = diff_scan(&mut ctx, &tree).unwrap();
    let sql = ctx.build_with_query(&result.cte_name);

    // With PK columns, should use pre-computed pk_hash
    assert_sql_contains(&sql, "c.pk_hash");
}

#[test]
fn test_diff_scan_without_pk_fallback() {
    let mut ctx = test_ctx();
    // S10: Even tables without PK now use c.pk_hash (the CDC trigger computes
    // an all-column content hash, stored in the change buffer's pk_hash column).
    let tree = scan_not_null(100, "orders", "public", "o", &["id", "amount"]);
    let result = diff_scan(&mut ctx, &tree).unwrap();
    let sql = ctx.build_with_query(&result.cte_name);

    // Should always use pre-computed c.pk_hash (keyless or not).
    assert_sql_contains(&sql, "c.pk_hash");
}

#[test]
fn test_diff_scan_typed_column_refs() {
    let mut ctx = test_ctx();
    let tree = scan(100, "orders", "public", "o", &["id", "amount"]);
    let result = diff_scan(&mut ctx, &tree).unwrap();
    let sql = ctx.build_with_query(&result.cte_name);

    // Should reference typed columns
    assert_sql_contains(&sql, "c.\"new_id\"");
    assert_sql_contains(&sql, "c.\"old_id\"");
    assert_sql_contains(&sql, "c.\"new_amount\"");
    assert_sql_contains(&sql, "c.\"old_amount\"");
}

#[test]
fn test_diff_scan_delete_and_insert_branches() {
    let mut ctx = test_ctx();
    let tree = scan(100, "orders", "public", "o", &["id", "amount"]);
    let result = diff_scan(&mut ctx, &tree).unwrap();
    let sql = ctx.build_with_query(&result.cte_name);

    // Should have DELETE and INSERT event branches
    assert_sql_contains(&sql, "'D'::TEXT AS __pgt_action");
    assert_sql_contains(&sql, "'I'::TEXT AS __pgt_action");
}

#[test]
fn test_diff_scan_merge_safe_dedup() {
    let mut ctx = test_ctx();
    ctx.merge_safe_dedup = true;
    let tree = scan(100, "orders", "public", "o", &["id", "amount"]);
    let result = diff_scan(&mut ctx, &tree).unwrap();

    // Merge-safe dedup → is_deduplicated = true
    assert!(result.is_deduplicated);

    let sql = ctx.build_with_query(&result.cte_name);
    // Should have the "truly deleted" filter
    assert_sql_contains(&sql, "__last_action = 'D'");
}

#[test]
fn test_diff_scan_standard_mode_not_deduplicated() {
    let mut ctx = test_ctx();
    let tree = scan(100, "orders", "public", "o", &["id"]);
    let result = diff_scan(&mut ctx, &tree).unwrap();

    assert!(!result.is_deduplicated);
}

#[test]
fn test_diff_scan_error_on_non_scan_node() {
    let mut ctx = test_ctx();
    let tree = OpTree::Distinct {
        child: Box::new(scan(1, "t", "public", "t", &["id"])),
    };
    let result = diff_scan(&mut ctx, &tree);
    assert!(result.is_err());
}

#[test]
fn test_diff_scan_single_column() {
    let mut ctx = test_ctx();
    let tree = scan(1, "t", "public", "t", &["val"]);
    let result = diff_scan(&mut ctx, &tree).unwrap();
    assert_eq!(result.columns, vec!["val"]);
}

#[test]
fn test_diff_scan_many_columns() {
    let mut ctx = test_ctx();
    let cols: Vec<&str> = (0..20)
        .map(|i| Box::leak(format!("c{i}").into_boxed_str()) as &str)
        .collect();
    let tree = scan(1, "wide", "public", "w", &cols);
    let result = diff_scan(&mut ctx, &tree).unwrap();
    assert_eq!(result.columns.len(), 20);
}

// ── find_pk_columns tests ───────────────────────────────────────

#[test]
fn test_find_pk_columns_explicit() {
    let pk = vec!["id".to_string()];
    let cols = vec![col("id"), col("name")];
    assert_eq!(find_pk_columns(&pk, &cols), vec!["id"]);
}

#[test]
fn test_find_pk_columns_fallback_all_columns() {
    // S10: Keyless table — falls back to all columns (no non-nullable heuristic).
    let pk: Vec<String> = vec![];
    let cols = vec![col_not_null("id"), col("name")];
    assert_eq!(find_pk_columns(&pk, &cols), vec!["id", "name"]);
}

#[test]
fn test_find_pk_columns_fallback_all_nullable() {
    let pk: Vec<String> = vec![];
    let cols = vec![col("a"), col("b")];
    assert_eq!(find_pk_columns(&pk, &cols), vec!["a", "b"]);
}

// ── build_hash_expr tests ───────────────────────────────────────

#[test]
fn test_build_hash_expr_single() {
    let result = build_hash_expr(&["x".to_string()]);
    assert_eq!(result, "pgtrickle.pg_trickle_hash(x)");
}

#[test]
fn test_build_hash_expr_multiple() {
    let result = build_hash_expr(&["a".to_string(), "b".to_string()]);
    assert!(result.contains("pgtrickle.pg_trickle_hash_multi"));
    assert!(result.contains("(a)::TEXT"));
    assert!(result.contains("(b)::TEXT"));
}

#[test]
fn test_build_hash_expr_complex_expressions_parenthesized() {
    // Verify that complex expressions are wrapped in parens before ::TEXT
    // to prevent operator precedence issues (e.g. `a * b::TEXT` becoming
    // `a * (b::TEXT)` instead of the intended `(a * b)::TEXT`).
    let result = build_hash_expr(&[
        "l_extendedprice * (1 - l_discount)".to_string(),
        "volume".to_string(),
    ]);
    assert!(result.contains("(l_extendedprice * (1 - l_discount))::TEXT"));
    assert!(result.contains("(volume)::TEXT"));
}
