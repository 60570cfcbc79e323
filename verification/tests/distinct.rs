//! Tests of `distinct`.

use pg_trickle::dvm::diff::{DiffContext, Frontier};
use pg_trickle::dvm::operators::distinct::diff_distinct;
use pg_trickle::dvm::parser::{Column, OpTree};

fn test_ctx() -> DiffContext {
    DiffContext::new(Frontier::new(), Frontier::new())
}

fn test_ctx_with_st(schema: &str, name: &str) -> DiffContext {
    test_ctx().with_st_name(schema, name)
}

fn col(name: &str) -> Column {
    Column { name: name.to_string(), type_oid: 23, is_nullable: true }
}

fn scan(oid: u32, table: &str, schema: &str, alias: &str, cols: &[&str]) -> OpTree {
    OpTree::Scan {
        table_oid: oid,
        table_name: table.to_string(),
        schema: schema.to_string(),
        columns: cols.iter().map(|c| col(c)).collect(),
        pk_columns: vec![],
        alias: alias.to_string(),
    }
}

fn distinct(child: OpTree) -> OpTree {
    OpTree::Distinct { child: Box::new(child) }
}

fn assert_sql_contains(sql: &str, fragment: &str) {
    assert!(sql.contains(fragment), "expected SQL to contain {fragment:?}\nSQL was:\n{sql}");
}

#[test]
fn test_diff_distinct_basic() {
    let mut ctx = test_ctx_with_st("public", "my_st");
    let child = scan(1, "t", "public", "t", &["id", "name"]);
    let tree = distinct(child);
    let result = diff_distinct(&mut ctx, &tree).unwrap();
    let sql = ctx.build_with_query(&result.cte_name);

    // Output columns should include user cols + __pgs_count
    assert!(result.columns.contains(&"id".to_string()));
    assert!(result.columns.contains(&"name".to_string()));
    assert!(result.columns.contains(&"__pgs_count".to_string()));

    // Should contain the 3-CTE pattern: delta, merge, final
    assert_sql_contains(&sql, "__net_count");
    assert_sql_contains(&sql, "old_count");
    assert_sql_contains(&sql, "new_count");
}

#[test]
fn test_diff_distinct_hash_row_id() {
    let mut ctx = test_ctx_with_st("public", "st");
    let child = scan(1, "t", "public", "t", &["a", "b"]);
    let tree = distinct(child);
    let result = diff_distinct(&mut ctx, &tree).unwrap();
    let sql = ctx.build_with_query(&result.cte_name);

    // Row ID is hash of all columns
    assert_sql_contains(&sql, "pgstream.pg_stream_hash");
}

#[test]
fn test_diff_distinct_boundary_crossings() {
    let mut ctx = test_ctx_with_st("public", "st");
    let child = scan(1, "t", "public", "t", &["val"]);
    let tree = distinct(child);
    let result = diff_distinct(&mut ctx, &tree).unwrap();
    let sql = ctx.build_with_query(&result.cte_name);

    // Should emit INSERT when 0→N (appear)
    assert_sql_contains(&sql, "old_count <= 0 AND new_count > 0");
    // Should emit DELETE when N→0 (vanish)
    assert_sql_contains(&sql, "old_count > 0 AND new_count <= 0");
}

#[test]
fn test_diff_distinct_not_deduplicated() {
    let mut ctx = test_ctx_with_st("public", "st");
    let child = scan(1, "t", "public", "t", &["x"]);
    let tree = distinct(child);
    let result = diff_distinct(&mut ctx, &tree).unwrap();
    assert!(!result.is_deduplicated);
}

#[test]
fn test_diff_distinct_error_on_non_distinct_node() {
    let mut ctx = test_ctx_with_st("public", "st");
    let tree = scan(1, "t", "public", "t", &["id"]);
    let result = diff_distinct(&mut ctx, &tree);
    assert!(result.is_err());
}
