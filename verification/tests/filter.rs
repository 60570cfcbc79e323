//! Tests of `filter`.

use pg_trickle::dvm::diff::{DiffContext, Frontier};
use pg_trickle::dvm::operators::filter::diff_filter;
use pg_trickle::dvm::parser::{Column, Expr, OpTree};

fn test_ctx() -> DiffContext {
    DiffContext::new(Frontier::new(), Frontier::new())
}

fn col(name: &str) -> Column {
    Column { name: name.to_string(), type_oid: 23, is_nullable: true }
}

fn scan(oid: u32, table: &str, schema: &str, alias: &str, cols: &[&str]) -> OpTree {
    OpTree::Scan {
        table_oid: oid,
        table_name: table.to_string(),
        schema: schema.to_string(),
        columns: cols.iter().map(|c| col(c)).collect(),
        pk_columns: vec![],
        alias: alias.to_string(),
    }
}

fn filter(predicate: Expr, child: OpTree) -> OpTree {
    OpTree::Filter { predicate, child: Box::new(child) }
}

fn binop(op: &str, left: Expr, right: Expr) -> Expr {
    Expr::BinaryOp { op: op.to_string(), left: Box::new(left), right: Box::new(right) }
}

fn colref(name: &str) -> Expr {
    Expr::ColumnRef { table_alias: None, column_name: name.to_string() }
}

fn lit(value: &str) -> Expr {
    Expr::Literal(value.to_string())
}

fn assert_sql_contains(sql: &str, fragment: &str) {
    assert!(sql.contains(fragment), "expected SQL to contain {fragment:?}\nSQL was:\n{sql}");
}

#[test]
fn test_diff_filter_basic() {
    let mut ctx = test_ctx();
    let child = scan(1, "t", "public", "t", &["id", "amount"]);
    let tree = filter(binop(">", colref("amount"), lit("100")), child);
    let result = diff_filter(&mut ctx, &tree).unwrap();
    let sql = ctx.build_with_query(&result.cte_name);

    assert_sql_contains(&sql, "amount");
    assert_sql_contains(&sql, "WHERE");
    assert_eq!(result.columns, vec!["id", "amount"]);
    // Filter no longer adds a dedup CTE — is_deduplicated inherits from child
    assert!(!result.is_deduplicated);
}

#[test]
fn test_diff_filter_preserves_row_id_and_action() {
    let mut ctx = test_ctx();
    let child = scan(1, "t", "public", "t", &["id"]);
    let tree = filter(binop(">", colref("id"), lit("0")), child);
    let result = diff_filter(&mut ctx, &tree).unwrap();
    let sql = ctx.build_with_query(&result.cte_name);

    assert_sql_contains(&sql, "__pgt_row_id");
    assert_sql_contains(&sql, "__pgt_action");
}

#[test]
fn test_diff_filter_preserves_dedup_flag() {
    let mut ctx = test_ctx();
    ctx.merge_safe_dedup = true;
    let child = scan(1, "t", "public", "t", &["id"]);
    let tree = filter(binop(">", colref("id"), lit("0")), child);
    let result = diff_filter(&mut ctx, &tree).unwrap();

    // should inherit is_deduplicated from child scan (already true)
    assert!(result.is_deduplicated);
}

#[test]
fn test_diff_filter_no_dedup_cte_for_non_dedup_child() {
    let mut ctx = test_ctx();
    // merge_safe_dedup = false (default) → scan produces D+I pairs
    let child = scan(1, "t", "public", "t", &["id", "amount"]);
    let tree = filter(binop(">", colref("amount"), lit("100")), child);
    let result = diff_filter(&mut ctx, &tree).unwrap();
    let sql = ctx.build_with_query(&result.cte_name);

    // Filter should NOT add its own dedup CTE — D+I pairs must be
    // preserved for aggregate operators above. The MERGE handles dedup.
    // (The scan CTE itself may contain DISTINCT ON, so we check the CTE name instead.)
    assert!(!sql.contains("filter_dedup"));
    assert!(!result.is_deduplicated);
    // CTE name should be plain filter, not filter_dedup
    assert!(result.cte_name.contains("filter"));
    assert!(!result.cte_name.contains("dedup"));
}

#[test]
fn test_diff_filter_inherits_dedup_when_child_already_dedup() {
    let mut ctx = test_ctx();
    ctx.merge_safe_dedup = true;
    let child = scan(1, "t", "public", "t", &["id", "amount"]);
    let tree = filter(binop(">", colref("amount"), lit("100")), child);
    let result = diff_filter(&mut ctx, &tree).unwrap();
    let _sql = ctx.build_with_query(&result.cte_name);

    // No dedup CTE should be added — child is already deduplicated
    assert!(!result.cte_name.contains("filter_dedup"));
    assert!(result.is_deduplicated);
    // CTE name should be plain filter, not filter_dedup
    assert!(result.cte_name.contains("filter"));
    assert!(!result.cte_name.contains("dedup"));
}

#[test]
fn test_diff_filter_contains_predicate_and_columns() {
    let mut ctx = test_ctx();
    let child = scan(1, "t", "public", "t", &["id", "name", "status"]);
    let tree = filter(binop("=", colref("status"), lit("'active'")), child);
    let result = diff_filter(&mut ctx, &tree).unwrap();
    let sql = ctx.build_with_query(&result.cte_name);

    // Filter CTE should contain the predicate
    assert_sql_contains(&sql, "status");
    assert_sql_contains(&sql, "WHERE");
    // Filter CTE should contain all columns
    assert_sql_contains(&sql, "\"id\"");
    assert_sql_contains(&sql, "\"name\"");
    assert_eq!(result.columns, vec!["id", "name", "status"]);
}

#[test]
fn test_diff_filter_error_on_non_filter_node() {
    let mut ctx = test_ctx();
    let tree = scan(1, "t", "public", "t", &["id"]);
    let result = diff_filter(&mut ctx, &tree);
    assert!(result.is_err());
}
