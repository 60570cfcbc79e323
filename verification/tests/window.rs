//! Tests of `window`.

use pg_trickle::dvm::diff::{DiffContext, Frontier};
use pg_trickle::dvm::operators::window::diff_window;
use pg_trickle::dvm::parser::{Column, Expr, OpTree, SortExpr, WindowExpr};

fn test_ctx() -> DiffContext {
    DiffContext::new(Frontier::new(), Frontier::new())
}

fn test_ctx_with_st(schema: &str, name: &str) -> DiffContext {
    test_ctx().with_st_name(schema, name)
}

fn col(name: &str) -> Column {
    Column { name: name.to_string(), type_oid: 23, is_nullable: true }
}

fn scan(oid: u32, table: &str, schema: &str, alias: &str, cols: &[&str]) -> OpTree {
    OpTree::Scan {
        table_oid: oid,
        table_name: table.to_string(),
        schema: schema.to_string(),
        columns: cols.iter().map(|c| col(c)).collect(),
        pk_columns: vec![],
        alias: alias.to_string(),
    }
}

fn colref(name: &str) -> Expr {
    Expr::ColumnRef { table_alias: None, column_name: name.to_string() }
}

fn window(
    window_exprs: Vec<WindowExpr>,
    partition_by: Vec<Expr>,
    pass_through: Vec<(Expr, String)>,
    child: OpTree,
) -> OpTree {
    OpTree::Window { window_exprs, partition_by, pass_through, child: Box::new(child) }
}

fn window_expr(
    func_name: &str,
    args: Vec<Expr>,
    partition_by: Vec<Expr>,
    order_by: Vec<SortExpr>,
    alias: &str,
) -> WindowExpr {
    WindowExpr {
        func_name: func_name.to_string(),
        args,
        partition_by,
        order_by,
        alias: alias.to_string(),
    }
}

fn sort_asc(expr: Expr) -> SortExpr {
    SortExpr { expr, ascending: true, nulls_first: false }
}

fn assert_sql_contains(sql: &str, fragment: &str) {
    assert!(sql.contains(fragment), "expected SQL to contain {fragment:?}\nSQL was:\n{sql}");
}

#[test]
fn test_diff_window_basic() {
    let mut ctx = test_ctx_with_st("public", "my_st");
    let child = scan(1, "orders", "public", "o", &["id", "region", "amount"]);
    let wf = window_expr(
        "ROW_NUMBER",
        vec![],
        vec![colref("region")],
        vec![sort_asc(colref("amount"))],
        "rn",
    );
    let tree = window(
        vec![wf],
        vec![colref("region")],
        vec![
            (colref("id"), "id".to_string()),
            (colref("region"), "region".to_string()),
            (colref("amount"), "amount".to_string()),
        ],
        child,
    );
    let result = diff_window(&mut ctx, &tree).unwrap();
    let sql = ctx.build_with_query(&result.cte_name);

    // Output should include pass-through + window alias
    assert!(result.columns.contains(&"id".to_string()));
    assert!(result.columns.contains(&"region".to_string()));
    assert!(result.columns.contains(&"amount".to_string()));
    assert!(result.columns.contains(&"rn".to_string()));

    // Should have the CTE chain: changed parts, old rows, input, recompute, final
    assert_sql_contains(&sql, "DELETE");
    assert_sql_contains(&sql, "INSERT");
}

#[test]
fn test_diff_window_changed_partition_detection() {
    let mut ctx = test_ctx_with_st("public", "st");
    let child = scan(1, "t", "public", "t", &["id", "grp", "val"]);
    let wf = window_expr(
        "SUM",
        vec![colref("val")],
        vec![colref("grp")],
        vec![],
        "running_sum",
    );
    let tree = window(
        vec![wf],
        vec![colref("grp")],
        vec![
            (colref("id"), "id".to_string()),
            (colref("grp"), "grp".to_string()),
            (colref("val"), "val".to_string()),
        ],
        child,
    );
    let result = diff_window(&mut ctx, &tree).unwrap();
    let sql = ctx.build_with_query(&result.cte_name);

    // Should detect changed partitions via DISTINCT partition keys
    assert_sql_contains(&sql, "DISTINCT");
}

#[test]
fn test_diff_window_unpartitioned() {
    let mut ctx = test_ctx_with_st("public", "st");
    let child = scan(1, "t", "public", "t", &["id", "val"]);
    let wf = window_expr(
        "ROW_NUMBER",
        vec![],
        vec![],
        vec![sort_asc(colref("val"))],
        "rn",
    );
    let tree = window(
        vec![wf],
        vec![], // no partition_by
        vec![
            (colref("id"), "id".to_string()),
            (colref("val"), "val".to_string()),
        ],
        child,
    );
    let result = diff_window(&mut ctx, &tree).unwrap();
    let sql = ctx.build_with_query(&result.cte_name);

    // Un-partitioned: any change → recompute all
    assert_sql_contains(&sql, "LIMIT 1");
}

#[test]
fn test_diff_window_not_deduplicated() {
    let mut ctx = test_ctx_with_st("public", "st");
    let child = scan(1, "t", "public", "t", &["id", "val"]);
    let wf = window_expr(
        "ROW_NUMBER",
        vec![],
        vec![],
        vec![sort_asc(colref("val"))],
        "rn",
    );
    let tree = window(
        vec![wf],
        vec![],
        vec![
            (colref("id"), "id".to_string()),
            (colref("val"), "val".to_string()),
        ],
        child,
    );
    let result = diff_window(&mut ctx, &tree).unwrap();
    assert!(!result.is_deduplicated);
}

#[test]
fn test_diff_window_error_on_non_window_node() {
    let mut ctx = test_ctx_with_st("public", "st");
    let tree = scan(1, "t", "public", "t", &["id"]);
    let result = diff_window(&mut ctx, &tree);
    assert!(result.is_err());
}
