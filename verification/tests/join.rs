//! Tests of `join`.

use pg_trickle::dvm::diff::{DiffContext, Frontier};
use pg_trickle::dvm::operators::join::{JoinSide, build_semijoin_subquery, diff_inner_join, extract_equijoin_keys};
use pg_trickle::dvm::operators::join_common::{build_base_table_key_exprs, build_snapshot_sql};
use pg_trickle::dvm::parser::{Column, Expr, OpTree};

fn test_ctx() -> DiffContext {
    DiffContext::new(Frontier::new(), Frontier::new())
}

fn col(name: &str) -> Column {
    Column { name: name.to_string(), type_oid: 23, is_nullable: true }
}

fn col_not_null(name: &str) -> Column {
    Column { name: name.to_string(), type_oid: 23, is_nullable: false }
}

fn scan(oid: u32, table: &str, schema: &str, alias: &str, cols: &[&str]) -> OpTree {
    OpTree::Scan {
        table_oid: oid,
        table_name: table.to_string(),
        schema: schema.to_string(),
        columns: cols.iter().map(|c| col(c)).collect(),
        pk_columns: vec![],
        alias: alias.to_string(),
    }
}

fn scan_not_null(oid: u32, table: &str, schema: &str, alias: &str, cols: &[&str]) -> OpTree {
    OpTree::Scan {
        table_oid: oid,
        table_name: table.to_string(),
        schema: schema.to_string(),
        columns: cols.iter().map(|c| col_not_null(c)).collect(),
        pk_columns: vec![],
        alias: alias.to_string(),
    }
}

fn binop(op: &str, left: Expr, right: Expr) -> Expr {
    Expr::BinaryOp { op: op.to_string(), left: Box::new(left), right: Box::new(right) }
}

fn qcolref(table: &str, name: &str) -> Expr {
    Expr::ColumnRef { table_alias: Some(table.to_string()), column_name: name.to_string() }
}

fn lit(value: &str) -> Expr {
    Expr::Literal(value.to_string())
}

fn eq_cond(lt: &str, lc: &str, rt: &str, rc: &str) -> Expr {
    binop("=", qcolref(lt, lc), qcolref(rt, rc))
}

fn inner_join(condition: Expr, left: OpTree, right: OpTree) -> OpTree {
    OpTree::InnerJoin { condition, left: Box::new(left), right: Box::new(right) }
}

fn natural_join_cond(left: &OpTree, right: &OpTree) -> Expr {
    let right_cols = right.output_columns();
    let mut cond: Option<Expr> = None;
    for c in left.output_columns() {
        if right_cols.contains(&c) {
            let eq = eq_cond(&left.alias(), &c, &right.alias(), &c);
            cond = Some(match cond {
                Some(prev) => binop("AND", prev, eq),
                None => eq,
            });
        }
    }
    cond.unwrap_or_else(|| lit("TRUE"))
}

fn assert_sql_contains(sql: &str, fragment: &str) {
    assert!(sql.contains(fragment), "expected SQL to contain {fragment:?}\nSQL was:\n{sql}");
}

fn assert_sql_not_contains(sql: &str, fragment: &str) {
    assert!(!sql.contains(fragment), "expected SQL not to contain {fragment:?}\nSQL was:\n{sql}");
}

// ── diff_inner_join tests ───────────────────────────────────────

#[test]
fn test_diff_inner_join_basic() {
    let mut ctx = test_ctx();
    let left = scan(1, "orders", "public", "o", &["id", "cust_id", "amount"]);
    let right = scan(2, "customers", "public", "c", &["id", "name"]);
    let cond = eq_cond("o", "cust_id", "c", "id");
    let tree = inner_join(cond, left, right);
    let result = diff_inner_join(&mut ctx, &tree).unwrap();

    // Output columns should be disambiguated with table prefixes
    assert!(result.columns.contains(&"o__id".to_string()));
    assert!(result.columns.contains(&"o__cust_id".to_string()));
    assert!(result.columns.contains(&"c__id".to_string()));
    assert!(result.columns.contains(&"c__name".to_string()));
}

#[test]
fn test_diff_inner_join_two_parts() {
    let mut ctx = test_ctx();
    let left = scan(1, "orders", "public", "o", &["id", "cust_id"]);
    let right = scan(2, "customers", "public", "c", &["id", "name"]);
    let cond = eq_cond("o", "cust_id", "c", "id");
    let tree = inner_join(cond, left, right);
    let result = diff_inner_join(&mut ctx, &tree).unwrap();
    let sql = ctx.build_with_query(&result.cte_name);

    // Should have two parts (delta_left JOIN right, pre-change_left JOIN delta_right)
    assert_sql_contains(&sql, "Part 1");
    assert_sql_contains(&sql, "Part 2");
    assert_sql_contains(&sql, "pre-change_left");
}

#[test]
fn test_diff_inner_join_pre_change_snapshot() {
    let mut ctx = test_ctx();
    let left = scan(1, "orders", "public", "o", &["id", "cust_id"]);
    let right = scan(2, "customers", "public", "c", &["id", "name"]);
    let cond = eq_cond("o", "cust_id", "c", "id");
    let tree = inner_join(cond, left, right);
    let result = diff_inner_join(&mut ctx, &tree).unwrap();
    let sql = ctx.build_with_query(&result.cte_name);

    // Part 2 should use L₀ = L_current EXCEPT ALL Δ_inserts UNION ALL Δ_deletes
    assert_sql_contains(&sql, "EXCEPT ALL");
    assert_sql_contains(&sql, "__pgs_action = 'I'");
    assert_sql_contains(&sql, "__pgs_action = 'D'");
}

#[test]
fn test_diff_inner_join_not_deduplicated() {
    let mut ctx = test_ctx();
    let left = scan(1, "a", "public", "a", &["id"]);
    let right = scan(2, "b", "public", "b", &["id"]);
    let cond = eq_cond("a", "id", "b", "id");
    let tree = inner_join(cond, left, right);
    let result = diff_inner_join(&mut ctx, &tree).unwrap();
    assert!(!result.is_deduplicated);
}

#[test]
fn test_diff_inner_join_error_on_non_join_node() {
    let mut ctx = test_ctx();
    let tree = scan(1, "t", "public", "t", &["id"]);
    let result = diff_inner_join(&mut ctx, &tree);
    assert!(result.is_err());
}

// ── extract_equijoin_keys tests ─────────────────────────────────

#[test]
fn test_extract_equijoin_keys_simple_equality() {
    let cond = eq_cond("o", "cust_id", "c", "id");
    let keys = extract_equijoin_keys(&cond);
    assert_eq!(keys.len(), 1);
}

#[test]
fn test_extract_equijoin_keys_and_condition() {
    let cond = binop(
        "AND",
        eq_cond("o", "a", "c", "b"),
        eq_cond("o", "x", "c", "y"),
    );
    let keys = extract_equijoin_keys(&cond);
    assert_eq!(keys.len(), 2);
}

#[test]
fn test_extract_equijoin_keys_non_equality_returns_empty() {
    let cond = binop(">", qcolref("o", "a"), qcolref("c", "b"));
    let keys = extract_equijoin_keys(&cond);
    assert!(keys.is_empty());
}

// ── build_semijoin_subquery tests ───────────────────────────────

#[test]
fn test_build_semijoin_subquery_right_side() {
    let keys = vec![("\"cust_id\"".to_string(), "\"id\"".to_string())];
    let result = build_semijoin_subquery(
        "\"public\".\"customers\"",
        &keys,
        "__pgs_cte_scan_1",
        JoinSide::Right,
    );
    assert!(result.contains("SELECT *"));
    assert!(result.contains("WHERE"));
    assert!(result.contains("IN (SELECT DISTINCT"));
}

#[test]
fn test_build_semijoin_subquery_no_keys_returns_plain() {
    let result = build_semijoin_subquery(
        "\"public\".\"customers\"",
        &[],
        "__pgs_cte_1",
        JoinSide::Right,
    );
    assert_eq!(result, "\"public\".\"customers\"");
}

// ── get_current_table_ref tests ─────────────────────────────────

#[test]
fn test_get_current_table_ref_scan() {
    let node = scan(1, "orders", "public", "o", &["id"]);
    assert_eq!(get_current_table_ref(&node), "\"public\".\"orders\"");
}

#[test]
fn test_get_current_table_ref_non_scan() {
    let node = OpTree::Distinct {
        child: Box::new(scan(1, "t", "public", "t", &["id"])),
    };
    assert_eq!(
        get_current_table_ref(&node),
        "/* unsupported snapshot for distinct */"
    );
}

// ── build_base_table_key_exprs tests ────────────────────────────

#[test]
fn test_build_base_table_key_exprs_non_nullable() {
    let node = scan_not_null(1, "orders", "public", "o", &["id", "name"]);
    let exprs = build_base_table_key_exprs(&node, "r");
    assert!(exprs.iter().any(|e| e.contains("r.\"id\"::TEXT")));
    assert!(exprs.iter().any(|e| e.contains("r.\"name\"::TEXT")));
}

#[test]
fn test_build_base_table_key_exprs_all_nullable_fallback() {
    let node = scan(1, "orders", "public", "o", &["id", "name"]);
    let exprs = build_base_table_key_exprs(&node, "r");
    // All nullable → uses all columns
    assert_eq!(exprs.len(), 2);
}

#[test]
fn test_build_base_table_key_exprs_non_scan_fallback() {
    let node = OpTree::Distinct {
        child: Box::new(scan(1, "t", "public", "t", &["id"])),
    };
    let exprs = build_base_table_key_exprs(&node, "x");
    assert_eq!(exprs, vec!["row_to_json(x)::text"]);
}

// ── Nested join tests ───────────────────────────────────────────

#[test]
fn test_diff_inner_join_nested_three_tables() {
    // (orders ⋈ customers) ⋈ products — 3-table nested inner join
    let o = scan(1, "orders", "public", "o", &["id", "cust_id", "prod_id"]);
    let c = scan(2, "customers", "public", "c", &["id", "name"]);
    let inner = inner_join(eq_cond("o", "cust_id", "c", "id"), o, c);
    let p = scan(3, "products", "public", "p", &["id", "price"]);
    let tree = inner_join(eq_cond("o", "prod_id", "p", "id"), inner, p);

    let mut ctx = test_ctx();
    let result = diff_inner_join(&mut ctx, &tree);
    assert!(
        result.is_ok(),
        "nested 3-table inner join should diff: {result:?}"
    );
    let dr = result.unwrap();
    let sql = ctx.build_with_query(&dr.cte_name);
    // Should produce two parts (left delta + right delta)
    assert_sql_contains(&sql, "UNION ALL");
}

#[test]
fn test_diff_inner_join_nested_skips_semijoin_optimization() {
    // When a child is a nested join, semi-join optimization is skipped
    let a = scan(1, "a", "public", "a", &["id"]);
    let b = scan(2, "b", "public", "b", &["id"]);
    let inner = inner_join(eq_cond("a", "id", "b", "id"), a, b);
    let c = scan(3, "c", "public", "c", &["id"]);
    let tree = inner_join(eq_cond("a", "id", "c", "id"), inner, c);

    let mut ctx = test_ctx();
    let result = diff_inner_join(&mut ctx, &tree).unwrap();
    let sql = ctx.build_with_query(&result.cte_name);
    // Semi-join would contain EXISTS; nested join should NOT have it
    assert_sql_not_contains(&sql, "EXISTS");
}

#[test]
fn test_diff_inner_join_nested_uses_snapshot_subquery() {
    // The nested child should appear as a subquery snapshot, not a plain table ref
    let a = scan(1, "a", "public", "a", &["id"]);
    let b = scan(2, "b", "public", "b", &["id"]);
    let inner = inner_join(eq_cond("a", "id", "b", "id"), a, b);
    let c = scan(3, "c", "public", "c", &["id"]);
    let tree = inner_join(eq_cond("a", "id", "c", "id"), inner, c);

    let mut ctx = test_ctx();
    let result = diff_inner_join(&mut ctx, &tree).unwrap();
    let sql = ctx.build_with_query(&result.cte_name);
    // The nested join snapshot should generate SQL with JOIN in the snapshot subquery
    assert_sql_contains(&sql, "JOIN");
}

// ── NATURAL JOIN diff tests ─────────────────────────────────────

#[test]
fn test_diff_inner_join_with_natural_condition() {
    // Simulate what the parser produces for NATURAL JOIN:
    // two tables sharing "id" column → equi-join on id
    let left = scan(1, "orders", "public", "o", &["id", "amount"]);
    let right = scan(2, "customers", "public", "c", &["id", "name"]);
    let cond = natural_join_cond(&left, &right);
    let tree = inner_join(cond, left, right);

    let mut ctx = test_ctx();
    let result = diff_inner_join(&mut ctx, &tree).unwrap();
    let sql = ctx.build_with_query(&result.cte_name);
    // Should produce valid SQL with two parts (delta_left JOIN right, left JOIN delta_right)
    assert_sql_contains(&sql, "Part 1");
    assert_sql_contains(&sql, "Part 2");
    assert_sql_contains(&sql, "UNION ALL");
}

#[test]
fn test_diff_inner_join_natural_multiple_common_cols() {
    // Two tables sharing both "id" and "region"
    let left = scan(1, "a", "public", "a", &["id", "region", "val"]);
    let right = scan(2, "b", "public", "b", &["id", "region", "score"]);
    let cond = natural_join_cond(&left, &right);
    let tree = inner_join(cond, left, right);

    let mut ctx = test_ctx();
    let result = diff_inner_join(&mut ctx, &tree).unwrap();
    // Should have disambiguated columns from both sides
    assert!(result.columns.contains(&"a__id".to_string()));
    assert!(result.columns.contains(&"a__region".to_string()));
    assert!(result.columns.contains(&"b__id".to_string()));
    assert!(result.columns.contains(&"b__score".to_string()));
}

#[test]
fn test_diff_inner_join_natural_no_common_columns() {
    // No common columns → condition is TRUE (cross join)
    let left = scan(1, "orders", "public", "o", &["order_id", "amount"]);
    let right = scan(2, "customers", "public", "c", &["cust_id", "name"]);
    let cond = natural_join_cond(&left, &right);
    assert_eq!(cond.to_sql(), "TRUE");
    let tree = inner_join(cond, left, right);

    let mut ctx = test_ctx();
    let result = diff_inner_join(&mut ctx, &tree).unwrap();
    // Should still produce valid diff SQL
    assert!(!result.columns.is_empty());
}

fn get_current_table_ref(op: &OpTree) -> String {
    build_snapshot_sql(op)
}
