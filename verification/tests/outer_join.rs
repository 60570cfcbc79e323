//! Tests of `outer_join`.

use pg_trickle::dvm::diff::{DiffContext, Frontier};
use pg_trickle::dvm::operators::outer_join::diff_left_join;
use pg_trickle::dvm::parser::{Column, Expr, OpTree};

fn test_ctx() -> DiffContext {
    DiffContext::new(Frontier::new(), Frontier::new())
}

fn col(name: &str) -> Column {
    Column { name: name.to_string(), type_oid: 23, is_nullable: true }
}

fn scan(oid: u32, table: &str, schema: &str, alias: &str, cols: &[&str]) -> OpTree {
    OpTree::Scan {
        table_oid: oid,
        table_name: table.to_string(),
        schema: schema.to_string(),
        columns: cols.iter().map(|c| col(c)).collect(),
        pk_columns: vec![],
        alias: alias.to_string(),
    }
}

fn binop(op: &str, left: Expr, right: Expr) -> Expr {
    Expr::BinaryOp { op: op.to_string(), left: Box::new(left), right: Box::new(right) }
}

fn qcolref(table: &str, name: &str) -> Expr {
    Expr::ColumnRef { table_alias: Some(table.to_string()), column_name: name.to_string() }
}

fn lit(value: &str) -> Expr {
    Expr::Literal(value.to_string())
}

fn eq_cond(lt: &str, lc: &str, rt: &str, rc: &str) -> Expr {
    binop("=", qcolref(lt, lc), qcolref(rt, rc))
}

fn inner_join(condition: Expr, left: OpTree, right: OpTree) -> OpTree {
    OpTree::InnerJoin { condition, left: Box::new(left), right: Box::new(right) }
}

fn left_join(condition: Expr, left: OpTree, right: OpTree) -> OpTree {
    OpTree::LeftJoin { condition, left: Box::new(left), right: Box::new(right) }
}

fn natural_join_cond(left: &OpTree, right: &OpTree) -> Expr {
    let right_cols = right.output_columns();
    let mut cond: Option<Expr> = None;
    for c in left.output_columns() {
        if right_cols.contains(&c) {
            let eq = eq_cond(&left.alias(), &c, &right.alias(), &c);
            cond = Some(match cond {
                Some(prev) => binop("AND", prev, eq),
                None => eq,
            });
        }
    }
    cond.unwrap_or_else(|| lit("TRUE"))
}

fn assert_sql_contains(sql: &str, fragment: &str) {
    assert!(sql.contains(fragment), "expected SQL to contain {fragment:?}\nSQL was:\n{sql}");
}

#[test]
fn test_diff_left_join_basic() {
    let mut ctx = test_ctx();
    let left = scan(1, "orders", "public", "o", &["id", "cust_id", "amount"]);
    let right = scan(2, "customers", "public", "c", &["id", "name"]);
    let cond = eq_cond("o", "cust_id", "c", "id");
    let tree = left_join(cond, left, right);
    let result = diff_left_join(&mut ctx, &tree).unwrap();

    // Output columns should be disambiguated
    assert!(result.columns.contains(&"o__id".to_string()));
    assert!(result.columns.contains(&"c__name".to_string()));
}

#[test]
fn test_diff_left_join_has_five_parts() {
    let mut ctx = test_ctx();
    let left = scan(1, "orders", "public", "o", &["id", "cust_id"]);
    let right = scan(2, "customers", "public", "c", &["id", "name"]);
    let cond = eq_cond("o", "cust_id", "c", "id");
    let tree = left_join(cond, left, right);
    let result = diff_left_join(&mut ctx, &tree).unwrap();
    let sql = ctx.build_with_query(&result.cte_name);

    // Should have 5 parts
    assert_sql_contains(&sql, "Part 1");
    assert_sql_contains(&sql, "Part 2");
    assert_sql_contains(&sql, "Part 3");
    assert_sql_contains(&sql, "Part 4");
    assert_sql_contains(&sql, "Part 5");
}

#[test]
fn test_diff_left_join_null_padding() {
    let mut ctx = test_ctx();
    let left = scan(1, "orders", "public", "o", &["id", "cust_id"]);
    let right = scan(2, "customers", "public", "c", &["id", "name"]);
    let cond = eq_cond("o", "cust_id", "c", "id");
    let tree = left_join(cond, left, right);
    let result = diff_left_join(&mut ctx, &tree).unwrap();
    let sql = ctx.build_with_query(&result.cte_name);

    // Anti-join part should pad right columns with NULL
    assert_sql_contains(&sql, "NULL AS");
}

#[test]
fn test_diff_left_join_right_delta_flags() {
    let mut ctx = test_ctx();
    let left = scan(1, "a", "public", "a", &["id"]);
    let right = scan(2, "b", "public", "b", &["id"]);
    let cond = eq_cond("a", "id", "b", "id");
    let tree = left_join(cond, left, right);
    let result = diff_left_join(&mut ctx, &tree).unwrap();
    let sql = ctx.build_with_query(&result.cte_name);

    // G-J2 optimization: pre-computed right-delta action flags
    assert_sql_contains(&sql, "has_ins");
    assert_sql_contains(&sql, "has_del");
}

#[test]
fn test_diff_left_join_not_deduplicated() {
    let mut ctx = test_ctx();
    let left = scan(1, "a", "public", "a", &["id"]);
    let right = scan(2, "b", "public", "b", &["id"]);
    let cond = eq_cond("a", "id", "b", "id");
    let tree = left_join(cond, left, right);
    let result = diff_left_join(&mut ctx, &tree).unwrap();
    assert!(!result.is_deduplicated);
}

#[test]
fn test_diff_left_join_error_on_non_left_join_node() {
    let mut ctx = test_ctx();
    let tree = scan(1, "t", "public", "t", &["id"]);
    let result = diff_left_join(&mut ctx, &tree);
    assert!(result.is_err());
}

// ── Nested join tests ───────────────────────────────────────────

#[test]
fn test_diff_left_join_nested_three_tables() {
    // (a ⋈ b) LEFT JOIN c — left child is a nested inner join
    let a = scan(1, "a", "public", "a", &["id", "bid"]);
    let b = scan(2, "b", "public", "b", &["id"]);
    let inner = inner_join(eq_cond("a", "bid", "b", "id"), a, b);
    let c = scan(3, "c", "public", "c", &["id"]);
    let tree = left_join(eq_cond("a", "id", "c", "id"), inner, c);

    let mut ctx = test_ctx();
    let result = diff_left_join(&mut ctx, &tree);
    assert!(
        result.is_ok(),
        "nested 3-table left join should diff: {result:?}"
    );
    let dr = result.unwrap();
    let sql = ctx.build_with_query(&dr.cte_name);
    assert_sql_contains(&sql, "UNION ALL");
}

#[test]
fn test_diff_left_join_nested_right_child() {
    // a LEFT JOIN (b ⋈ c) — right child is a nested inner join
    let a = scan(1, "a", "public", "a", &["id"]);
    let b = scan(2, "b", "public", "b", &["id", "cid"]);
    let c = scan(3, "c", "public", "c", &["id"]);
    let inner = inner_join(eq_cond("b", "cid", "c", "id"), b, c);
    let tree = left_join(eq_cond("a", "id", "b", "id"), a, inner);

    let mut ctx = test_ctx();
    let result = diff_left_join(&mut ctx, &tree);
    assert!(
        result.is_ok(),
        "left join with nested right child should diff: {result:?}"
    );
}

// ── NATURAL LEFT JOIN diff tests ────────────────────────────────

#[test]
fn test_diff_left_join_with_natural_condition() {
    // Simulate NATURAL LEFT JOIN: tables share "id" column
    let left = scan(1, "orders", "public", "o", &["id", "customer_id"]);
    let right = scan(2, "items", "public", "i", &["id", "order_id"]);
    let cond = natural_join_cond(&left, &right);
    let tree = left_join(cond, left, right);

    let mut ctx = test_ctx();
    let result = diff_left_join(&mut ctx, &tree).unwrap();
    let sql = ctx.build_with_query(&result.cte_name);
    // Left join diff should have multiple parts with UNION ALL
    assert_sql_contains(&sql, "UNION ALL");
    // Disambiguated columns from both sides
    assert!(result.columns.contains(&"o__id".to_string()));
    assert!(result.columns.contains(&"i__id".to_string()));
}

#[test]
fn test_diff_left_join_natural_multiple_common_cols() {
    // Two tables sharing "id" and "region"
    let left = scan(1, "a", "public", "a", &["id", "region", "val"]);
    let right = scan(2, "b", "public", "b", &["id", "region", "score"]);
    let cond = natural_join_cond(&left, &right);
    let tree = left_join(cond, left, right);

    let mut ctx = test_ctx();
    let result = diff_left_join(&mut ctx, &tree).unwrap();
    assert!(result.columns.contains(&"a__id".to_string()));
    assert!(result.columns.contains(&"a__region".to_string()));
    assert!(result.columns.contains(&"b__region".to_string()));
    assert!(result.columns.contains(&"b__score".to_string()));
}
