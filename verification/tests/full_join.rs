//! Tests of `full_join`.

use pg_trickle::dvm::diff::{DiffContext, Frontier};
use pg_trickle::dvm::operators::full_join::diff_full_join;
use pg_trickle::dvm::parser::{Column, Expr, OpTree};

fn test_ctx() -> DiffContext {
    DiffContext::new(Frontier::new(), Frontier::new())
}

fn col(name: &str) -> Column {
    Column { name: name.to_string(), type_oid: 23, is_nullable: true }
}

fn scan(oid: u32, table: &str, schema: &str, alias: &str, cols: &[&str]) -> OpTree {
    OpTree::Scan {
        table_oid: oid,
        table_name: table.to_string(),
        schema: schema.to_string(),
        columns: cols.iter().map(|c| col(c)).collect(),
        pk_columns: vec![],
        alias: alias.to_string(),
    }
}

fn binop(op: &str, left: Expr, right: Expr) -> Expr {
    Expr::BinaryOp { op: op.to_string(), left: Box::new(left), right: Box::new(right) }
}

fn qcolref(table: &str, name: &str) -> Expr {
    Expr::ColumnRef { table_alias: Some(table.to_string()), column_name: name.to_string() }
}

fn eq_cond(lt: &str, lc: &str, rt: &str, rc: &str) -> Expr {
    binop("=", qcolref(lt, lc), qcolref(rt, rc))
}

fn inner_join(condition: Expr, left: OpTree, right: OpTree) -> OpTree {
    OpTree::InnerJoin { condition, left: Box::new(left), right: Box::new(right) }
}

fn assert_sql_contains(sql: &str, fragment: &str) {
    assert!(sql.contains(fragment), "expected SQL to contain {fragment:?}\nSQL was:\n{sql}");
}

#[test]
fn test_diff_full_join_basic() {
    let mut ctx = test_ctx();
    let left = scan(1, "orders", "public", "o", &["id", "cust_id", "amount"]);
    let right = scan(2, "customers", "public", "c", &["id", "name"]);
    let cond = eq_cond("o", "cust_id", "c", "id");
    let tree = OpTree::FullJoin {
        condition: cond,
        left: Box::new(left),
        right: Box::new(right),
    };
    let result = diff_full_join(&mut ctx, &tree).unwrap();

    // Output columns should be disambiguated
    assert!(result.columns.contains(&"o__id".to_string()));
    assert!(result.columns.contains(&"o__cust_id".to_string()));
    assert!(result.columns.contains(&"c__id".to_string()));
    assert!(result.columns.contains(&"c__name".to_string()));
}

#[test]
fn test_diff_full_join_has_all_parts() {
    let mut ctx = test_ctx();
    let left = scan(1, "orders", "public", "o", &["id", "cust_id"]);
    let right = scan(2, "customers", "public", "c", &["id", "name"]);
    let cond = eq_cond("o", "cust_id", "c", "id");
    let tree = OpTree::FullJoin {
        condition: cond,
        left: Box::new(left),
        right: Box::new(right),
    };
    let result = diff_full_join(&mut ctx, &tree).unwrap();
    let sql = ctx.build_with_query(&result.cte_name);

    // Should have all 8 parts (1-7b)
    assert_sql_contains(&sql, "Part 1");
    assert_sql_contains(&sql, "Part 2");
    assert_sql_contains(&sql, "Part 3");
    assert_sql_contains(&sql, "Part 4");
    assert_sql_contains(&sql, "Part 5");
    assert_sql_contains(&sql, "Part 6");
    assert_sql_contains(&sql, "Part 7a");
    assert_sql_contains(&sql, "Part 7b");
}

#[test]
fn test_diff_full_join_null_padding_both_sides() {
    let mut ctx = test_ctx();
    let left = scan(1, "a", "public", "a", &["id", "val"]);
    let right = scan(2, "b", "public", "b", &["id", "name"]);
    let cond = eq_cond("a", "id", "b", "id");
    let tree = OpTree::FullJoin {
        condition: cond,
        left: Box::new(left),
        right: Box::new(right),
    };
    let result = diff_full_join(&mut ctx, &tree).unwrap();
    let sql = ctx.build_with_query(&result.cte_name);

    // Should have NULL padding for both sides
    assert_sql_contains(&sql, "NULL AS");
}

#[test]
fn test_diff_full_join_delta_flags() {
    let mut ctx = test_ctx();
    let left = scan(1, "a", "public", "a", &["id"]);
    let right = scan(2, "b", "public", "b", &["id"]);
    let cond = eq_cond("a", "id", "b", "id");
    let tree = OpTree::FullJoin {
        condition: cond,
        left: Box::new(left),
        right: Box::new(right),
    };
    let result = diff_full_join(&mut ctx, &tree).unwrap();
    let sql = ctx.build_with_query(&result.cte_name);

    // Should have pre-computed delta flags for both sides
    assert_sql_contains(&sql, "has_ins");
    assert_sql_contains(&sql, "has_del");
}

#[test]
fn test_diff_full_join_not_deduplicated() {
    let mut ctx = test_ctx();
    let left = scan(1, "a", "public", "a", &["id"]);
    let right = scan(2, "b", "public", "b", &["id"]);
    let cond = eq_cond("a", "id", "b", "id");
    let tree = OpTree::FullJoin {
        condition: cond,
        left: Box::new(left),
        right: Box::new(right),
    };
    let result = diff_full_join(&mut ctx, &tree).unwrap();
    assert!(!result.is_deduplicated);
}

#[test]
fn test_diff_full_join_error_on_non_full_join_node() {
    let mut ctx = test_ctx();
    let tree = scan(1, "t", "public", "t", &["id"]);
    let result = diff_full_join(&mut ctx, &tree);
    assert!(result.is_err());
}

// ── Nested join tests ───────────────────────────────────────────

#[test]
fn test_diff_full_join_nested_left_child() {
    // (a ⋈ b) FULL JOIN c — left child is a nested inner join
    let a = scan(1, "a", "public", "a", &["id", "bid"]);
    let b = scan(2, "b", "public", "b", &["id"]);
    let inner = inner_join(eq_cond("a", "bid", "b", "id"), a, b);
    let c = scan(3, "c", "public", "c", &["id"]);
    let tree = OpTree::FullJoin {
        condition: eq_cond("a", "id", "c", "id"),
        left: Box::new(inner),
        right: Box::new(c),
    };

    let mut ctx = test_ctx();
    let result = diff_full_join(&mut ctx, &tree);
    assert!(
        result.is_ok(),
        "full join with nested left child should diff: {result:?}"
    );
    let dr = result.unwrap();
    let sql = ctx.build_with_query(&dr.cte_name);
    assert_sql_contains(&sql, "UNION ALL");
}

#[test]
fn test_diff_full_join_nested_both_children() {
    // (a ⋈ b) FULL JOIN (c ⋈ d) — both children are nested joins
    let a = scan(1, "a", "public", "a", &["id"]);
    let b = scan(2, "b", "public", "b", &["id"]);
    let left = inner_join(eq_cond("a", "id", "b", "id"), a, b);

    let c = scan(3, "c", "public", "c", &["id"]);
    let d = scan(4, "d", "public", "d", &["id"]);
    let right = inner_join(eq_cond("c", "id", "d", "id"), c, d);

    let tree = OpTree::FullJoin {
        condition: eq_cond("a", "id", "c", "id"),
        left: Box::new(left),
        right: Box::new(right),
    };

    let mut ctx = test_ctx();
    let result = diff_full_join(&mut ctx, &tree);
    assert!(
        result.is_ok(),
        "full join with nested children on both sides should diff: {result:?}"
    );
}
