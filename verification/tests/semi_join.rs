//! Tests of `semi_join`.

use pg_trickle::dvm::diff::{DiffContext, Frontier};
use pg_trickle::dvm::operators::semi_join::diff_semi_join;
use pg_trickle::dvm::parser::{Column, Expr, OpTree};

fn test_ctx() -> DiffContext {
    DiffContext::new(Frontier::new(), Frontier::new())
}

fn col(name: &str) -> Column {
    Column { name: name.to_string(), type_oid: 23, is_nullable: true }
}

fn scan(oid: u32, table: &str, schema: &str, alias: &str, cols: &[&str]) -> OpTree {
    OpTree::Scan {
        table_oid: oid,
        table_name: table.to_string(),
        schema: schema.to_string(),
        columns: cols.iter().map(|c| col(c)).collect(),
        pk_columns: vec![],
        alias: alias.to_string(),
    }
}

fn binop(op: &str, left: Expr, right: Expr) -> Expr {
    Expr::BinaryOp { op: op.to_string(), left: Box::new(left), right: Box::new(right) }
}

fn qcolref(table: &str, name: &str) -> Expr {
    Expr::ColumnRef { table_alias: Some(table.to_string()), column_name: name.to_string() }
}

fn eq_cond(lt: &str, lc: &str, rt: &str, rc: &str) -> Expr {
    binop("=", qcolref(lt, lc), qcolref(rt, rc))
}

#[test]
fn test_diff_semi_join_basic() {
    let mut ctx = test_ctx();
    let left = scan(1, "orders", "public", "o", &["id", "cust_id", "amount"]);
    let right = scan(2, "customers", "public", "c", &["id", "name"]);
    let cond = eq_cond("o", "cust_id", "c", "id");
    let tree = OpTree::SemiJoin {
        condition: cond,
        left: Box::new(left),
        right: Box::new(right),
    };
    let result = diff_semi_join(&mut ctx, &tree).unwrap();

    // Semi-join outputs only left-side columns
    assert_eq!(result.columns, vec!["id", "cust_id", "amount"]);
    assert!(!result.is_deduplicated);
}

#[test]
fn test_diff_semi_join_sql_contains_exists() {
    let mut ctx = test_ctx();
    let left = scan(1, "orders", "public", "o", &["id", "amount"]);
    let right = scan(2, "items", "public", "i", &["order_id", "qty"]);
    let cond = eq_cond("o", "id", "i", "order_id");
    let tree = OpTree::SemiJoin {
        condition: cond,
        left: Box::new(left),
        right: Box::new(right),
    };
    let result = diff_semi_join(&mut ctx, &tree).unwrap();

    // Verify the generated SQL has the expected structure
    let sql = ctx.build_with_query(&result.cte_name);
    assert!(sql.contains("EXISTS"), "SQL should contain EXISTS check");
    assert!(sql.contains("Part 1"), "SQL should have Part 1 comment");
    assert!(sql.contains("Part 2"), "SQL should have Part 2 comment");
    assert!(sql.contains("UNION ALL"), "SQL should UNION ALL both parts");
}

#[test]
fn test_diff_semi_join_wrong_node_type() {
    let mut ctx = test_ctx();
    let scan_node = scan(1, "t", "public", "t", &["id"]);
    let result = diff_semi_join(&mut ctx, &scan_node);
    assert!(result.is_err());
}
