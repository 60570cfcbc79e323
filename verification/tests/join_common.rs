//! Tests of `join_common`.

use pg_trickle::dvm::operators::join_common::{build_base_table_key_exprs, build_snapshot_sql, has_source_alias, is_simple_child, is_simple_source, rewrite_join_condition};
use pg_trickle::dvm::parser::{Column, Expr, OpTree};

fn col(name: &str) -> Column {
    Column { name: name.to_string(), type_oid: 23, is_nullable: true }
}

fn col_not_null(name: &str) -> Column {
    Column { name: name.to_string(), type_oid: 23, is_nullable: false }
}

fn scan(oid: u32, table: &str, schema: &str, alias: &str, cols: &[&str]) -> OpTree {
    OpTree::Scan {
        table_oid: oid,
        table_name: table.to_string(),
        schema: schema.to_string(),
        columns: cols.iter().map(|c| col(c)).collect(),
        pk_columns: vec![],
        alias: alias.to_string(),
    }
}

fn scan_not_null(oid: u32, table: &str, schema: &str, alias: &str, cols: &[&str]) -> OpTree {
    OpTree::Scan {
        table_oid: oid,
        table_name: table.to_string(),
        schema: schema.to_string(),
        columns: cols.iter().map(|c| col_not_null(c)).collect(),
        pk_columns: vec![],
        alias: alias.to_string(),
    }
}

fn filter(predicate: Expr, child: OpTree) -> OpTree {
    OpTree::Filter { predicate, child: Box::new(child) }
}

fn binop(op: &str, left: Expr, right: Expr) -> Expr {
    Expr::BinaryOp { op: op.to_string(), left: Box::new(left), right: Box::new(right) }
}

fn qcolref(table: &str, name: &str) -> Expr {
    Expr::ColumnRef { table_alias: Some(table.to_string()), column_name: name.to_string() }
}

fn lit(value: &str) -> Expr {
    Expr::Literal(value.to_string())
}

fn eq_cond(lt: &str, lc: &str, rt: &str, rc: &str) -> Expr {
    binop("=", qcolref(lt, lc), qcolref(rt, rc))
}

fn inner_join(condition: Expr, left: OpTree, right: OpTree) -> OpTree {
    OpTree::InnerJoin { condition, left: Box::new(left), right: Box::new(right) }
}

fn left_join(condition: Expr, left: OpTree, right: OpTree) -> OpTree {
    OpTree::LeftJoin { condition, left: Box::new(left), right: Box::new(right) }
}

// ── build_snapshot_sql tests ────────────────────────────────

#[test]
fn test_snapshot_scan() {
    let node = scan(1, "orders", "public", "o", &["id", "cust_id"]);
    let snap = build_snapshot_sql(&node);
    assert_eq!(snap, "\"public\".\"orders\"");
}

#[test]
fn test_snapshot_inner_join() {
    let left = scan(1, "orders", "public", "o", &["id", "cust_id"]);
    let right = scan(2, "customers", "public", "c", &["id", "name"]);
    let cond = eq_cond("o", "cust_id", "c", "id");
    let node = inner_join(cond, left, right);
    let snap = build_snapshot_sql(&node);

    // Should be a subquery with disambiguated column names
    assert!(snap.starts_with('('));
    assert!(snap.contains("\"o__id\""));
    assert!(snap.contains("\"o__cust_id\""));
    assert!(snap.contains("\"c__id\""));
    assert!(snap.contains("\"c__name\""));
    assert!(snap.contains("JOIN"));
}

#[test]
fn test_snapshot_left_join() {
    let left = scan(1, "a", "public", "a", &["id"]);
    let right = scan(2, "b", "public", "b", &["id"]);
    let cond = eq_cond("a", "id", "b", "id");
    let node = left_join(cond, left, right);
    let snap = build_snapshot_sql(&node);

    assert!(snap.contains("LEFT JOIN"));
}

#[test]
fn test_snapshot_nested_join() {
    // (orders o JOIN customers c) JOIN products p
    let o = scan(1, "orders", "public", "o", &["id", "cust_id", "prod_id"]);
    let c = scan(2, "customers", "public", "c", &["id", "name"]);
    let inner = inner_join(eq_cond("o", "cust_id", "c", "id"), o, c);
    let p = scan(3, "products", "public", "p", &["id", "price"]);
    let outer = inner_join(eq_cond("o", "prod_id", "p", "id"), inner, p);

    let snap = build_snapshot_sql(&outer);
    // Outer join should reference a subquery for the inner join
    assert!(snap.contains("\"join\""));
    assert!(snap.contains("\"p\""));
}

#[test]
fn test_snapshot_filter_over_scan() {
    let child = scan(1, "t", "public", "t", &["id", "status"]);
    let node = filter(binop("=", qcolref("t", "status"), lit("'active'")), child);
    let snap = build_snapshot_sql(&node);
    assert!(snap.contains("SELECT *"));
    assert!(snap.contains("WHERE"));
}

// ── has_source_alias tests ──────────────────────────────────

#[test]
fn test_has_source_alias_scan() {
    let node = scan(1, "orders", "public", "o", &["id"]);
    assert!(has_source_alias(&node, "o"));
    assert!(!has_source_alias(&node, "x"));
}

#[test]
fn test_has_source_alias_nested_join() {
    let o = scan(1, "orders", "public", "o", &["id"]);
    let c = scan(2, "customers", "public", "c", &["id"]);
    let node = inner_join(eq_cond("o", "id", "c", "id"), o, c);
    assert!(has_source_alias(&node, "o"));
    assert!(has_source_alias(&node, "c"));
    assert!(!has_source_alias(&node, "x"));
}

// ── is_simple_source tests ──────────────────────────────────

#[test]
fn test_is_simple_source_scan() {
    let node = scan(1, "t", "public", "t", &["id"]);
    assert!(is_simple_source(&node, "t"));
}

#[test]
fn test_is_simple_source_filter_over_scan() {
    let node = filter(lit("TRUE"), scan(1, "t", "public", "t", &["id"]));
    assert!(is_simple_source(&node, "t"));
}

#[test]
fn test_is_simple_source_nested_join() {
    let o = scan(1, "orders", "public", "o", &["id"]);
    let c = scan(2, "customers", "public", "c", &["id"]);
    let node = inner_join(eq_cond("o", "id", "c", "id"), o, c);
    // "o" is inside a join → not simple
    assert!(!is_simple_source(&node, "o"));
    assert!(!is_simple_source(&node, "c"));
}

// ── rewrite_join_condition tests ────────────────────────────

#[test]
fn test_rewrite_simple_condition() {
    let o = scan(1, "orders", "public", "o", &["id", "cust_id"]);
    let c = scan(2, "customers", "public", "c", &["id"]);
    let cond = eq_cond("o", "cust_id", "c", "id");

    let rewritten = rewrite_join_condition(&cond, &o, "dl", &c, "r");
    assert!(rewritten.contains("dl."));
    assert!(rewritten.contains("r."));
}

#[test]
fn test_rewrite_nested_condition() {
    // Outer join: (orders ⋈ customers) ⋈ products
    // Condition: o.prod_id = p.id
    let o = scan(1, "orders", "public", "o", &["id", "prod_id"]);
    let c = scan(2, "customers", "public", "c", &["id"]);
    let inner = inner_join(eq_cond("o", "id", "c", "id"), o, c);
    let p = scan(3, "products", "public", "p", &["id"]);

    let cond = eq_cond("o", "prod_id", "p", "id");
    let rewritten = rewrite_join_condition(&cond, &inner, "dl", &p, "r");

    // "o" is inside the inner join → disambiguated to "o__prod_id"
    assert!(
        rewritten.contains("o__prod_id"),
        "expected o__prod_id, got: {rewritten}"
    );
    // "p" is a simple Scan → plain "id"
    assert!(rewritten.contains("r."));
}

#[test]
fn test_rewrite_both_sides_nested() {
    let a = scan(1, "a", "public", "a", &["id"]);
    let b = scan(2, "b", "public", "b", &["id"]);
    let left = inner_join(eq_cond("a", "id", "b", "id"), a, b);

    let c = scan(3, "c", "public", "c", &["id"]);
    let d = scan(4, "d", "public", "d", &["id"]);
    let right = inner_join(eq_cond("c", "id", "d", "id"), c, d);

    let cond = eq_cond("a", "id", "c", "id");
    let rewritten = rewrite_join_condition(&cond, &left, "dl", &right, "r");
    assert!(
        rewritten.contains("a__id"),
        "expected a__id, got: {rewritten}"
    );
    assert!(
        rewritten.contains("c__id"),
        "expected c__id, got: {rewritten}"
    );
}

// ── is_simple_child tests ───────────────────────────────────

#[test]
fn test_is_simple_child_scan() {
    assert!(is_simple_child(&scan(1, "t", "public", "t", &["id"])));
}

#[test]
fn test_is_simple_child_filter_over_scan() {
    let node = filter(lit("TRUE"), scan(1, "t", "public", "t", &["id"]));
    assert!(is_simple_child(&node));
}

#[test]
fn test_is_simple_child_join() {
    let o = scan(1, "a", "public", "a", &["id"]);
    let c = scan(2, "b", "public", "b", &["id"]);
    let node = inner_join(eq_cond("a", "id", "b", "id"), o, c);
    assert!(!is_simple_child(&node));
}

// ── build_base_table_key_exprs tests ────────────────────────

#[test]
fn test_key_exprs_scan_non_nullable() {
    let node = scan_not_null(1, "orders", "public", "o", &["id", "name"]);
    let exprs = build_base_table_key_exprs(&node, "r");
    assert!(exprs.iter().any(|e| e.contains("r.\"id\"::TEXT")));
}

#[test]
fn test_key_exprs_non_scan_fallback() {
    let o = scan(1, "a", "public", "a", &["id"]);
    let c = scan(2, "b", "public", "b", &["id"]);
    let node = inner_join(eq_cond("a", "id", "b", "id"), o, c);
    let exprs = build_base_table_key_exprs(&node, "l");
    assert_eq!(exprs, vec!["row_to_json(l)::text"]);
}
