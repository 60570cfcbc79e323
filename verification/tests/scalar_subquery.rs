//! Tests of `scalar_subquery`.

use pg_trickle::dvm::diff::{DiffContext, Frontier};
use pg_trickle::dvm::operators::scalar_subquery::diff_scalar_subquery;
use pg_trickle::dvm::parser::{Column, OpTree};

fn test_ctx() -> DiffContext {
    DiffContext::new(Frontier::new(), Frontier::new())
}

fn col(name: &str) -> Column {
    Column { name: name.to_string(), type_oid: 23, is_nullable: true }
}

fn scan(oid: u32, table: &str, schema: &str, alias: &str, cols: &[&str]) -> OpTree {
    OpTree::Scan {
        table_oid: oid,
        table_name: table.to_string(),
        schema: schema.to_string(),
        columns: cols.iter().map(|c| col(c)).collect(),
        pk_columns: vec![],
        alias: alias.to_string(),
    }
}

#[test]
fn test_diff_scalar_subquery_basic() {
    let mut ctx = test_ctx();
    let outer = scan(1, "orders", "public", "o", &["id", "amount"]);
    let inner = scan(2, "config", "public", "c", &["tax_rate"]);
    let tree = OpTree::ScalarSubquery {
        subquery: Box::new(inner),
        alias: "current_tax".to_string(),
        subquery_source_oids: vec![2],
        child: Box::new(outer),
    };
    let result = diff_scalar_subquery(&mut ctx, &tree).unwrap();

    // Output should include child columns + scalar alias
    assert_eq!(result.columns, vec!["id", "amount", "current_tax"]);
    assert!(!result.is_deduplicated);
}

#[test]
fn test_diff_scalar_subquery_sql_structure() {
    let mut ctx = test_ctx();
    let outer = scan(1, "orders", "public", "o", &["id"]);
    let inner = scan(2, "stats", "public", "s", &["avg_val"]);
    let tree = OpTree::ScalarSubquery {
        subquery: Box::new(inner),
        alias: "global_avg".to_string(),
        subquery_source_oids: vec![2],
        child: Box::new(outer),
    };
    let result = diff_scalar_subquery(&mut ctx, &tree).unwrap();

    let sql = ctx.build_with_query(&result.cte_name);
    assert!(sql.contains("Part 1"), "SQL should have Part 1");
    assert!(sql.contains("Part 2"), "SQL should have Part 2");
    assert!(
        sql.contains("IS DISTINCT FROM"),
        "Part 2 should check for scalar value change"
    );
}

#[test]
fn test_diff_scalar_subquery_wrong_node_type() {
    let mut ctx = test_ctx();
    let scan_node = scan(1, "t", "public", "t", &["id"]);
    let result = diff_scalar_subquery(&mut ctx, &scan_node);
    assert!(result.is_err());
}
