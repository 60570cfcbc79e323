//! Tests of `cte_scan`.

use pg_trickle::dvm::diff::{DiffContext, Frontier};
use pg_trickle::dvm::operators::cte_scan::diff_cte_scan;
use pg_trickle::dvm::parser::{Column, CteRegistry, OpTree};

fn test_ctx() -> DiffContext {
    DiffContext::new(Frontier::new(), Frontier::new())
}

fn col(name: &str) -> Column {
    Column { name: name.to_string(), type_oid: 23, is_nullable: true }
}

fn scan(oid: u32, table: &str, schema: &str, alias: &str, cols: &[&str]) -> OpTree {
    OpTree::Scan {
        table_oid: oid,
        table_name: table.to_string(),
        schema: schema.to_string(),
        columns: cols.iter().map(|c| col(c)).collect(),
        pk_columns: vec![],
        alias: alias.to_string(),
    }
}

fn cte_scan(
    cte_id: usize,
    cte_name: &str,
    alias: &str,
    columns: Vec<&str>,
    cte_def_aliases: Vec<&str>,
    column_aliases: Vec<&str>,
) -> OpTree {
    OpTree::CteScan {
        cte_id,
        cte_name: cte_name.to_string(),
        alias: alias.to_string(),
        columns: columns.iter().map(|c| c.to_string()).collect(),
        cte_def_aliases: cte_def_aliases.iter().map(|c| c.to_string()).collect(),
        column_aliases: column_aliases.iter().map(|c| c.to_string()).collect(),
    }
}

fn assert_sql_contains(sql: &str, fragment: &str) {
    assert!(sql.contains(fragment), "expected SQL to contain {fragment:?}\nSQL was:\n{sql}");
}

fn ctx_with_cte_registry(entries: Vec<(&str, OpTree)>) -> DiffContext {
    let registry = CteRegistry {
        entries: entries
            .into_iter()
            .map(|(name, tree)| (name.to_string(), tree))
            .collect(),
    };
    test_ctx().with_cte_registry(registry)
}

#[test]
fn test_diff_cte_scan_basic() {
    let body = scan(1, "t", "public", "t", &["id", "name"]);
    let mut ctx = ctx_with_cte_registry(vec![("my_cte", body)]);
    let tree = cte_scan(0, "my_cte", "mc", vec!["id", "name"], vec![], vec![]);
    let result = diff_cte_scan(&mut ctx, &tree).unwrap();

    assert_eq!(result.columns, vec!["id", "name"]);
}

#[test]
fn test_diff_cte_scan_caches_result() {
    let body = scan(1, "t", "public", "t", &["id", "name"]);
    let mut ctx = ctx_with_cte_registry(vec![("my_cte", body)]);

    // First scan
    let tree1 = cte_scan(0, "my_cte", "mc1", vec!["id", "name"], vec![], vec![]);
    let result1 = diff_cte_scan(&mut ctx, &tree1).unwrap();

    // Second scan of same CTE should be cached
    let tree2 = cte_scan(0, "my_cte", "mc2", vec!["id", "name"], vec![], vec![]);
    let result2 = diff_cte_scan(&mut ctx, &tree2).unwrap();

    assert_eq!(result1.cte_name, result2.cte_name);
}

#[test]
fn test_diff_cte_scan_with_column_aliases() {
    let body = scan(1, "t", "public", "t", &["id", "name"]);
    let mut ctx = ctx_with_cte_registry(vec![("my_cte", body)]);
    let tree = cte_scan(0, "my_cte", "mc", vec!["a", "b"], vec![], vec!["a", "b"]);
    let result = diff_cte_scan(&mut ctx, &tree).unwrap();

    // Columns should be renamed
    assert_eq!(result.columns, vec!["a", "b"]);
    let sql = ctx.build_with_query(&result.cte_name);
    assert_sql_contains(&sql, "\"id\" AS \"a\"");
    assert_sql_contains(&sql, "\"name\" AS \"b\"");
}

#[test]
fn test_diff_cte_scan_with_def_aliases() {
    let body = scan(1, "t", "public", "t", &["id", "name"]);
    let mut ctx = ctx_with_cte_registry(vec![("my_cte", body)]);
    let tree = cte_scan(0, "my_cte", "mc", vec!["x", "y"], vec!["x", "y"], vec![]);
    let result = diff_cte_scan(&mut ctx, &tree).unwrap();

    // Should use cte_def_aliases when column_aliases is empty
    assert_eq!(result.columns, vec!["x", "y"]);
}

#[test]
fn test_diff_cte_scan_error_missing_cte() {
    let mut ctx = test_ctx(); // no CTE registry entries
    let tree = cte_scan(99, "nonexistent", "x", vec!["id"], vec![], vec![]);
    let result = diff_cte_scan(&mut ctx, &tree);
    assert!(result.is_err());
}

#[test]
fn test_diff_cte_scan_error_on_non_cte_scan_node() {
    let mut ctx = test_ctx();
    let tree = scan(1, "t", "public", "t", &["id"]);
    let result = diff_cte_scan(&mut ctx, &tree);
    assert!(result.is_err());
}
