//! Differentiation of whole trees: the chain, the columns, shared deltas.

use std::collections::HashSet;

use pg_trickle::dvm::diff::{CteKind, DiffContext, DiffResult, Frontier};
use pg_trickle::dvm::operators::recursive_cte::delete_check_sql;
use pg_trickle::dvm::operators::recursive_sql::{
    collect_self_ref_aliases, count_self_refs, generate_query_sql_with_change_buffers,
};
use pg_trickle::dvm::parser::{AggExpr, Column, CteRegistry, Expr, OpTree, WindowExpr};

fn names(v: &[&str]) -> Vec<String> {
    v.iter().map(|s| s.to_string()).collect()
}

fn scan(oid: u32, alias: &str, cols: &[&str]) -> OpTree {
    OpTree::Scan {
        table_oid: oid,
        table_name: alias.to_string(),
        schema: "public".to_string(),
        columns: cols
            .iter()
            .map(|c| Column { name: c.to_string(), type_oid: 23, is_nullable: true })
            .collect(),
        pk_columns: names(&[cols[0]]),
        alias: alias.to_string(),
    }
}

fn col(alias: &str, name: &str) -> Expr {
    Expr::ColumnRef { table_alias: Some(alias.to_string()), column_name: name.to_string() }
}

fn on(a: &str, x: &str, b: &str, y: &str) -> Expr {
    Expr::BinaryOp {
        op: "=".to_string(),
        left: Box::new(col(a, x)),
        right: Box::new(col(b, y)),
    }
}

fn reference(id: usize, alias: &str, own: &[&str]) -> OpTree {
    OpTree::CteScan {
        cte_id: id,
        cte_name: "shared".to_string(),
        alias: alias.to_string(),
        columns: Vec::new(),
        cte_def_aliases: Vec::new(),
        column_aliases: names(own),
    }
}

fn ctx() -> DiffContext {
    DiffContext::new(Frontier::new(), Frontier::new()).with_st_name("public", "st")
}

fn check_chain(ctx: &DiffContext, d: &DiffResult) {
    let all: HashSet<&str> = ctx.ctes.iter().map(|c| c.name.as_str()).collect();
    assert_eq!(all.len(), ctx.ctes.len());
    assert!(all.contains(d.cte_name.as_str()));
    assert!(!ctx.inside_semijoin);
}

fn big_tree() -> OpTree {
    let joined = OpTree::FullJoin {
        condition: on("a", "id", "b", "id"),
        left: Box::new(OpTree::InnerJoin {
            condition: on("a", "id", "c", "id"),
            left: Box::new(scan(1, "a", &["id", "v"])),
            right: Box::new(scan(3, "c", &["id"])),
        }),
        right: Box::new(OpTree::LeftJoin {
            condition: on("b", "id", "d", "id"),
            left: Box::new(scan(2, "b", &["id"])),
            right: Box::new(scan(4, "d", &["id", "w"])),
        }),
    };
    let half = OpTree::SemiJoin {
        condition: on("join", "a__id", "e", "id"),
        left: Box::new(joined),
        right: Box::new(OpTree::AntiJoin {
            condition: on("e", "id", "f", "id"),
            left: Box::new(scan(5, "e", &["id"])),
            right: Box::new(scan(6, "f", &["id"])),
        }),
    };
    OpTree::Distinct {
        child: Box::new(OpTree::Filter {
            predicate: Expr::Literal("true".to_string()),
            child: Box::new(half),
        }),
    }
}

#[test]
fn names_in_a_chain_are_used_once() {
    let mut c = ctx();
    let d = c.diff_node(&big_tree()).unwrap();
    check_chain(&c, &d);
    let n = c.ctes.len();
    let again = c.diff_node(&big_tree()).unwrap();
    check_chain(&c, &again);
    assert_eq!(c.ctes.len(), 2 * n);
    assert_ne!(d.cte_name, again.cte_name);
}

#[test]
fn the_chain_only_grows() {
    let mut c = ctx();
    c.diff_node(&scan(1, "a", &["id"])).unwrap();
    let before: Vec<String> = c.ctes.iter().map(|x| x.name.clone()).collect();
    let failing = OpTree::InnerJoin {
        condition: on("b", "id", "x", "id"),
        left: Box::new(scan(2, "b", &["id"])),
        right: Box::new(OpTree::Aggregate {
            group_by: Vec::new(),
            aggregates: vec![AggExpr {
                func_name: "count".to_string(),
                argument: None,
                is_distinct: false,
                alias: "n".to_string(),
            }],
            child: Box::new(scan(3, "x", &["id"])),
        }),
    };
    let e = c.diff_node(&failing).unwrap_err();
    assert!(e.to_string().starts_with("unsupported operator for DIFFERENTIAL mode: "));
    let after: Vec<String> = c.ctes.iter().map(|x| x.name.clone()).collect();
    assert_eq!(after[..before.len()], before[..]);
    assert_eq!(after.len(), before.len() + 5);
}

#[test]
fn columns_follow_from_the_tree() {
    let mut c = ctx();
    let d = c.diff_node(&big_tree()).unwrap();
    assert_eq!(
        d.columns,
        names(&[
            "join__a__id",
            "join__a__v",
            "join__c__id",
            "left_join__b__id",
            "left_join__d__id",
            "left_join__d__w",
            "__pgs_count",
        ])
    );
    assert!(!d.is_deduplicated);
}

#[test]
fn filters_keep_the_shape_of_scans() {
    for dedup in [false, true] {
        let mut c = ctx();
        c.merge_safe_dedup = dedup;
        let d = c
            .diff_node(&OpTree::Filter {
                predicate: Expr::Literal("true".to_string()),
                child: Box::new(scan(1, "a", &["id", "v"])),
            })
            .unwrap();
        assert_eq!(d.columns, names(&["id", "v"]));
        assert_eq!(d.is_deduplicated, dedup);
        check_chain(&c, &d);
    }
}

#[test]
fn windows_and_subqueries_add_columns() {
    let mut c = ctx();
    let w = OpTree::Window {
        window_exprs: vec![WindowExpr {
            func_name: "row_number".to_string(),
            args: Vec::new(),
            partition_by: vec![col("a", "v")],
            order_by: Vec::new(),
            alias: "rn".to_string(),
        }],
        partition_by: vec![col("a", "v")],
        pass_through: vec![(col("a", "id"), "id".to_string()), (col("a", "v"), "v".to_string())],
        child: Box::new(scan(1, "a", &["id", "v"])),
    };
    let d = c.diff_node(&w).unwrap();
    assert_eq!(d.columns, names(&["id", "v", "rn"]));
    check_chain(&c, &d);
    let s = OpTree::ScalarSubquery {
        subquery: Box::new(scan(2, "b", &["n"])),
        alias: "total".to_string(),
        subquery_source_oids: vec![2],
        child: Box::new(scan(1, "a", &["id", "v"])),
    };
    let d = c.diff_node(&s).unwrap();
    assert_eq!(d.columns, names(&["id", "v", "total"]));
    check_chain(&c, &d);
}

#[test]
fn references_share_one_delta() {
    let registry = CteRegistry {
        entries: vec![("shared".to_string(), scan(1, "a", &["id", "v"]))],
    };
    let mut c = ctx().with_cte_registry(registry);
    let first = c.diff_node(&reference(0, "x", &[])).unwrap();
    assert_eq!(c.ctes.len(), 5);
    assert_eq!(c.cte_deltas.len(), 1);
    let second = c.diff_node(&reference(0, "y", &[])).unwrap();
    assert_eq!(c.ctes.len(), 5);
    assert_eq!(first.cte_name, second.cte_name);
    let renamed = c.diff_node(&reference(0, "z", &["k", "w"])).unwrap();
    assert_eq!(c.ctes.len(), 6);
    assert_eq!(renamed.columns, names(&["k", "w"]));
    assert_eq!(c.cte_deltas.len(), 1);
    check_chain(&c, &renamed);
}

#[test]
fn unknown_references_fail() {
    let mut c = ctx();
    let e = c.diff_node(&reference(3, "x", &[])).unwrap_err();
    assert_eq!(
        e.to_string(),
        "internal error: CTE 'shared' (id=3) not found in registry"
    );
}

#[test]
fn registries_without_cycles_are_ordered() {
    let ordered = CteRegistry {
        entries: vec![
            ("a".to_string(), scan(1, "a", &["id"])),
            ("b".to_string(), reference(0, "x", &[])),
        ],
    };
    assert!(ordered.is_ordered());
    let cyclic = CteRegistry { entries: vec![("a".to_string(), reference(0, "x", &[]))] };
    assert!(!cyclic.is_ordered());
    let forward = CteRegistry {
        entries: vec![
            ("b".to_string(), reference(1, "x", &[])),
            ("a".to_string(), scan(1, "a", &["id"])),
        ],
    };
    assert!(!forward.is_ordered());
}

fn tree_of_categories(refs: usize) -> OpTree {
    let self_ref = |alias: &str| OpTree::RecursiveSelfRef {
        cte_name: "tree".to_string(),
        alias: alias.to_string(),
        columns: names(&["id"]),
    };
    let step = |left: OpTree, right: OpTree| OpTree::InnerJoin {
        condition: on("c", "parent", "t", "id"),
        left: Box::new(left),
        right: Box::new(right),
    };
    let recursive = if refs == 1 {
        step(scan(1, "c", &["id", "parent"]), self_ref("t"))
    } else {
        step(self_ref("s"), self_ref("t"))
    };
    OpTree::RecursiveCte {
        alias: "tree".to_string(),
        columns: names(&["id"]),
        base: Box::new(scan(1, "c", &["id"])),
        recursive: Box::new(recursive),
        union_all: true,
    }
}

fn kinds(c: &DiffContext) -> Vec<(String, CteKind)> {
    c.ctes[5..]
        .iter()
        .map(|x| {
            let stem = x.name.strip_prefix("__pgs_cte_").unwrap();
            (stem[..stem.rfind('_').unwrap()].to_string(), x.kind)
        })
        .collect()
}

fn kind(name: &str, k: CteKind) -> (String, CteKind) {
    (name.to_string(), k)
}

#[test]
fn inserts_are_propagated() {
    let mut c = ctx();
    c.st_user_columns = Some(names(&["id"]));
    let d = c.diff_node(&tree_of_categories(1)).unwrap();
    assert_eq!(
        kinds(&c),
        vec![
            kind("rc_snv_tree", CteKind::Recursive),
            kind("rc_final_tree", CteKind::Plain),
        ]
    );
    assert_eq!(d.columns, names(&["id"]));
    check_chain(&c, &d);
    assert!(c.build_with_query(&d.cte_name).starts_with("WITH RECURSIVE "));
}

#[test]
fn deletes_cascade_and_are_rederived() {
    let mut c = ctx();
    c.st_user_columns = Some(names(&["id"]));
    c.sources_with_deletes = vec![1];
    let d = c.diff_node(&tree_of_categories(1)).unwrap();
    assert_eq!(
        kinds(&c),
        vec![
            kind("dred_ins_tree", CteKind::Recursive),
            kind("dred_ifin_tree", CteKind::Plain),
            kind("dred_dseed_tree", CteKind::Plain),
            kind("dred_dcasc_tree", CteKind::Recursive),
            kind("dred_rfull_tree", CteKind::Plain),
            kind("dred_rdrv_tree", CteKind::Plain),
            kind("dred_ndel_tree", CteKind::Plain),
            kind("dred_dfin_tree", CteKind::Plain),
            kind("dred_comb_tree", CteKind::Plain),
        ]
    );
    check_chain(&c, &d);
}

fn reachable() -> OpTree {
    OpTree::RecursiveCte {
        alias: "reach".to_string(),
        columns: names(&["id"]),
        base: Box::new(scan(1, "start", &["id"])),
        recursive: Box::new(OpTree::InnerJoin {
            condition: on("e", "from", "r", "id"),
            left: Box::new(scan(2, "e", &["from"])),
            right: Box::new(OpTree::RecursiveSelfRef {
                cte_name: "reach".to_string(),
                alias: "r".to_string(),
                columns: names(&["id"]),
            }),
        }),
        union_all: true,
    }
}

#[test]
fn deletes_in_any_source_are_rederived() {
    for (source, first) in [(1, "dred_ins_reach"), (2, "dred_ins_reach"), (3, "rc_snv_reach")] {
        let mut c = ctx();
        c.st_user_columns = Some(names(&["id"]));
        c.sources_with_deletes = vec![source];
        c.diff_node(&reachable()).unwrap();
        assert_eq!(kinds(&c)[0], kind(first, CteKind::Recursive));
    }
}

#[test]
fn deletes_are_looked_for_between_the_frontiers() {
    let mut prev = Frontier::new();
    prev.set_lsn(7, "0/1".to_string());
    let mut new = Frontier::new();
    new.set_lsn(7, "0/2".to_string());
    let c = DiffContext::new(prev, new);
    let sql = delete_check_sql(&c, 7);
    assert!(sql.starts_with("SELECT EXISTS(SELECT 1 FROM "));
    assert!(sql.ends_with(
        ".changes_7 WHERE (action = 'D' OR action = 'U') AND lsn > '0/1'::pg_lsn AND lsn <= '0/2'::pg_lsn)"
    ));
}

#[test]
fn terms_without_base_tables_have_no_change_query() {
    let c = ctx();
    let own = |alias: &str| OpTree::RecursiveSelfRef {
        cte_name: "reach".to_string(),
        alias: alias.to_string(),
        columns: names(&["id"]),
    };
    let query = |op: &OpTree| generate_query_sql_with_change_buffers(&c, op, "st").unwrap();
    let pair = || OpTree::InnerJoin {
        condition: on("r1", "id", "r2", "id"),
        left: Box::new(own("r1")),
        right: Box::new(own("r2")),
    };
    assert_eq!(query(&pair()), None);
    assert_eq!(query(&own("r1")), None);
    let projected = OpTree::Project {
        expressions: vec![col("r1", "id")],
        aliases: names(&["id"]),
        child: Box::new(pair()),
    };
    assert_eq!(query(&projected), None);

    let inserted = query(&scan(1, "e", &["id"])).unwrap();
    assert!(inserted.starts_with("SELECT \"e\".\"id\"\nFROM (SELECT r.\"id\" FROM "));
    assert!(inserted.contains("c.action = 'I'"));
    let outer = OpTree::LeftJoin {
        condition: on("e", "id", "r1", "id"),
        left: Box::new(scan(1, "e", &["id"])),
        right: Box::new(own("r1")),
    };
    assert!(query(&outer).unwrap().contains("\nLEFT JOIN st AS \"r1\"\n"));
    let nested = OpTree::Subquery {
        alias: "q".to_string(),
        column_aliases: Vec::new(),
        child: Box::new(scan(1, "e", &["id"])),
    };
    assert!(query(&nested).unwrap().ends_with("\n) AS \"q\""));
    let distinct = OpTree::Distinct { child: Box::new(scan(1, "e", &["id"])) };
    assert_eq!(query(&distinct), None);
    let filtered = OpTree::Filter {
        predicate: Expr::Raw("id > 1".to_string()),
        child: Box::new(distinct),
    };
    assert_eq!(query(&filtered), None);
    let below_a_join = OpTree::InnerJoin {
        condition: on("e", "id", "r1", "id"),
        left: Box::new(OpTree::Distinct { child: Box::new(scan(1, "e", &["id"])) }),
        right: Box::new(own("r1")),
    };
    assert!(generate_query_sql_with_change_buffers(&c, &below_a_join, "st").is_err());
    let distinct = OpTree::Distinct { child: Box::new(own("r1")) };
    assert_eq!(query(&distinct), None);
}

#[test]
fn other_columns_are_computed_anew() {
    let mut c = ctx();
    c.st_user_columns = Some(names(&["label"]));
    c.defining_query = Some("SELECT label FROM tree".to_string());
    let d = c.diff_node(&tree_of_categories(1)).unwrap();
    assert_eq!(d.columns, names(&["label"]));
    assert_eq!(c.ctes.len(), 4);
    assert!(c.ctes[0].name.starts_with("__pgs_cte_rc_recomp_tree_"));
    assert!(c.ctes[0].sql.contains("SELECT label FROM tree"));
    check_chain(&c, &d);
}

#[test]
fn several_self_references_are_refused() {
    let mut c = ctx();
    c.st_user_columns = Some(names(&["id"]));
    let e = c.diff_node(&tree_of_categories(2)).unwrap_err().to_string();
    assert!(e.contains("tree"));
    assert!(e.contains("2 self-references (s, t)"));
    assert!(c.ctes.is_empty());
}

#[test]
fn self_references_are_found_below_any_operator() {
    let own = |alias: &str| {
        Box::new(OpTree::RecursiveSelfRef {
            cte_name: "tree".to_string(),
            alias: alias.to_string(),
            columns: names(&["id"]),
        })
    };
    let full = OpTree::FullJoin {
        condition: on("r1", "id", "r2", "id"),
        left: own("r1"),
        right: own("r2"),
    };
    assert_eq!(count_self_refs(&full), 2);
    let scalar = OpTree::ScalarSubquery {
        subquery: own("r3"),
        alias: "v".to_string(),
        subquery_source_oids: Vec::new(),
        child: Box::new(full),
    };
    assert_eq!(collect_self_ref_aliases(&scalar), names(&["r3", "r1", "r2"]));
    assert_eq!(count_self_refs(&tree_of_categories(1)), 0);
}

#[test]
fn recursive_expressions_need_a_storage_table() {
    let mut c = DiffContext::new(Frontier::new(), Frontier::new());
    let e = c.diff_node(&tree_of_categories(1)).unwrap_err().to_string();
    assert!(e.contains("recursive CTE recomputation diff"));
}

#[test]
fn positions_of_sources() {
    let mut prev = Frontier::new();
    prev.set_lsn(1, "0/A".to_string());
    prev.set_lsn(1, "0/B".to_string());
    let c = DiffContext::new(prev, Frontier::new());
    assert_eq!(c.get_prev_lsn(1), "0/B");
    assert_eq!(c.get_prev_lsn(2), "0/0");
    assert_eq!(c.get_new_lsn(1), "0/0");
    let p = DiffContext::new(Frontier::new(), Frontier::new()).with_placeholders();
    assert_eq!(p.get_prev_lsn(9), "__PGS_PREV_LSN_9__");
    assert_eq!(p.get_new_lsn(9), "__PGS_NEW_LSN_9__");
}

#[test]
fn the_query_reads_the_chain() {
    let mut c = ctx();
    assert_eq!(c.build_with_query("x"), "SELECT * FROM x");
    let a = c.next_cte_name("a");
    c.add_cte(a.clone(), "SELECT 1".to_string());
    let b = c.next_cte_name("b");
    c.add_materialized_cte(b.clone(), "SELECT 2".to_string());
    assert_eq!(
        c.build_with_query(&b),
        "WITH __pgs_cte_a_1 AS (\nSELECT 1\n),\n__pgs_cte_b_2 AS MATERIALIZED (\nSELECT 2\n)\nSELECT * FROM __pgs_cte_b_2"
    );
    let r = c.next_cte_name("r");
    c.add_recursive_cte(r.clone(), "SELECT 3".to_string());
    assert!(c.build_with_query(&r).starts_with("WITH RECURSIVE __pgs_cte_a_1"));
}
