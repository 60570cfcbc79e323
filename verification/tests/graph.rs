//! The dependency graph read from the catalog, its order and its schedules.

use pg_trickle::dag::{
    DagNode, DependencyRow, Duration, NodeId, RefreshMode, StDag, StStatus, TableRow,
};
use pg_trickle::error::PgTrickleError;

fn table(id: i64, name: &str, schedule: Option<&str>, secs: Option<i64>) -> TableRow {
    TableRow {
        pgs_id: Some(id),
        pgs_name: Some(name.to_string()),
        pgs_schema: Some("app".to_string()),
        schedule: schedule.map(|s| s.to_string()),
        schedule_secs: secs,
        status: Some("ACTIVE".to_string()),
    }
}

fn reads(id: i64, relid: u32, source: Option<i64>) -> DependencyRow {
    DependencyRow { pgs_id: Some(id), source_relid: Some(relid), source_pgs_id: source }
}

fn node(id: i64) -> DagNode {
    DagNode {
        id: NodeId::StreamTable(id),
        schedule: None,
        effective_schedule: Duration::from_secs(0),
        name: format!("st{}", id),
        status: StStatus::Active,
        schedule_raw: None,
    }
}

fn st(id: i64) -> NodeId {
    NodeId::StreamTable(id)
}

#[test]
fn the_catalog_gives_nodes_and_edges() {
    let tables = vec![
        table(1, "a", None, None),
        table(2, "b", Some("5m"), Some(300)),
        table(3, "c", Some("0 * * * *"), None),
    ];
    let deps = vec![reads(1, 500, None), reads(2, 501, Some(1)), reads(3, 502, Some(2))];
    let dag = StDag::build_from_catalog(&tables, &deps, 60);
    assert_eq!(dag.get_upstream(st(1)), vec![NodeId::BaseTable(500)]);
    assert_eq!(dag.get_upstream(st(2)), vec![st(1)]);
    assert_eq!(dag.get_downstream(st(2)), vec![st(3)]);
    assert_eq!(dag.topological_order().unwrap(), vec![st(1), st(2), st(3)]);
    assert_eq!(dag.get_node(st(1)).unwrap().name, "app.a");
    // The shortest schedule downstream, a schedule of its own, the fallback.
    assert_eq!(dag.get_node(st(1)).unwrap().effective_schedule, Duration::from_secs(300));
    assert_eq!(dag.get_node(st(2)).unwrap().effective_schedule, Duration::from_secs(300));
    assert_eq!(dag.get_node(st(3)).unwrap().effective_schedule, Duration::from_secs(60));
    assert_eq!(dag.get_node(st(3)).unwrap().schedule_raw.as_deref(), Some("0 * * * *"));
    assert!(dag.get_node(st(3)).unwrap().schedule.is_none());
}

#[test]
fn absent_cells_of_the_catalog_have_defaults() {
    let tables = vec![TableRow {
        pgs_id: None,
        pgs_name: None,
        pgs_schema: None,
        schedule: None,
        schedule_secs: None,
        status: None,
    }];
    let deps = vec![DependencyRow { pgs_id: None, source_relid: None, source_pgs_id: None }];
    let dag = StDag::build_from_catalog(&tables, &deps, 1);
    let n = dag.get_node(st(0)).unwrap();
    assert_eq!(n.name, ".");
    assert_eq!(n.status, StStatus::Error);
    assert_eq!(dag.get_upstream(st(0)), vec![NodeId::BaseTable(0)]);
}

#[test]
fn negative_schedules_count_as_zero() {
    let dag = StDag::build_from_catalog(&vec![table(1, "a", Some("x"), Some(-5))], &vec![], 60);
    assert_eq!(dag.get_node(st(1)).unwrap().schedule, Some(Duration::from_secs(0)));
}

#[test]
fn schedules_pass_through_several_levels() {
    // 1 -> 2 -> 4, 1 -> 3 -> 4, and only 4 has a schedule of its own.
    let mut dag = StDag::new();
    for id in 1..4 {
        dag.add_dt_node(node(id));
    }
    let mut last = node(4);
    last.schedule = Some(Duration::from_secs(7));
    last.effective_schedule = Duration::from_secs(7);
    dag.add_dt_node(last);
    dag.add_edge(st(1), st(2));
    dag.add_edge(st(1), st(3));
    dag.add_edge(st(2), st(4));
    dag.add_edge(st(3), st(4));
    dag.resolve_calculated_schedule(60);
    for id in 1..5 {
        assert_eq!(
            dag.get_node(st(id)).unwrap().effective_schedule,
            Duration::from_secs(7)
        );
    }
}

#[test]
fn every_edge_is_seen_from_both_ends() {
    let mut dag = StDag::new();
    dag.add_edge(NodeId::BaseTable(1), st(1));
    dag.add_edge(NodeId::BaseTable(1), st(2));
    dag.add_edge(st(1), st(2));
    assert_eq!(dag.get_downstream(NodeId::BaseTable(1)), vec![st(1), st(2)]);
    assert_eq!(dag.get_upstream(st(2)), vec![NodeId::BaseTable(1), st(1)]);
    assert!(dag.get_upstream(NodeId::BaseTable(1)).is_empty());
    assert!(dag.get_downstream(st(9)).is_empty());
}

#[test]
fn the_order_refreshes_sources_first() {
    let mut dag = StDag::new();
    for id in 1..6 {
        dag.add_dt_node(node(id));
    }
    dag.add_edge(NodeId::BaseTable(9), st(5));
    for (a, b) in [(5, 3), (3, 1), (5, 2), (2, 1), (1, 4)] {
        dag.add_edge(st(a), st(b));
    }
    assert!(dag.detect_cycles().is_ok());
    let order = dag.topological_order().unwrap();
    assert_eq!(order.len(), 5);
    let at = |id: i64| order.iter().position(|n| *n == st(id)).unwrap();
    for (a, b) in [(5, 3), (3, 1), (5, 2), (2, 1), (1, 4)] {
        assert!(at(a) < at(b));
    }
}

#[test]
fn cycles_are_named() {
    let mut dag = StDag::new();
    for id in 1..4 {
        dag.add_dt_node(node(id));
    }
    dag.add_edge(st(1), st(2));
    dag.add_edge(st(2), st(1));
    dag.add_edge(NodeId::BaseTable(4), st(3));
    match dag.detect_cycles() {
        Err(PgTrickleError::CycleDetected(mut names)) => {
            names.sort();
            assert_eq!(names, vec!["st1".to_string(), "st2".to_string()]);
        }
        other => panic!("unexpected: {:?}", other),
    }
    assert_eq!(dag.topological_order().unwrap(), vec![st(3)]);
}

#[test]
fn what_depends_on_a_cycle_is_not_on_it() {
    let mut dag = StDag::new();
    for id in 1..6 {
        dag.add_dt_node(node(id));
    }
    dag.add_edge(st(1), st(2));
    dag.add_edge(st(2), st(1));
    dag.add_edge(st(2), st(3));
    dag.add_edge(st(4), st(1));
    dag.add_edge(st(5), st(5));
    match dag.detect_cycles() {
        Err(PgTrickleError::CycleDetected(mut names)) => {
            names.sort();
            assert_eq!(names, vec!["st1".to_string(), "st2".to_string(), "st5".to_string()]);
        }
        other => panic!("unexpected: {:?}", other),
    }
}

#[test]
fn a_table_that_reads_itself_is_a_cycle() {
    let mut dag = StDag::new();
    dag.add_dt_node(node(1));
    dag.add_edge(st(1), st(1));
    assert!(dag.detect_cycles().is_err());
}

#[test]
fn names_of_nodes() {
    let mut dag = StDag::new();
    dag.add_dt_node(node(1));
    assert_eq!(dag.node_name(&st(1)), "st1");
    assert_eq!(dag.node_name(&st(2)), "stream_table(id=2)");
    assert_eq!(dag.node_name(&NodeId::BaseTable(7)), "base_table(oid=7)");
    assert_eq!(dag.get_all_dt_nodes().len(), 1);
}

#[test]
fn shorter_durations() {
    let a = Duration { secs: 1, nanos: 5 };
    let b = Duration { secs: 1, nanos: 4 };
    assert_eq!(a.min(b), b);
    assert_eq!(b.min(Duration::from_secs(0)), Duration::from_secs(0));
}

#[test]
fn states_and_modes_read_back() {
    for s in [StStatus::Initializing, StStatus::Active, StStatus::Suspended, StStatus::Error] {
        assert_eq!(StStatus::from_str(s.as_str()).unwrap(), s);
    }
    for m in [RefreshMode::Full, RefreshMode::Differential] {
        assert_eq!(RefreshMode::from_str(m.as_str()).unwrap(), m);
        assert_eq!(RefreshMode::from_upper(m.as_str()).unwrap(), m);
    }
}

#[test]
fn modes_ignore_case_and_states_do_not() {
    assert_eq!(RefreshMode::from_str("Full").unwrap(), RefreshMode::Full);
    assert_eq!(RefreshMode::from_str("differential").unwrap(), RefreshMode::Differential);
    assert_eq!(RefreshMode::from_str("\u{17F}").unwrap_err().to_string(),
        "invalid argument: unknown refresh mode: S. Must be 'FULL' or 'DIFFERENTIAL'");
    assert!(RefreshMode::from_upper("Full").is_err());
    assert!(StStatus::from_str("active").is_err());
}
