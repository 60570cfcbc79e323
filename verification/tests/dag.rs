//! Tests of `dag`.

use std::collections::HashSet;

use pg_trickle::dag::{DagNode, Duration, NodeId, RefreshMode, StDag, StStatus};
use pg_trickle::error::PgTrickleError;

#[test]
fn test_topological_sort_simple_chain() {
    // base_table -> dt1 -> dt2
    let mut dag = StDag::new();
    let base = NodeId::BaseTable(1);
    let dt1 = NodeId::StreamTable(1);
    let dt2 = NodeId::StreamTable(2);

    dag.add_dt_node(DagNode {
        id: dt1,
        schedule: Some(Duration::from_secs(60)),
        effective_schedule: Duration::from_secs(60),
        name: "dt1".to_string(),
        status: StStatus::Active,
        schedule_raw: None,
    });
    dag.add_dt_node(DagNode {
        id: dt2,
        schedule: Some(Duration::from_secs(120)),
        effective_schedule: Duration::from_secs(120),
        name: "dt2".to_string(),
        status: StStatus::Active,
        schedule_raw: None,
    });

    dag.add_edge(base, dt1);
    dag.add_edge(dt1, dt2);

    let order = dag.topological_order().unwrap();
    assert_eq!(order, vec![dt1, dt2]);
}

#[test]
fn test_cycle_detection_detects_cycle() {
    let mut dag = StDag::new();
    let dt1 = NodeId::StreamTable(1);
    let dt2 = NodeId::StreamTable(2);

    dag.add_dt_node(DagNode {
        id: dt1,
        schedule: Some(Duration::from_secs(60)),
        effective_schedule: Duration::from_secs(60),
        name: "dt1".to_string(),
        status: StStatus::Active,
        schedule_raw: None,
    });
    dag.add_dt_node(DagNode {
        id: dt2,
        schedule: Some(Duration::from_secs(60)),
        effective_schedule: Duration::from_secs(60),
        name: "dt2".to_string(),
        status: StStatus::Active,
        schedule_raw: None,
    });

    dag.add_edge(dt1, dt2);
    dag.add_edge(dt2, dt1);

    let result = dag.detect_cycles();
    assert!(result.is_err());
    if let Err(PgTrickleError::CycleDetected(nodes)) = result {
        assert_eq!(nodes.len(), 2);
    }
}

#[test]
fn test_no_cycle_in_valid_dag() {
    let mut dag = StDag::new();
    let base1 = NodeId::BaseTable(1);
    let base2 = NodeId::BaseTable(2);
    let dt1 = NodeId::StreamTable(1);
    let dt2 = NodeId::StreamTable(2);
    let dt3 = NodeId::StreamTable(3);

    for (id, name) in [(dt1, "dt1"), (dt2, "dt2"), (dt3, "dt3")] {
        dag.add_dt_node(DagNode {
            id,
            schedule: Some(Duration::from_secs(60)),
            effective_schedule: Duration::from_secs(60),
            name: name.to_string(),
            status: StStatus::Active,
            schedule_raw: None,
        });
    }

    // Diamond: base1 -> dt1, base2 -> dt2, dt1 -> dt3, dt2 -> dt3
    dag.add_edge(base1, dt1);
    dag.add_edge(base2, dt2);
    dag.add_edge(dt1, dt3);
    dag.add_edge(dt2, dt3);

    assert!(dag.detect_cycles().is_ok());
    let order = dag.topological_order().unwrap();
    // dt3 must come after dt1 and dt2
    let pos1 = order.iter().position(|n| *n == dt1).unwrap();
    let pos2 = order.iter().position(|n| *n == dt2).unwrap();
    let pos3 = order.iter().position(|n| *n == dt3).unwrap();
    assert!(pos3 > pos1);
    assert!(pos3 > pos2);
}

#[test]
fn test_calculated_schedule_resolution() {
    let mut dag = StDag::new();
    let base = NodeId::BaseTable(1);
    let dt1 = NodeId::StreamTable(1);
    let dt2 = NodeId::StreamTable(2);

    // dt1 is CALCULATED (schedule = None), dt2 has explicit 120s schedule
    dag.add_dt_node(DagNode {
        id: dt1,
        schedule: None,
        effective_schedule: Duration::from_secs(0),
        name: "dt1".to_string(),
        status: StStatus::Active,
        schedule_raw: None,
    });
    dag.add_dt_node(DagNode {
        id: dt2,
        schedule: Some(Duration::from_secs(120)),
        effective_schedule: Duration::from_secs(120),
        name: "dt2".to_string(),
        status: StStatus::Active,
        schedule_raw: None,
    });

    dag.add_edge(base, dt1);
    dag.add_edge(dt1, dt2);

    dag.resolve_calculated_schedule(60);

    // dt1's effective schedule should be MIN of dt2's effective schedule = 120s
    let dt1_node = dag.get_node(dt1).unwrap();
    assert_eq!(dt1_node.effective_schedule, Duration::from_secs(120));
}

#[test]
fn test_calculated_schedule_no_dependents_uses_fallback() {
    let mut dag = StDag::new();
    let base = NodeId::BaseTable(1);
    let dt1 = NodeId::StreamTable(1);

    dag.add_dt_node(DagNode {
        id: dt1,
        schedule: None,
        effective_schedule: Duration::from_secs(0),
        name: "dt1".to_string(),
        status: StStatus::Active,
        schedule_raw: None,
    });

    dag.add_edge(base, dt1);

    dag.resolve_calculated_schedule(60);

    // No dependents → fallback = 60s
    let dt1_node = dag.get_node(dt1).unwrap();
    assert_eq!(dt1_node.effective_schedule, Duration::from_secs(60));
}

#[test]
fn test_empty_dag() {
    let dag = StDag::new();
    assert!(dag.detect_cycles().is_ok());
    assert!(dag.topological_order().unwrap().is_empty());
}

// ── Edge cases ────────────────────────────────────

#[test]
fn test_single_node_no_edges() {
    let mut dag = StDag::new();
    let st = NodeId::StreamTable(1);
    dag.add_dt_node(DagNode {
        id: st,
        schedule: Some(Duration::from_secs(60)),
        effective_schedule: Duration::from_secs(60),
        name: "dt1".to_string(),
        status: StStatus::Active,
        schedule_raw: None,
    });

    assert!(dag.detect_cycles().is_ok());
    let order = dag.topological_order().unwrap();
    assert_eq!(order, vec![st]);
}

#[test]
fn test_get_upstream_and_downstream() {
    let mut dag = StDag::new();
    let base = NodeId::BaseTable(1);
    let dt1 = NodeId::StreamTable(1);
    let dt2 = NodeId::StreamTable(2);

    dag.add_dt_node(DagNode {
        id: dt1,
        schedule: Some(Duration::from_secs(60)),
        effective_schedule: Duration::from_secs(60),
        name: "dt1".to_string(),
        status: StStatus::Active,
        schedule_raw: None,
    });
    dag.add_dt_node(DagNode {
        id: dt2,
        schedule: Some(Duration::from_secs(60)),
        effective_schedule: Duration::from_secs(60),
        name: "dt2".to_string(),
        status: StStatus::Active,
        schedule_raw: None,
    });

    dag.add_edge(base, dt1);
    dag.add_edge(dt1, dt2);

    assert_eq!(dag.get_upstream(dt1), vec![base]);
    assert_eq!(dag.get_downstream(dt1), vec![dt2]);
    assert_eq!(dag.get_upstream(dt2), vec![dt1]);
    assert!(dag.get_downstream(dt2).is_empty());
    assert!(dag.get_upstream(base).is_empty());
}

#[test]
fn test_get_all_dt_nodes() {
    let mut dag = StDag::new();
    let dt1 = NodeId::StreamTable(1);
    let dt2 = NodeId::StreamTable(2);

    dag.add_dt_node(DagNode {
        id: dt1,
        schedule: Some(Duration::from_secs(30)),
        effective_schedule: Duration::from_secs(30),
        name: "dt1".to_string(),
        status: StStatus::Active,
        schedule_raw: None,
    });
    dag.add_dt_node(DagNode {
        id: dt2,
        schedule: Some(Duration::from_secs(60)),
        effective_schedule: Duration::from_secs(60),
        name: "dt2".to_string(),
        status: StStatus::Suspended,
        schedule_raw: None,
    });

    let nodes = dag.get_all_dt_nodes();
    assert_eq!(nodes.len(), 2);
}

#[test]
fn test_node_name_for_known_and_unknown_nodes() {
    let mut dag = StDag::new();
    let st = NodeId::StreamTable(42);
    dag.add_dt_node(DagNode {
        id: st,
        schedule: Some(Duration::from_secs(60)),
        effective_schedule: Duration::from_secs(60),
        name: "my_st".to_string(),
        status: StStatus::Active,
        schedule_raw: None,
    });

    // Known node returns its name
    assert_eq!(dag.node_name(&st), "my_st");

    // Unknown ST returns formatted string
    let unknown_dt = NodeId::StreamTable(999);
    assert_eq!(dag.node_name(&unknown_dt), "stream_table(id=999)");

    // Unknown base table returns formatted string
    let base = NodeId::BaseTable(123);
    assert_eq!(dag.node_name(&base), "base_table(oid=123)");
}

#[test]
fn test_diamond_dependency_pattern() {
    // base1 → dt1 → dt3
    // base2 → dt2 → dt3
    let mut dag = StDag::new();
    let base1 = NodeId::BaseTable(1);
    let base2 = NodeId::BaseTable(2);
    let dt1 = NodeId::StreamTable(1);
    let dt2 = NodeId::StreamTable(2);
    let dt3 = NodeId::StreamTable(3);

    for (id, name) in [(dt1, "dt1"), (dt2, "dt2"), (dt3, "dt3")] {
        dag.add_dt_node(DagNode {
            id,
            schedule: Some(Duration::from_secs(60)),
            effective_schedule: Duration::from_secs(60),
            name: name.to_string(),
            status: StStatus::Active,
            schedule_raw: None,
        });
    }

    dag.add_edge(base1, dt1);
    dag.add_edge(base2, dt2);
    dag.add_edge(dt1, dt3);
    dag.add_edge(dt2, dt3);

    assert!(dag.detect_cycles().is_ok());
    let order = dag.topological_order().unwrap();
    assert_eq!(order.len(), 3);

    // dt3 must be after dt1 and dt2
    let pos = |id: NodeId| order.iter().position(|n| *n == id).unwrap();
    assert!(pos(dt3) > pos(dt1));
    assert!(pos(dt3) > pos(dt2));
}

#[test]
fn test_pgs_status_as_str_and_from_str_roundtrip() {
    for status in [
        StStatus::Initializing,
        StStatus::Active,
        StStatus::Suspended,
        StStatus::Error,
    ] {
        let s = status.as_str();
        let parsed = StStatus::from_str(s).unwrap();
        assert_eq!(parsed, status);
    }
}

#[test]
fn test_pgs_status_from_str_unknown_returns_error() {
    let result = StStatus::from_str("UNKNOWN");
    assert!(result.is_err());
    if let Err(PgTrickleError::InvalidArgument(msg)) = result {
        assert!(msg.contains("unknown status"));
    }
}

#[test]
fn test_refresh_mode_as_str_and_from_str_roundtrip() {
    for mode in [RefreshMode::Full, RefreshMode::Differential] {
        let s = mode.as_str();
        let parsed = RefreshMode::from_str(s).unwrap();
        assert_eq!(parsed, mode);
    }
}

#[test]
fn test_refresh_mode_from_str_case_insensitive() {
    assert_eq!(RefreshMode::from_str("full").unwrap(), RefreshMode::Full);
    assert_eq!(RefreshMode::from_str("FULL").unwrap(), RefreshMode::Full);
    assert_eq!(RefreshMode::from_str("Full").unwrap(), RefreshMode::Full);
    assert_eq!(
        RefreshMode::from_str("incremental").unwrap(),
        RefreshMode::Differential
    );
}

#[test]
fn test_refresh_mode_from_str_unknown_returns_error() {
    let result = RefreshMode::from_str("INVALID");
    assert!(result.is_err());
    if let Err(PgTrickleError::InvalidArgument(msg)) = result {
        assert!(msg.contains("unknown refresh mode"));
    }
}

#[test]
fn test_downstream_schedule_multiple_downstream_uses_minimum() {
    let mut dag = StDag::new();
    let base = NodeId::BaseTable(1);
    let st_downstream = NodeId::StreamTable(1);
    let st_fast = NodeId::StreamTable(2);
    let st_slow = NodeId::StreamTable(3);

    // st_downstream (DOWNSTREAM) → st_fast (30s), st_slow (120s)
    dag.add_dt_node(DagNode {
        id: st_downstream,
        schedule: None,
        effective_schedule: Duration::from_secs(0),
        name: "st_downstream".to_string(),
        status: StStatus::Active,
        schedule_raw: None,
    });
    dag.add_dt_node(DagNode {
        id: st_fast,
        schedule: Some(Duration::from_secs(30)),
        effective_schedule: Duration::from_secs(30),
        name: "st_fast".to_string(),
        status: StStatus::Active,
        schedule_raw: None,
    });
    dag.add_dt_node(DagNode {
        id: st_slow,
        schedule: Some(Duration::from_secs(120)),
        effective_schedule: Duration::from_secs(120),
        name: "st_slow".to_string(),
        status: StStatus::Active,
        schedule_raw: None,
    });

    dag.add_edge(base, st_downstream);
    dag.add_edge(st_downstream, st_fast);
    dag.add_edge(st_downstream, st_slow);

    dag.resolve_calculated_schedule(60);

    // Should use MIN(30, 120) = 30
    let node = dag.get_node(st_downstream).unwrap();
    assert_eq!(node.effective_schedule, Duration::from_secs(30));
}

#[test]
fn test_default_trait_for_dtdag() {
    let dag = StDag::default();
    assert!(dag.detect_cycles().is_ok());
    assert!(dag.topological_order().unwrap().is_empty());
}

#[test]
fn test_node_id_equality_and_hashing() {
    let a = NodeId::BaseTable(1);
    let b = NodeId::BaseTable(1);
    let c = NodeId::StreamTable(1);
    assert_eq!(a, b);
    assert_ne!(a, c);

    let mut set = HashSet::new();
    set.insert(a);
    set.insert(b); // same as a
    set.insert(c);
    assert_eq!(set.len(), 2);
}

#[test]
fn test_cycle_detection_three_node_cycle() {
    let mut dag = StDag::new();
    let dt1 = NodeId::StreamTable(1);
    let dt2 = NodeId::StreamTable(2);
    let dt3 = NodeId::StreamTable(3);

    for (id, name) in [(dt1, "dt1"), (dt2, "dt2"), (dt3, "dt3")] {
        dag.add_dt_node(DagNode {
            id,
            schedule: Some(Duration::from_secs(60)),
            effective_schedule: Duration::from_secs(60),
            name: name.to_string(),
            status: StStatus::Active,
            schedule_raw: None,
        });
    }

    dag.add_edge(dt1, dt2);
    dag.add_edge(dt2, dt3);
    dag.add_edge(dt3, dt1);

    let result = dag.detect_cycles();
    assert!(result.is_err());
    if let Err(PgTrickleError::CycleDetected(nodes)) = result {
        assert_eq!(nodes.len(), 3);
    }
}

#[test]
fn test_topological_order_excludes_base_tables() {
    let mut dag = StDag::new();
    let base1 = NodeId::BaseTable(1);
    let base2 = NodeId::BaseTable(2);
    let dt1 = NodeId::StreamTable(1);

    dag.add_dt_node(DagNode {
        id: dt1,
        schedule: Some(Duration::from_secs(60)),
        effective_schedule: Duration::from_secs(60),
        name: "dt1".to_string(),
        status: StStatus::Active,
        schedule_raw: None,
    });

    dag.add_edge(base1, dt1);
    dag.add_edge(base2, dt1);

    let order = dag.topological_order().unwrap();
    assert_eq!(order, vec![dt1]); // No base tables in output
}

#[test]
fn test_explicit_schedule_overrides_downstream_resolution() {
    let mut dag = StDag::new();
    let base = NodeId::BaseTable(1);
    let dt1 = NodeId::StreamTable(1);
    let dt2 = NodeId::StreamTable(2);

    // dt1 has explicit schedule of 60s, dt2 has explicit schedule of 120s
    dag.add_dt_node(DagNode {
        id: dt1,
        schedule: Some(Duration::from_secs(60)),
        effective_schedule: Duration::from_secs(0), // will be set to 60
        name: "dt1".to_string(),
        status: StStatus::Active,
        schedule_raw: None,
    });
    dag.add_dt_node(DagNode {
        id: dt2,
        schedule: Some(Duration::from_secs(120)),
        effective_schedule: Duration::from_secs(0), // will be set to 120
        name: "dt2".to_string(),
        status: StStatus::Active,
        schedule_raw: None,
    });

    dag.add_edge(base, dt1);
    dag.add_edge(dt1, dt2);

    dag.resolve_calculated_schedule(30);

    assert_eq!(
        dag.get_node(dt1).unwrap().effective_schedule,
        Duration::from_secs(60)
    );
    assert_eq!(
        dag.get_node(dt2).unwrap().effective_schedule,
        Duration::from_secs(120)
    );
}

#[test]
fn test_resolve_downstream_schedule_chain_three_levels() {
    // base -> dt1 (downstream) -> dt2 (downstream) -> dt3 (60s)
    let mut dag = StDag::new();
    let base = NodeId::BaseTable(1);
    let dt1 = NodeId::StreamTable(1);
    let dt2 = NodeId::StreamTable(2);
    let dt3 = NodeId::StreamTable(3);

    dag.add_dt_node(DagNode {
        id: dt1,
        schedule: None, // downstream
        effective_schedule: Duration::from_secs(0),
        name: "dt1".to_string(),
        status: StStatus::Active,
        schedule_raw: None,
    });
    dag.add_dt_node(DagNode {
        id: dt2,
        schedule: None, // downstream
        effective_schedule: Duration::from_secs(0),
        name: "dt2".to_string(),
        status: StStatus::Active,
        schedule_raw: None,
    });
    dag.add_dt_node(DagNode {
        id: dt3,
        schedule: Some(Duration::from_secs(60)),
        effective_schedule: Duration::from_secs(60),
        name: "dt3".to_string(),
        status: StStatus::Active,
        schedule_raw: None,
    });

    dag.add_edge(base, dt1);
    dag.add_edge(dt1, dt2);
    dag.add_edge(dt2, dt3);

    dag.resolve_calculated_schedule(300);

    // dt2 gets min of dt3 = 60s, dt1 gets min of dt2 = 60s
    assert_eq!(
        dag.get_node(dt1).unwrap().effective_schedule,
        Duration::from_secs(60)
    );
    assert_eq!(
        dag.get_node(dt2).unwrap().effective_schedule,
        Duration::from_secs(60)
    );
}

#[test]
fn test_node_name_unknown_base_table() {
    let dag = StDag::new();
    // Node not in the graph → should produce a fallback name
    let name = dag.node_name(&NodeId::BaseTable(99999));
    assert!(name.contains("99999"), "expected OID in name: {}", name);
    assert!(
        name.contains("base_table"),
        "expected 'base_table' prefix: {}",
        name
    );
}

#[test]
fn test_node_name_unknown_stream_table() {
    let dag = StDag::new();
    let name = dag.node_name(&NodeId::StreamTable(42));
    assert!(name.contains("42"), "expected ID in name: {}", name);
    assert!(
        name.contains("stream_table"),
        "expected 'stream_table' prefix: {}",
        name
    );
}

#[test]
fn test_cycle_detection_error_message_contains_node_names() {
    let mut dag = StDag::new();
    let dt1 = NodeId::StreamTable(1);
    let dt2 = NodeId::StreamTable(2);

    dag.add_dt_node(DagNode {
        id: dt1,
        schedule: Some(Duration::from_secs(60)),
        effective_schedule: Duration::from_secs(0),
        name: "my_view_a".to_string(),
        status: StStatus::Active,
        schedule_raw: None,
    });
    dag.add_dt_node(DagNode {
        id: dt2,
        schedule: Some(Duration::from_secs(60)),
        effective_schedule: Duration::from_secs(0),
        name: "my_view_b".to_string(),
        status: StStatus::Active,
        schedule_raw: None,
    });

    dag.add_edge(dt1, dt2);
    dag.add_edge(dt2, dt1); // cycle!

    let err = dag.detect_cycles().unwrap_err();
    let msg = err.to_string();
    // Error message should reference the named nodes
    assert!(
        msg.contains("my_view_a") || msg.contains("my_view_b"),
        "cycle error should contain node names: {}",
        msg
    );
}
