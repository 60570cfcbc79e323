//! Records of the catalog, and what else is kept between refreshes.

use pg_trickle::catalog::{
    CdcMode, DtDependency, DtDependencyRow, RefreshRecord, StreamTableMeta, StreamTableRow,
};
use pg_trickle::dag::{RefreshMode, StStatus};
use pg_trickle::dvm::diff::Frontier;
use pg_trickle::refresh::phd1::{cleanup_cross_cycle_phantoms, cleanup_outcome};
use pg_trickle::scheduler::cost::compute_per_db_quota;
use pg_trickle::shmem::{current_dag_version, signal_dag_rebuild, PgStreamSharedState};

fn text(s: &str) -> Result<Option<String>, String> {
    Ok(Some(s.to_string()))
}

fn row() -> StreamTableRow {
    StreamTableRow {
        pgs_id: Ok(Some(7)),
        pgs_relid: Ok(Some(900)),
        pgs_name: text("st"),
        pgs_schema: text("app"),
        defining_query: text("SELECT 1"),
        schedule: Ok(None),
        refresh_mode: Ok(None),
        status: Ok(None),
        is_populated: Ok(None),
        data_timestamp: Ok(Some(5)),
        consecutive_errors: Ok(None),
        needs_reinit: Ok(None),
        frontier: Ok(None),
    }
}

#[test]
fn absent_columns_have_defaults() {
    let m = StreamTableMeta::from_row(&row()).unwrap();
    assert_eq!(m.pgs_id, 7);
    assert_eq!(m.pgs_relid, 900);
    assert_eq!(m.pgs_name, "st");
    assert_eq!(m.pgs_schema, "app");
    assert_eq!(m.defining_query, "SELECT 1");
    assert!(m.schedule.is_none());
    assert_eq!(m.refresh_mode, RefreshMode::Differential);
    assert_eq!(m.status, StStatus::Initializing);
    assert!(!m.is_populated);
    assert_eq!(m.data_timestamp, Some(5));
    assert_eq!(m.consecutive_errors, 0);
    assert!(!m.needs_reinit);
    assert!(m.frontier.is_none());
}

#[test]
fn present_columns_are_taken() {
    let mut r = row();
    r.schedule = text("1m");
    r.refresh_mode = text("full");
    r.status = text("SUSPENDED");
    r.is_populated = Ok(Some(true));
    r.data_timestamp = Ok(None);
    r.consecutive_errors = Ok(Some(3));
    r.needs_reinit = Ok(Some(true));
    let mut frontier = Frontier::new();
    frontier.set_lsn(12, "0/1A".to_string());
    r.frontier = Ok(Some(frontier));
    let m = StreamTableMeta::from_row(&r).unwrap();
    assert_eq!(m.schedule.as_deref(), Some("1m"));
    assert_eq!(m.refresh_mode, RefreshMode::Full);
    assert_eq!(m.status, StStatus::Suspended);
    assert!(m.is_populated && m.needs_reinit);
    assert_eq!(m.data_timestamp, None);
    assert_eq!(m.consecutive_errors, 3);
    let copy = m.clone();
    assert_eq!(copy.frontier.unwrap().get_lsn(12), "0/1A");
    assert_eq!(m.frontier.unwrap().get_lsn(13), "0/0");
}

#[test]
fn the_first_failure_is_told() {
    let message = |r: &StreamTableRow| StreamTableMeta::from_row(r).unwrap_err().to_string();
    let mut r = row();
    r.pgs_schema = Ok(None);
    assert_eq!(message(&r), "internal error: pgs_schema is NULL");
    r.pgs_name = Err("bad type".to_string());
    assert_eq!(message(&r), "SPI error: bad type");
    r.pgs_id = Ok(None);
    assert_eq!(message(&r), "internal error: pgs_id is NULL");
    let mut r = row();
    r.refresh_mode = text("sometimes");
    r.status = text("gone");
    assert_eq!(
        message(&r),
        "invalid argument: unknown refresh mode: SOMETIMES. Must be 'FULL' or 'DIFFERENTIAL'"
    );
    let mut r = row();
    r.frontier = Err("y".to_string());
    assert_eq!(message(&r), "SPI error: y");
    r.needs_reinit = Err("x".to_string());
    assert_eq!(message(&r), "SPI error: x");
}

#[test]
fn tables_that_are_not_there() {
    assert_eq!(
        StreamTableMeta::get_by_name(&None, "app", "st").unwrap_err().to_string(),
        "stream table not found: app.st"
    );
    assert_eq!(
        StreamTableMeta::get_by_relid(&None, 900).unwrap_err().to_string(),
        "stream table not found: relid=900"
    );
    assert_eq!(
        StreamTableMeta::updated::<i32>(None, 7).unwrap_err().to_string(),
        "stream table not found: pgs_id=7"
    );
    assert_eq!(
        StreamTableMeta::inserted_id(None).unwrap_err().to_string(),
        "internal error: INSERT did not return pgs_id"
    );
    assert_eq!(
        RefreshRecord::inserted_id(None).unwrap_err().to_string(),
        "internal error: INSERT did not return refresh_id"
    );
}

#[test]
fn tables_that_are_there() {
    assert_eq!(StreamTableMeta::get_by_name(&Some(row()), "x", "y").unwrap().pgs_id, 7);
    assert_eq!(StreamTableMeta::get_by_relid(&Some(row()), 1).unwrap().pgs_id, 7);
    assert_eq!(StreamTableMeta::updated(Some(4), 7).unwrap(), 4);
    assert_eq!(StreamTableMeta::inserted_id(Some(8)).unwrap(), 8);
    assert_eq!(RefreshRecord::inserted_id(Some(9)).unwrap(), 9);
}

#[test]
fn unreadable_rows_are_set_aside() {
    let mut bad = row();
    bad.pgs_id = Ok(None);
    let (records, failures) = StreamTableMeta::get_all_active(&vec![row(), bad, row()]);
    assert_eq!(records.len(), 2);
    assert_eq!(failures.len(), 1);
}

#[test]
fn capture_modes_read_back() {
    for m in [CdcMode::Trigger, CdcMode::Transitioning, CdcMode::Wal] {
        assert_eq!(CdcMode::from_str(m.as_str()).unwrap(), m);
    }
    assert!(CdcMode::from_str("LOGICAL").is_err());
}

#[test]
fn dependencies_of_rows() {
    let mut r = DtDependencyRow {
        pgs_id: Some(1),
        source_relid: Some(2),
        source_type: Some("TABLE".to_string()),
        cdc_mode: None,
        slot_name: None,
        transition_started_at: None,
    };
    let d = DtDependency::from_row(&r).unwrap();
    assert_eq!(d.cdc_mode, CdcMode::Trigger);
    assert_eq!(d.source_type, "TABLE");
    r.cdc_mode = Some("WAL".to_string());
    r.slot_name = Some("s".to_string());
    let d = DtDependency::from_row(&r).unwrap();
    assert_eq!(d.cdc_mode, CdcMode::Wal);
    assert_eq!(d.slot_name.as_deref(), Some("s"));
}

#[test]
fn phantom_cleanup() {
    assert_eq!(
        cleanup_cross_cycle_phantoms("app.st", "hash(x)", "SELECT x FROM t"),
        "WITH current_full AS MATERIALIZED (SELECT hash(x) AS __pgt_row_id FROM (SELECT x FROM t) sub), orphans AS ( SELECT DISTINCT st.__pgt_row_id FROM app.st st WHERE NOT EXISTS ( SELECT 1 FROM current_full cf WHERE cf.__pgt_row_id = st.__pgt_row_id ) LIMIT $1 ), deleted AS ( DELETE FROM app.st st USING orphans o WHERE st.__pgt_row_id = o.__pgt_row_id RETURNING 1 ) SELECT count(*)::bigint FROM deleted"
    );
    assert_eq!(cleanup_outcome(None, 4), (0, None));
    assert_eq!(cleanup_outcome(Some(0), 4), (0, None));
    assert_eq!(
        cleanup_outcome(Some(12), 4),
        (
            12,
            Some("[pg_trickle] EC01-2: cleaned up 12 cross-cycle phantom rows for pgt_id=4".to_string())
        )
    );
}

#[test]
fn rebuild_signals() {
    assert_eq!(signal_dag_rebuild(5, true), 6);
    assert_eq!(signal_dag_rebuild(u64::MAX, true), 0);
    assert_eq!(signal_dag_rebuild(5, false), 5);
    assert_eq!(current_dag_version(5, true), 5);
    assert_eq!(current_dag_version(5, false), 0);
    let s = PgStreamSharedState::default();
    assert_eq!((s.dag_version, s.scheduler_pid, s.scheduler_running), (0, 0, false));
}

#[test]
fn quotas_fall_with_load() {
    let mut last = u32::MAX;
    for active in 0..12 {
        let q = compute_per_db_quota(4, 8, 10, active);
        assert!(q >= 1 && q <= last);
        last = q;
    }
    // Bursts go up to half as much again, below four fifths of the cluster.
    assert_eq!(compute_per_db_quota(4, 8, 10, 7), 6);
    assert_eq!(compute_per_db_quota(4, 8, 10, 8), 4);
}
