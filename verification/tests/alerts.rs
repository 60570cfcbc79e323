//! Alerts, slot health and explanations.

use pg_trickle::catalog::StreamTableMeta;
use pg_trickle::dag::{RefreshMode, StStatus};
use pg_trickle::dvm::parser::{Column, OpTree};
use pg_trickle::error::PgTrickleError;
use pg_trickle::monitor::{
    alert_auto_suspended, alert_buffer_growth, alert_payload, alert_refresh_completed,
    alert_refresh_failed, alert_reinitialize_needed, check_slot_health_and_alert, completed_extra,
    emit_alert, explain_dt, explain_dt_impl, failed_extra, is_cuttable, pending_changes_sql,
    reinitialize_extra, slot_health_row, split_qualified_name, suspended_extra, AlertEvent,
    FrontierInfo, PlanInfo,
};

const EVENTS: [AlertEvent; 6] = [
    AlertEvent::StaleData,
    AlertEvent::AutoSuspended,
    AlertEvent::ReinitializeNeeded,
    AlertEvent::BufferGrowthWarning,
    AlertEvent::RefreshCompleted,
    AlertEvent::RefreshFailed,
];

#[test]
fn events_have_names_of_their_own() {
    for (i, a) in EVENTS.iter().enumerate() {
        for (j, b) in EVENTS.iter().enumerate() {
            assert_eq!(a.as_str() == b.as_str(), i == j);
        }
    }
}

#[test]
fn payloads_escape_quotes() {
    assert_eq!(
        alert_payload(AlertEvent::StaleData, "s\"1", "t", "\"x\":1"),
        r#"{"event":"stale_data","pgs_schema":"s\"1","pgs_name":"t","dt":"s\"1.t","x":1}"#
    );
}

#[test]
fn payloads_are_json() {
    let payload = alert_payload(
        AlertEvent::RefreshFailed,
        "a\\b",
        "c\nd\u{1f}\u{e9}",
        &failed_extra("FU\"LL", "no \"x\"\tat \\y\u{0}"),
    );
    let v: serde_json::Value = serde_json::from_str(&payload).unwrap();
    assert_eq!(v["pgs_schema"], "a\\b");
    assert_eq!(v["pgs_name"], "c\nd\u{1f}\u{e9}");
    assert_eq!(v["dt"], "a\\b.c\nd\u{1f}\u{e9}");
    assert_eq!(v["action"], "FU\"LL");
    assert_eq!(v["error"], "no \"x\"\tat \\y\u{0}");
    assert_eq!(reinitialize_extra("a\\\u{1b}"), r#""reason":"a\\\u001b""#);
}

#[test]
fn alerts_double_single_quotes() {
    assert_eq!(
        emit_alert(AlertEvent::StaleData, "it's", "t", "\"x\":1"),
        r#"NOTIFY pg_stream_alert, '{"event":"stale_data","pgs_schema":"it''s","pgs_name":"t","dt":"it''s.t","x":1}'"#
    );
}

#[test]
fn alerts_of_each_kind() {
    assert_eq!(
        alert_auto_suspended("s", "t", -3),
        r#"NOTIFY pg_stream_alert, '{"event":"auto_suspended","pgs_schema":"s","pgs_name":"t","dt":"s.t","consecutive_errors":-3}'"#
    );
    assert_eq!(suspended_extra(5), r#""consecutive_errors":5"#);
    assert_eq!(
        alert_reinitialize_needed("s", "t", "a \"b\""),
        r#"NOTIFY pg_stream_alert, '{"event":"reinitialize_needed","pgs_schema":"s","pgs_name":"t","dt":"s.t","reason":"a \"b\""}'"#
    );
    assert_eq!(reinitialize_extra("x"), r#""reason":"x""#);
    assert_eq!(
        alert_buffer_growth("slot\"1", 42),
        r#"NOTIFY pg_stream_alert, '{"event":"buffer_growth_warning","slot_name":"slot\"1","pending_bytes":42}'"#
    );
    assert_eq!(
        alert_refresh_completed("s", "t", "FULL", 1, 2, 3),
        r#"NOTIFY pg_stream_alert, '{"event":"refresh_completed","pgs_schema":"s","pgs_name":"t","dt":"s.t","action":"FULL","rows_inserted":1,"rows_deleted":2,"duration_ms":3}'"#
    );
    assert_eq!(
        completed_extra("FULL", 1, 2, 3),
        r#""action":"FULL","rows_inserted":1,"rows_deleted":2,"duration_ms":3"#
    );
    assert_eq!(
        alert_refresh_failed("s", "t", "FULL", "bad \"x\""),
        r#"NOTIFY pg_stream_alert, '{"event":"refresh_failed","pgs_schema":"s","pgs_name":"t","dt":"s.t","action":"FULL","error":"bad \"x\""}'"#
    );
    assert_eq!(failed_extra("FULL", "e"), r#""action":"FULL","error":"e""#);
}

fn sent(statement: &str) -> &str {
    statement
        .strip_prefix("NOTIFY pg_stream_alert, '")
        .and_then(|s| s.strip_suffix('\''))
        .unwrap()
}

#[test]
fn long_alerts_are_cut() {
    let frame = alert_payload(AlertEvent::StaleData, "s", "t", "").len();
    let fitting = "x".repeat(7900 - frame);
    let whole = emit_alert(AlertEvent::StaleData, "s", "t", &fitting);
    assert_eq!(sent(&whole).len(), 7900);
    assert!(sent(&whole).ends_with("xx}"));

    let long = "x".repeat(7901 - frame);
    let cut = emit_alert(AlertEvent::StaleData, "s", "t", &long);
    assert_eq!(sent(&cut).len(), 7894);
    assert!(sent(&cut).ends_with("xx...}"));
}

#[test]
fn a_cut_falls_between_characters() {
    assert!(is_cuttable(&"\u{20AC}".repeat(2630)));
    assert!(!is_cuttable(&format!("x{}", "\u{20AC}".repeat(2640))));
    assert!(is_cuttable(&"\u{20AC}".repeat(2640)));
    assert!(is_cuttable(&format!("x{}", "\u{20AC}".repeat(20))));
}

#[test]
fn buffers_over_a_million_rows_are_reported() {
    assert!(check_slot_health_and_alert("trg", None).is_none());
    assert!(check_slot_health_and_alert("trg", Some(1_000_000)).is_none());
    assert_eq!(
        check_slot_health_and_alert("trg", Some(1_000_001)).unwrap(),
        alert_buffer_growth("trg", 1_000_001)
    );
    assert_eq!(
        pending_changes_sql("chg", 16384),
        "SELECT count(*)::bigint FROM chg.changes_16384"
    );
}

#[test]
fn names_split_at_the_first_dot() {
    let split = |n: &str| split_qualified_name(n);
    assert_eq!(split("a.b"), ("a".to_string(), "b".to_string()));
    assert_eq!(split("a.b.c"), ("a".to_string(), "b.c".to_string()));
    assert_eq!(split("plain"), ("public".to_string(), "plain".to_string()));
}

#[test]
fn absent_health_has_defaults() {
    let h = slot_health_row(&None, None, None, None, &None);
    assert_eq!(h.slot_name, "");
    assert_eq!(h.source_relid, 0);
    assert!(h.active);
    assert_eq!(h.retained_wal_bytes, 0);
    assert_eq!(h.wal_status, "trigger");
    let h = slot_health_row(
        &Some("s".to_string()),
        Some(4),
        Some(false),
        Some(9),
        &Some("lost".to_string()),
    );
    assert_eq!(h.slot_name, "s");
    assert_eq!(h.source_relid, 4);
    assert!(!h.active);
    assert_eq!(h.retained_wal_bytes, 9);
    assert_eq!(h.wal_status, "lost");
}

fn meta() -> StreamTableMeta {
    StreamTableMeta {
        pgs_id: 1,
        pgs_relid: 2,
        pgs_name: "st".to_string(),
        pgs_schema: "app".to_string(),
        defining_query: "SELECT 1".to_string(),
        schedule: None,
        refresh_mode: RefreshMode::Full,
        status: StStatus::Active,
        is_populated: true,
        data_timestamp: None,
        consecutive_errors: 0,
        needs_reinit: false,
        frontier: None,
    }
}

fn prop(k: &str, v: &str) -> (String, String) {
    (k.to_string(), v.to_string())
}

#[test]
fn explanation_of_a_supported_table() {
    let tree = OpTree::Scan {
        table_oid: 33,
        table_name: "t".to_string(),
        schema: "public".to_string(),
        columns: vec![
            Column { name: "id".to_string(), type_oid: 23, is_nullable: false },
            Column { name: "v".to_string(), type_oid: 25, is_nullable: true },
        ],
        pk_columns: Vec::new(),
        alias: "t".to_string(),
    };
    let plan = PlanInfo::Supported(tree, "printed".to_string(), Ok("DELTA".to_string()));
    let props = explain_dt_impl(&meta(), &plan, &FrontierInfo::Json("{}".to_string()));
    assert_eq!(
        props,
        vec![
            prop("pgs_name", "app.st"),
            prop("defining_query", "SELECT 1"),
            prop("refresh_mode", "FULL"),
            prop("status", "ACTIVE"),
            prop("is_populated", "true"),
            prop("dvm_supported", "true"),
            prop("operator_tree", "printed"),
            prop("output_columns", "id, v"),
            prop("source_oids", "33"),
            prop("delta_query", "DELTA"),
            prop("frontier", "{}"),
        ]
    );
}

#[test]
fn explanation_of_an_unsupported_table() {
    let plan = PlanInfo::Unsupported("no".to_string());
    let props = explain_dt_impl(&meta(), &plan, &FrontierInfo::Absent);
    assert_eq!(props[5..], [
        prop("dvm_supported", "false"),
        prop("dvm_error", "no"),
        prop("frontier", "null"),
    ]);
    let props = explain_dt_impl(&meta(), &plan, &FrontierInfo::Unwritable);
    assert_eq!(props.len(), 7);
}

#[test]
fn a_failed_explanation_tells_why() {
    assert_eq!(
        explain_dt(Err(PgTrickleError::NotFound("app.st".to_string()))),
        vec![prop("error", "stream table not found: app.st")]
    );
    assert_eq!(explain_dt(Ok(vec![prop("a", "b")])), vec![prop("a", "b")]);
}
