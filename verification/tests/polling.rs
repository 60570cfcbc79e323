//! The poller of the terminal interface: actions, errors and samples.

use pg_trickle::text_map::TextMap;
use pg_trickle::tui::poller::{
    action_statement, execute_action, poll_diagnostics, poll_stream_tables, push_sample,
    recommendations, rows_or_clear, rows_or_keep, summary_or_clear, ActionReply, ActionRequest,
    DiagRow, ReplyKind,
};

fn t(s: &str) -> String {
    s.to_string()
}

#[test]
fn actions_run_statements() {
    let cases = vec![
        (
            ActionRequest::RefreshTable(t("a")),
            "SELECT pgtrickle.refresh_stream_table($1)",
            vec!["a"],
            "Refreshed a",
        ),
        (
            ActionRequest::RefreshAll,
            "SELECT pgtrickle.refresh_all_stream_tables()",
            vec![],
            "Refreshed all stream tables",
        ),
        (
            ActionRequest::PauseTable(t("a")),
            "SELECT pgtrickle.alter_stream_table($1, status => 'paused')",
            vec!["a"],
            "Paused a",
        ),
        (
            ActionRequest::ResumeTable(t("a")),
            "SELECT pgtrickle.alter_stream_table($1, status => 'active')",
            vec!["a"],
            "Resumed a",
        ),
        (
            ActionRequest::ResetFuse(t("a"), t("skip")),
            "SELECT pgtrickle.reset_fuse($1, $2)",
            vec!["a", "skip"],
            "Reset fuse for a (strategy: skip)",
        ),
        (
            ActionRequest::RepairTable(t("a")),
            "SELECT pgtrickle.repair_stream_table($1)",
            vec!["a"],
            "Repaired a",
        ),
        (
            ActionRequest::GateSource(t("s")),
            "SELECT pgtrickle.gate_source($1)",
            vec!["s"],
            "Gated source s",
        ),
        (
            ActionRequest::UngateSource(t("s")),
            "SELECT pgtrickle.ungate_source($1)",
            vec!["s"],
            "Ungated source s",
        ),
    ];
    for (action, sql, params, message) in &cases {
        let s = action_statement(action);
        assert_eq!(s.sql, *sql);
        assert_eq!(s.params, *params);
        assert_eq!(s.reply, ReplyKind::Nothing);
        let r = execute_action(action, &ActionReply::Done);
        assert!(r.success);
        assert_eq!(r.message, *message);
    }
}

#[test]
fn actions_that_send_something_back() {
    let delta = ActionRequest::FetchDeltaSql(t("a"));
    assert_eq!(action_statement(&delta).sql, "SELECT pgtrickle.explain_delta($1)");
    assert_eq!(action_statement(&delta).reply, ReplyKind::Text);
    let r = execute_action(&delta, &ActionReply::Text(t("WITH x")));
    assert!(r.success);
    assert_eq!(r.message, "WITH x");
    let ddl = ActionRequest::FetchDdl(t("a"));
    assert_eq!(action_statement(&ddl).sql, "SELECT pgtrickle.export_definition($1)");
    let check = ActionRequest::ValidateQuery(t("SELECT 1"));
    assert_eq!(
        action_statement(&check).sql,
        "SELECT check_name::text, result::text, severity::text FROM pgtrickle.validate_query($1)"
    );
    assert_eq!(action_statement(&check).params, vec!["SELECT 1"]);
    let r = execute_action(
        &check,
        &ActionReply::Checks(vec![
            (t("parse"), t("ok"), t("INFO")),
            (t("keys"), t("none"), t("WARN")),
        ]),
    );
    assert!(r.success);
    assert_eq!(r.message, "[INFO] parse: ok\n[WARN] keys: none\n");
}

#[test]
fn failed_actions_tell_why() {
    for action in [ActionRequest::RefreshAll, ActionRequest::FetchDdl(t("a"))] {
        let r = execute_action(&action, &ActionReply::Failed(t("down")));
        assert!(!r.success);
        assert_eq!(r.message, "Error: down");
    }
}

#[test]
fn a_poll_that_succeeds_clears_its_own_error() {
    let failed = poll_stream_tables(&None, &Some(t("timeout")));
    assert_eq!(failed.as_deref(), Some("poll_stream_tables: timeout"));
    assert_eq!(poll_stream_tables(&failed, &None), None);
    let other = Some(t("disk full"));
    assert_eq!(poll_stream_tables(&other, &None), other);
    assert_eq!(
        poll_stream_tables(&other, &Some(t("x"))).as_deref(),
        Some("poll_stream_tables: x")
    );
}

#[test]
fn sparklines_keep_the_last_samples() {
    let mut samples: Vec<u32> = Vec::new();
    for i in 0..25 {
        push_sample(&mut samples, i);
    }
    assert_eq!(samples, (5..25).collect::<Vec<u32>>());
}

#[test]
fn failed_polls_keep_or_clear() {
    assert_eq!(rows_or_keep(vec![1], Some(vec![2, 3])), vec![2, 3]);
    assert_eq!(rows_or_keep(vec![1], None), vec![1]);
    assert_eq!(rows_or_clear(Some(vec![2])), (vec![2], true));
    assert_eq!(rows_or_clear::<i32>(None), (vec![], false));
    assert_eq!(summary_or_clear(Some(1), Some(Some(2))), (Some(2), true));
    assert_eq!(summary_or_clear(Some(1), Some(None)), (Some(1), true));
    assert_eq!(summary_or_clear(Some(1), None), (None, false));
}

fn diag(name: &str, signals: Option<&str>) -> DiagRow {
    DiagRow {
        schema: t("app"),
        name: t(name),
        current_mode: t("FULL"),
        recommended_mode: t("DIFFERENTIAL"),
        confidence: t("high"),
        reason: t("small delta"),
        signals_text: signals.map(t),
    }
}

#[test]
fn signals_are_compact_json() {
    let mut map = TextMap::new();
    let rows = vec![
        diag("a", Some("{ \"n\" : 1 ,\n \"b\": [ true ] }")),
        diag("b", Some("not json")),
        diag("c", None),
    ];
    let recs = poll_diagnostics(&rows, &mut map);
    assert_eq!(recs.len(), 3);
    let parsed: serde_json::Value = serde_json::from_str(recs[0].signals.as_ref().unwrap()).unwrap();
    assert_eq!(parsed["n"], 1);
    assert_eq!(parsed["b"][0], true);
    assert!(!recs[0].signals.as_ref().unwrap().contains(' '));
    assert!(recs[1].signals.is_none());
    assert!(recs[2].signals.is_none());
    assert_eq!(map.get("a"), recs[0].signals.as_deref());
    assert_eq!(map.get("b"), None);
}

#[test]
fn recommendations_take_over_their_rows() {
    let mut map = TextMap::new();
    map.insert(t("a"), t("1"));
    let rows = vec![diag("a", None), diag("b", None)];
    let recs = recommendations(&rows, &vec![None, Some(t("2"))], &mut map);
    assert_eq!(recs[0].schema, "app");
    assert_eq!(recs[0].name, "a");
    assert_eq!(recs[0].current_mode, "FULL");
    assert_eq!(recs[0].recommended_mode, "DIFFERENTIAL");
    assert_eq!(recs[0].confidence, "high");
    assert_eq!(recs[0].reason, "small delta");
    assert_eq!(recs[1].signals.as_deref(), Some("2"));
    assert_eq!(map.get("a"), Some("1"));
    assert_eq!(map.get("b"), Some("2"));
}
