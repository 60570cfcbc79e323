//! Decoding of the write-ahead log, and the way from triggers to it.

use pg_trickle::catalog::{CdcMode, DtDependency};
use pg_trickle::text_map::TextMap;
use pg_trickle::wal_decoder::{
    abort_wal_transition, advance_wal_transitions, build_pk_hash_from_values,
    check_and_complete_transition, check_decoder_health, complete_wal_transition,
    create_publication, drop_publication, parse_pgoutput_action,
    parse_pgoutput_columns, poll_source_changes, poll_sql_for_source, poll_wal_changes,
    publication_name_for_source, slot_failed, slot_name_for_source, slot_of_dependency,
    start_wal_transition, transition_failed, try_start_transition, write_decoded_change,
    DecodedChange, DecoderHealth, SourceAction, StartDecision, TransitionCheck, WalRow,
};

fn pair(name: &str, sql_type: &str) -> (String, String) {
    (name.to_string(), sql_type.to_string())
}

fn dep(relid: u32, source_type: &str, mode: CdcMode) -> DtDependency {
    DtDependency {
        pgs_id: 1,
        source_relid: relid,
        source_type: source_type.to_string(),
        columns_used: None,
        cdc_mode: mode,
        slot_name: None,
        transition_started_at: None,
    }
}

fn inserted(c: &DecodedChange) -> &str {
    match c {
        DecodedChange::Insert(sql) => sql,
        DecodedChange::Reinitialize => panic!("a statement is expected"),
    }
}

#[test]
fn publications() {
    let t = Some("public.t".to_string());
    assert_eq!(
        create_publication(8, &t, false).unwrap().as_deref(),
        Some("CREATE PUBLICATION \"pgstream_cdc_8\" FOR TABLE public.t")
    );
    assert!(create_publication(8, &t, true).unwrap().is_none());
    assert_eq!(
        create_publication(8, &None, true).unwrap_err().to_string(),
        "stream table not found: Table with OID 8 not found"
    );
    assert_eq!(
        drop_publication(8),
        "DROP PUBLICATION IF EXISTS \"pgstream_cdc_8\""
    );
}

#[test]
fn slots_and_publications_have_different_names() {
    assert_ne!(slot_name_for_source(1), slot_name_for_source(2));
    assert_ne!(publication_name_for_source(1), publication_name_for_source(2));
    assert_ne!(slot_name_for_source(1), publication_name_for_source(1));
}

#[test]
fn failures() {
    assert_eq!(
        transition_failed("Failed to drop publication p", "gone").to_string(),
        "WAL transition error: Failed to drop publication p: gone"
    );
    assert_eq!(
        slot_failed("create", "s1", "full").to_string(),
        "replication slot error: Failed to create replication slot 's1': full"
    );
}

#[test]
fn poll_statement() {
    assert_eq!(
        poll_sql_for_source(8, "pgstream_8"),
        "SELECT lsn::text, xid, data FROM pg_logical_slot_get_changes('pgstream_8', NULL, 10000, 'proto_version', '1', 'publication_names', 'pgstream_cdc_8')"
    );
}

#[test]
fn the_word_behind_the_table_name_decides() {
    assert_eq!(
        parse_pgoutput_action("table public.logs: DELETE: msg[text]:'INSERT:'"),
        Some('D')
    );
    assert_eq!(parse_pgoutput_action("table t: UPDATE: a[text]:'table x: INSERT: '"), Some('U'));
    assert_eq!(parse_pgoutput_action("table t: TRUNCATE: (no column data)"), Some('T'));
    assert_eq!(parse_pgoutput_action("table t: INSERT:"), Some('I'));
    assert_eq!(parse_pgoutput_action("table public.\"a: DELETE: \": INSERT: x[t]:1"), Some('I'));
    assert_eq!(parse_pgoutput_action("table t: insert: x"), None);
    assert_eq!(parse_pgoutput_action("INSERT: x[text]:1"), None);
    assert_eq!(parse_pgoutput_action("table t INSERT: x"), None);
    assert_eq!(parse_pgoutput_action(""), None);
}

#[test]
fn columns_are_split_at_any_space() {
    let line = "table public.t: INSERT: id[integer]:1\tname[text]:'Ann'\u{2003}n[text]:''";
    let cols = parse_pgoutput_columns(line);
    assert_eq!(cols.get("id"), Some("1"));
    assert_eq!(cols.get("name"), Some("Ann"));
    assert_eq!(cols.get("n"), Some(""));
    assert_eq!(cols.get("other"), None);
}

#[test]
fn types_and_quoted_values_may_have_spaces() {
    let line = "table public.t: INSERT: name[character varying]:'Alice Smith' tags[text[]]:'{a,b}' \
                at[timestamp without time zone]:'2026-01-01 10:00:00' n[integer]:7";
    let cols = parse_pgoutput_columns(line);
    assert_eq!(cols.get("name"), Some("Alice Smith"));
    assert_eq!(cols.get("tags"), Some("{a,b}"));
    assert_eq!(cols.get("at"), Some("2026-01-01 10:00:00"));
    assert_eq!(cols.get("n"), Some("7"));
}

#[test]
fn doubled_quotes_do_not_close_a_value() {
    let cols = parse_pgoutput_columns("table t: DELETE: a[text]:'it''s b[c]:1' b[text]:'x y");
    assert_eq!(cols.get("a"), Some("it''s b[c]:1"));
    assert_eq!(cols.get("b"), Some("x"));
    assert_eq!(cols.get("c"), None);
}

#[test]
fn the_last_value_of_a_column_counts() {
    let line = "table t: UPDATE: old-key: id[integer]:1 new-tuple: id[integer]:2 junk [x]:3 a[b]";
    let cols = parse_pgoutput_columns(line);
    assert_eq!(cols.get("id"), Some("2"));
    assert_eq!(cols.get(""), Some("3"));
    assert_eq!(cols.get("a"), None);
}

#[test]
fn values_start_behind_the_action() {
    let line = "table t: DELETE: msg[text]:'INSERT: id[integer]:9'";
    let cols = parse_pgoutput_columns(line);
    assert_eq!(cols.get("msg"), Some("INSERT: id[integer]:9"));
    assert_eq!(cols.get("id"), None);
    assert_eq!(parse_pgoutput_columns("table t: INSERT:a[b]:1").get("a"), Some("1"));
    assert!(parse_pgoutput_columns("table t: INSERT:").is_empty());
    assert!(parse_pgoutput_columns("table t: TRUNCATE: a[b]:1").is_empty());
    assert!(parse_pgoutput_columns("BEGIN 77").is_empty());
}

#[test]
fn hashes_of_parsed_values() {
    let mut parsed = TextMap::new();
    parsed.insert("a".to_string(), "O'Hara".to_string());
    let key = |names: &[&str]| -> Vec<String> { names.iter().map(|n| n.to_string()).collect() };
    assert_eq!(build_pk_hash_from_values(&key(&[]), &parsed), "0");
    assert_eq!(
        build_pk_hash_from_values(&key(&["a"]), &parsed),
        "pgstream.pg_stream_hash('O''Hara')"
    );
    assert_eq!(build_pk_hash_from_values(&key(&["b"]), &parsed), "0");
    assert_eq!(
        build_pk_hash_from_values(&key(&["a", "b"]), &parsed),
        "pgstream.pg_stream_hash_multi(ARRAY['O''Hara', NULL])"
    );
}

#[test]
fn decoded_changes() {
    let pk = vec!["id".to_string()];
    let cols = vec![pair("id", "integer"), pair("a\"b", "text")];
    let line = |action: &str| format!("table t: {}: id[integer]:1", action);
    assert_eq!(
        inserted(&write_decoded_change(7, "0/1", 'I', &line("INSERT"), "chg", &pk, &cols)),
        "INSERT INTO chg.changes_7 (lsn, action, pk_hash, \"new_id\", \"new_a\"\"b\") VALUES ('0/1'::pg_lsn, 'I', pgstream.pg_stream_hash('1'), '1', NULL)"
    );
    assert_eq!(
        inserted(&write_decoded_change(7, "0/1", 'U', &line("UPDATE"), "chg", &pk, &cols)),
        "INSERT INTO chg.changes_7 (lsn, action, pk_hash, \"new_id\", \"old_id\", \"new_a\"\"b\", \"old_a\"\"b\") VALUES ('0/1'::pg_lsn, 'U', pgstream.pg_stream_hash('1'), '1', NULL, NULL, NULL)"
    );
    assert_eq!(
        inserted(&write_decoded_change(7, "0/1", 'D', &line("DELETE"), "chg", &Vec::new(), &cols)),
        "INSERT INTO chg.changes_7 (lsn, action, \"old_id\", \"old_a\"\"b\") VALUES ('0/1'::pg_lsn, 'D', '1', NULL)"
    );
    assert!(matches!(
        write_decoded_change(7, "0/1", 'T', &line("TRUNCATE"), "chg", &pk, &cols),
        DecodedChange::Reinitialize
    ));
}

#[test]
fn every_polled_row_moves_the_position() {
    let row = |lsn: &str, data: &str| WalRow { lsn: lsn.to_string(), data: data.to_string() };
    let rows = vec![
        row("0/1", "BEGIN 5"),
        row("0/2", "table t: INSERT: id[integer]:4"),
        row("0/3", "table t: TRUNCATE: (no column data)"),
        row("0/4", "COMMIT 5"),
    ];
    let cols = vec![pair("id", "integer")];
    let batch = poll_wal_changes(7, &rows, "chg", &Vec::new(), &cols);
    assert_eq!(batch.changes.len(), 2);
    assert_eq!(
        inserted(&batch.changes[0]),
        "INSERT INTO chg.changes_7 (lsn, action, \"new_id\") VALUES ('0/2'::pg_lsn, 'I', '4')"
    );
    assert!(matches!(batch.changes[1], DecodedChange::Reinitialize));
    assert_eq!(batch.last_lsn.as_deref(), Some("0/4"));

    let empty = poll_wal_changes(7, &Vec::new(), "chg", &Vec::new(), &cols);
    assert!(empty.changes.is_empty());
    assert!(empty.last_lsn.is_none());
}

#[test]
fn catalog_updates() {
    let start = start_wal_transition(7, "0/9");
    assert_eq!(start.mode, CdcMode::Transitioning);
    assert_eq!(start.slot_name.as_deref(), Some("pgstream_7"));
    assert_eq!(start.confirmed_lsn.as_deref(), Some("0/9"));
    let done = complete_wal_transition();
    assert_eq!(done.mode, CdcMode::Wal);
    assert!(done.slot_name.is_none() && done.confirmed_lsn.is_none());
    let back = abort_wal_transition();
    assert_eq!(back.mode, CdcMode::Trigger);
    assert!(back.slot_name.is_none() && back.confirmed_lsn.is_none());
}

#[test]
fn a_dependency_without_slot_uses_the_usual_one() {
    let mut d = dep(7, "TABLE", CdcMode::Wal);
    assert_eq!(slot_of_dependency(&d), "pgstream_7");
    d.slot_name = Some("mine".to_string());
    assert_eq!(slot_of_dependency(&d), "mine");
}

#[test]
fn a_poll_without_rows_records_nothing() {
    let d = dep(7, "TABLE", CdcMode::Wal);
    assert!(poll_source_changes(&d, &None).is_none());
    let u = poll_source_changes(&d, &Some("0/5".to_string())).unwrap();
    assert_eq!(u.mode, CdcMode::Wal);
    assert!(u.slot_name.is_none());
    assert_eq!(u.confirmed_lsn.as_deref(), Some("0/5"));
}

#[test]
fn a_transition_completes_within_the_lag_limit() {
    let mut d = dep(7, "TABLE", CdcMode::Transitioning);
    assert!(matches!(
        check_and_complete_transition(65_536, &d, 300),
        TransitionCheck::Complete
    ));
    assert!(matches!(check_and_complete_transition(65_537, &d, 300), TransitionCheck::Wait));
    d.transition_started_at = Some("2026-01-01".to_string());
    match check_and_complete_transition(65_537, &d, 300) {
        TransitionCheck::CheckTimeout(sql) => assert_eq!(
            sql,
            "SELECT (now() - $1::timestamptz) > interval '300 seconds'"
        ),
        other => panic!("unexpected: {:?}", other),
    }
}

#[test]
fn transitions_start_where_they_can() {
    assert_eq!(try_start_transition(false, true), StartDecision::Unavailable);
    assert_eq!(try_start_transition(true, false), StartDecision::InadequateIdentity);
    assert_eq!(try_start_transition(true, true), StartDecision::Start);
}

#[test]
fn decoder_health() {
    assert_eq!(check_decoder_health(false, 0), DecoderHealth::SlotMissing);
    assert_eq!(check_decoder_health(true, 1_073_741_824), DecoderHealth::Healthy);
    assert_eq!(check_decoder_health(true, 1_073_741_825), DecoderHealth::Lagging);
}

#[test]
fn each_table_is_planned_once() {
    let deps = vec![
        dep(1, "TABLE", CdcMode::Trigger),
        dep(2, "VIEW", CdcMode::Trigger),
        dep(3, "TABLE", CdcMode::Transitioning),
        dep(1, "TABLE", CdcMode::Wal),
        dep(4, "TABLE", CdcMode::Wal),
    ];
    assert_eq!(
        advance_wal_transitions("auto", &deps),
        vec![
            (0, SourceAction::TryStart),
            (2, SourceAction::PollAndCheck),
            (4, SourceAction::PollAndCheckHealth),
        ]
    );
    assert!(advance_wal_transitions("trigger", &deps).is_empty());
}
