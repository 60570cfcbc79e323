//! Reactions to changes of the schema.

use pg_trickle::hooks::{
    detect_schema_change_kind, find_transitive_downstream_dts, handle_alter_table,
    handle_create_trigger, handle_ddl_command, handle_dropped_table, DdlCommand, DdlReaction,
    DropReaction, DroppedObject, SchemaChangeKind, TriggerMessage,
};

fn command(object_type: &str, tag: &str, identity: Option<&str>) -> DdlCommand {
    DdlCommand {
        objid: 1,
        object_type: object_type.to_string(),
        command_tag: tag.to_string(),
        schema_name: None,
        object_identity: identity.map(|i| i.to_string()),
    }
}

fn dropped(object_type: &str) -> DroppedObject {
    DroppedObject {
        objid: 1,
        object_type: object_type.to_string(),
        schema_name: None,
        object_name: None,
        object_identity: None,
    }
}

fn names(v: &[&str]) -> Vec<String> {
    v.iter().map(|s| s.to_string()).collect()
}

#[test]
fn commands_call_for_reactions() {
    match handle_ddl_command(&command("table", "ALTER TABLE", Some("public.t"))) {
        DdlReaction::AlterTable(identity) => assert_eq!(identity, "public.t"),
        other => panic!("unexpected: {:?}", other),
    }
    match handle_ddl_command(&command("table", "ALTER TABLE", None)) {
        DdlReaction::AlterTable(identity) => assert_eq!(identity, "unknown"),
        other => panic!("unexpected: {:?}", other),
    }
    assert!(matches!(
        handle_ddl_command(&command("trigger", "CREATE TRIGGER", None)),
        DdlReaction::CreateTrigger
    ));
    assert!(matches!(
        handle_ddl_command(&command("table", "CREATE TABLE", None)),
        DdlReaction::Nothing
    ));
    assert!(matches!(
        handle_ddl_command(&command("index", "ALTER TABLE", None)),
        DdlReaction::Nothing
    ));
}

#[test]
fn an_altered_source_reinitializes_what_reads_it() {
    let plan = handle_alter_table(&vec![3, 1], &vec![7]);
    assert_eq!(plan.reinitialize, vec![3, 1, 7]);
    assert!(plan.rebuild_capture);
    let none = handle_alter_table(&vec![], &vec![7]);
    assert!(none.reinitialize.is_empty());
    assert!(!none.rebuild_capture);
}

#[test]
fn triggers_on_stream_tables_are_announced() {
    let cmd = command("trigger", "CREATE TRIGGER", Some("trg on public.st"));
    assert!(matches!(handle_create_trigger(&cmd, None, "auto"), TriggerMessage::Silent));
    assert!(matches!(handle_create_trigger(&cmd, Some(false), "off"), TriggerMessage::Silent));
    match handle_create_trigger(&cmd, Some(true), "off") {
        TriggerMessage::Warning(m) => assert_eq!(
            m,
            "pg_stream: trigger trg on public.st is on a stream table, but pg_stream.user_triggers = 'off'. This trigger will NOT fire correctly during refresh. Set pg_stream.user_triggers = 'auto' or 'on' to enable trigger support."
        ),
        other => panic!("unexpected: {:?}", other),
    }
    let unnamed = command("trigger", "CREATE TRIGGER", None);
    match handle_create_trigger(&unnamed, Some(true), "auto") {
        TriggerMessage::Notice(m) => assert_eq!(
            m,
            "pg_stream: trigger (unknown trigger) is on a stream table. It will fire during DIFFERENTIAL refresh with correct TG_OP/OLD/NEW. Note: row-level triggers do NOT fire during FULL refresh. Use REFRESH MODE DIFFERENTIAL to ensure triggers fire on every change."
        ),
        other => panic!("unexpected: {:?}", other),
    }
}

#[test]
fn dropped_tables() {
    assert!(matches!(
        handle_dropped_table(&dropped("table"), true, &vec![1], &vec![]),
        DropReaction::RemoveStreamTable
    ));
    match handle_dropped_table(&dropped("table"), false, &vec![1], &vec![2, 3]) {
        DropReaction::SetError(ids) => assert_eq!(ids, vec![1, 2, 3]),
        other => panic!("unexpected: {:?}", other),
    }
    assert!(matches!(
        handle_dropped_table(&dropped("table"), false, &vec![], &vec![]),
        DropReaction::Nothing
    ));
    assert!(matches!(
        handle_dropped_table(&dropped("index"), true, &vec![1], &vec![]),
        DropReaction::Nothing
    ));
}

#[test]
fn the_cascade_follows_storage_tables() {
    // Stream tables 1..4 are stored in 101..104: 2 reads 1, 3 reads 2, and 1
    // reads 3 again; 4 reads none of them.
    let tables = vec![(1, 101), (2, 102), (3, 103), (4, 104)];
    let deps = vec![(101, 2), (102, 3), (103, 1), (900, 4)];
    let mut found = find_transitive_downstream_dts(&vec![1], &tables, &deps);
    found.sort();
    assert_eq!(found, vec![2, 3]);
    assert!(find_transitive_downstream_dts(&vec![4], &tables, &deps).is_empty());
    assert!(find_transitive_downstream_dts(&vec![], &tables, &deps).is_empty());
    assert!(find_transitive_downstream_dts(&vec![77], &tables, &deps).is_empty());
}

#[test]
fn kinds_of_schema_changes() {
    let used = names(&["id", "v"]);
    assert_eq!(
        detect_schema_change_kind(&used, &names(&["id"])),
        SchemaChangeKind::ColumnChange
    );
    assert_eq!(
        detect_schema_change_kind(&used, &names(&["v", "extra", "id"])),
        SchemaChangeKind::Benign
    );
    assert_eq!(
        detect_schema_change_kind(&Vec::new(), &names(&["id"])),
        SchemaChangeKind::ColumnChange
    );
}
