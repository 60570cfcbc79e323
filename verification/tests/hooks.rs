//! Tests of `hooks`.

use pg_trickle::hooks::{DdlCommand, DroppedObject, SchemaChangeKind};

#[test]
fn test_schema_change_kind_eq() {
    assert_eq!(
        SchemaChangeKind::ColumnChange,
        SchemaChangeKind::ColumnChange
    );
    assert_ne!(SchemaChangeKind::ColumnChange, SchemaChangeKind::Benign);
    assert_ne!(SchemaChangeKind::ConstraintChange, SchemaChangeKind::Benign,);
}

#[test]
fn test_ddl_command_debug() {
    let cmd = DdlCommand {
        objid: 0,
        object_type: "table".to_string(),
        command_tag: "ALTER TABLE".to_string(),
        schema_name: Some("public".to_string()),
        object_identity: Some("public.orders".to_string()),
    };
    let debug = format!("{:?}", cmd);
    assert!(debug.contains("ALTER TABLE"));
    assert!(debug.contains("public.orders"));
}

#[test]
fn test_dropped_object_debug() {
    let obj = DroppedObject {
        objid: 0,
        object_type: "table".to_string(),
        schema_name: Some("public".to_string()),
        object_name: Some("orders".to_string()),
        object_identity: Some("public.orders".to_string()),
    };
    let debug = format!("{:?}", obj);
    assert!(debug.contains("public.orders"));
}
