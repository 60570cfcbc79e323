//! Tests of `sql_builder`.

use pg_trickle::sql_builder::{ident, list_idents, list_idents_owned, literal, qualified, regclass, spi_param};

#[test]
fn test_ident_simple() {
    assert_eq!(ident("my_table"), r#""my_table""#);
}

#[test]
fn test_ident_reserved_word() {
    assert_eq!(ident("select"), r#""select""#);
}

#[test]
fn test_ident_with_double_quote() {
    assert_eq!(ident(r#"bad"name"#), r#""bad""name""#);
}

#[test]
fn test_ident_empty() {
    assert_eq!(ident(""), r#""""#);
}

#[test]
fn test_ident_uppercase() {
    assert_eq!(ident("MyTable"), r#""MyTable""#);
}

#[test]
fn test_qualified_simple() {
    assert_eq!(qualified("public", "orders"), r#""public"."orders""#);
}

#[test]
fn test_qualified_special_chars() {
    assert_eq!(
        qualified("my schema", "my table"),
        r#""my schema"."my table""#
    );
}

#[test]
fn test_literal_simple() {
    assert_eq!(literal("hello"), "'hello'");
}

#[test]
fn test_literal_single_quote() {
    assert_eq!(literal("it's alive"), "'it''s alive'");
}

#[test]
fn test_literal_multiple_quotes() {
    assert_eq!(literal("it''s"), "'it''''s'");
}

#[test]
fn test_literal_empty() {
    assert_eq!(literal(""), "''");
}

#[test]
fn test_regclass() {
    assert_eq!(regclass(12345), "12345::oid::regclass");
    assert_eq!(regclass(0), "0::oid::regclass");
}

#[test]
fn test_spi_param() {
    assert_eq!(spi_param(1), "$1");
    assert_eq!(spi_param(3), "$3");
    assert_eq!(spi_param(10), "$10");
}

#[test]
fn test_list_idents_empty() {
    assert_eq!(list_idents(&[]), "");
}

#[test]
fn test_list_idents_single() {
    assert_eq!(list_idents(&["col_a"]), r#""col_a""#);
}

#[test]
fn test_list_idents_multiple() {
    assert_eq!(list_idents(&["col_a", "col_b"]), r#""col_a", "col_b""#);
}

#[test]
fn test_list_idents_with_special() {
    assert_eq!(list_idents(&["col a", r#"col"b"#]), r#""col a", "col""b""#);
}

#[test]
fn test_list_idents_owned() {
    let names = vec!["x".to_string(), "y".to_string()];
    assert_eq!(list_idents_owned(&names), r#""x", "y""#);
}
