//! Quoting, searching and replacing in SQL text.

use pg_trickle::dvm::operators::filter::{replace_column_refs_in_raw, replace_word_boundary};
use pg_trickle::lexical::{is_whitespace, parse_i32, parse_u64, trim};
use pg_trickle::sql_builder::{
    ident, list_idents, list_idents_owned, literal, qualified, regclass, spi_param,
};
use pg_trickle::text::{i64_text, u32_text, u64_text, usize_text};
use pg_trickle::text_map::TextMap;

const SAMPLES: [&str; 9] = [
    "",
    "a",
    "\"",
    "'",
    "a\"b'c",
    "\"\"\"",
    "''",
    "na\u{ef}ve \u{1F600}",
    "back\\slash; DROP TABLE x --",
];

fn unquoted(s: &str, quote: char) -> Option<String> {
    let inner = s.strip_prefix(quote)?.strip_suffix(quote)?;
    let mut r = String::new();
    let mut chars = inner.chars();
    while let Some(c) = chars.next() {
        if c == quote && chars.next() != Some(quote) {
            return None;
        }
        r.push(c);
    }
    Some(r)
}

#[test]
fn quoted_names_and_values_read_back() {
    for s in SAMPLES {
        assert_eq!(unquoted(&ident(s), '"').as_deref(), Some(s));
        assert_eq!(unquoted(&literal(s), '\'').as_deref(), Some(s));
    }
}

#[test]
fn different_names_stay_different() {
    for a in SAMPLES {
        for b in SAMPLES {
            assert_eq!(ident(a) == ident(b), a == b);
            assert_eq!(literal(a) == literal(b), a == b);
        }
    }
}

#[test]
fn qualified_names_are_two_quoted_names() {
    for a in SAMPLES {
        for b in SAMPLES {
            assert_eq!(qualified(a, b), format!("{}.{}", ident(a), ident(b)));
        }
    }
}

#[test]
fn lists_are_separated_by_commas() {
    assert_eq!(list_idents(&[]), "");
    assert_eq!(list_idents(&["a"]), "\"a\"");
    assert_eq!(list_idents(&["a", "b\"c"]), "\"a\", \"b\"\"c\"");
    let owned: Vec<String> = SAMPLES.iter().map(|s| s.to_string()).collect();
    assert_eq!(list_idents_owned(&owned), list_idents(&SAMPLES));
}

#[test]
fn parameters_and_classes() {
    assert_eq!(spi_param(1), "$1");
    assert_eq!(spi_param(usize::MAX), format!("${}", usize::MAX));
    assert_eq!(regclass(u32::MAX), "4294967295::oid::regclass");
}

#[test]
fn words_end_where_no_ascii_letter_digit_or_underscore_is() {
    assert_eq!(replace_word_boundary("id + id2 + _id", "id", "X"), "X + id2 + _id");
    assert_eq!(replace_word_boundary("t.id = 1", "id", "X"), "t.X = 1");
    assert_eq!(
        replace_word_boundary("\u{3b1}id id\u{3b1} id aid Zid 0id id9", "id", "X"),
        "\u{3b1}X X\u{3b1} X aid Zid 0id id9"
    );
    assert_eq!(replace_word_boundary("'id' || id", "id", "X"), "'id' || X");
    assert_eq!(replace_word_boundary("abc", "", "X"), "abc");
    assert_eq!(replace_word_boundary("no such", "word", "X"), "no such");
}

#[test]
fn columns_get_the_names_that_joins_gave_them() {
    let cols: Vec<String> =
        ["l__id", "r__total", "l__x", "r__x"].iter().map(|c| c.to_string()).collect();
    assert_eq!(
        replace_column_refs_in_raw("id > total AND x = 1", &cols),
        "\"l__id\" > \"r__total\" AND x = 1"
    );
    let with_own: Vec<String> = ["l__id", "id"].iter().map(|c| c.to_string()).collect();
    assert_eq!(replace_column_refs_in_raw("id > 1", &with_own), "id > 1");
}

#[test]
fn white_space_is_that_of_unicode() {
    for c in '\u{0}'..=char::MAX {
        assert_eq!(is_whitespace(c), c.is_whitespace(), "{c:?}");
    }
}

#[test]
fn numbers_read_back() {
    for n in [0, 7, 10, 1_000, u64::MAX - 1, u64::MAX] {
        assert_eq!(u64_text(n), n.to_string());
        assert_eq!(parse_u64(&u64_text(n)), Some(n));
    }
    for n in [i64::MIN, -10, -1, 0, 9, i64::MAX] {
        assert_eq!(i64_text(n), n.to_string());
    }
    assert_eq!(u32_text(u32::MAX), "4294967295");
    assert_eq!(usize_text(120), "120");
}

#[test]
fn texts_that_are_no_numbers() {
    for s in ["", "+", "-1", " 1", "1 ", "1x", "18446744073709551616"] {
        assert_eq!(parse_u64(s), None);
    }
    assert_eq!(parse_u64("+5"), Some(5));
    assert_eq!(parse_u64("0005"), Some(5));
    assert_eq!(parse_i32("-2147483648"), Some(i32::MIN));
    assert_eq!(parse_i32("2147483648"), None);
    assert_eq!(parse_i32("+7"), Some(7));
    assert_eq!(parse_i32("--7"), None);
}

#[test]
fn white_space_of_any_kind_is_trimmed() {
    assert_eq!(trim(" \t\u{2003}a b\u{a0}\n"), "a b");
    assert_eq!(trim("\u{3000}"), "");
    assert_eq!(trim("\u{200b}a"), "\u{200b}a");
}

#[test]
fn the_latest_entry_is_found() {
    let mut m = TextMap::new();
    assert!(m.is_empty());
    m.insert("a".to_string(), "1".to_string());
    m.insert("b".to_string(), "2".to_string());
    m.insert("a".to_string(), "3".to_string());
    assert!(!m.is_empty());
    assert_eq!(m.get("a"), Some("3"));
    assert_eq!(m.get("b"), Some("2"));
    assert_eq!(m.get("c"), None);
}
