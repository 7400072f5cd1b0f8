//! JSON values and their text.

use overterm_codex::json::{Json, ObjectBuilder};
use overterm_codex::table::Table;
use overterm_codex::text::{contains, decimal, parse_index, same, starts_with};

#[test]
fn values_are_read_as_what_they_are() {
    assert_eq!(Json::from_text("null"), Some(Json::Null));
    assert_eq!(Json::from_text("true"), Some(Json::Bool(true)));
    assert_eq!(
        Json::from_text("18446744073709551615"),
        Some(Json::Unsigned(u64::MAX))
    );
    assert_eq!(Json::from_text("-3"), Some(Json::Signed(-3)));
    assert!(matches!(Json::from_text("1.5"), Some(Json::Float(_))));
    assert_eq!(Json::from_text("\"a\\u00e9\""), Some(Json::text("aé")));
    assert_eq!(
        Json::from_text("[1, []]"),
        Some(Json::List(vec![Json::Unsigned(1), Json::List(vec![])]))
    );
    assert_eq!(Json::from_text("{"), None);
    assert_eq!(
        Json::from_slice(b"[1,").unwrap_err(),
        "EOF while parsing a value at line 1 column 3"
    );
}

#[test]
fn text_is_compact_and_sorted_and_is_read_back() {
    let value = ObjectBuilder::new()
        .with("b", Json::text("line\nbreak \"quoted\""))
        .with("a", Json::List(vec![Json::Null, Json::Bool(false)]))
        .with("c", Json::from_text("2.50").unwrap())
        .build();
    let text = value.to_text();
    assert_eq!(
        text,
        r#"{"a":[null,false],"b":"line\nbreak \"quoted\"","c":2.5}"#
    );
    assert_eq!(Json::from_text(&text), Some(value.clone()));
    assert_eq!(Json::from_slice(text.as_bytes()), Ok(value));
}

#[test]
fn nesting_is_read_up_to_its_limit() {
    let nested = |depth: usize| format!("{}{}", "[".repeat(depth), "]".repeat(depth));
    assert!(Json::from_text(&nested(127)).is_some());
    assert!(Json::from_text(&nested(128)).is_none());
}

#[test]
fn members_are_found_by_name() {
    let value = Json::from_text(r#"{"n": 7, "s": "x", "l": [1], "m": -1}"#).unwrap();
    assert_eq!(value.unsigned_at("n"), Some(7));
    assert_eq!(value.unsigned_at("m"), None);
    assert_eq!(value.text_at("s"), Some("x"));
    assert_eq!(value.text_at("n"), None);
    assert_eq!(value.get("l").and_then(Json::as_array).map(Vec::len), Some(1));
    assert_eq!(value.member_or_null("absent"), Json::Null);
    assert_eq!(Json::Null.get("n"), None);
    assert_eq!(Json::text("t").as_str(), Some("t"));
    assert_eq!(Json::Signed(4).as_u64(), Some(4));
}

#[test]
fn the_crossing_to_serde_keeps_a_value() {
    let text = r#"{"a":[1,-2,0.5,"x",null,true],"b":{}}"#;
    let value = Json::from_text(text).unwrap();
    let outside = value.to_serde();
    assert_eq!(outside.to_string(), text);
    assert_eq!(Json::from_serde(outside), value);
}

#[test]
fn objects_are_equal_in_any_order() {
    assert_eq!(
        Json::from_text(r#"{"a":1,"b":2}"#),
        Json::from_text(r#"{"b":2,"a":1}"#)
    );
    assert!(Json::from_text(r#"{"a":1}"#) != Json::from_text(r#"{"a":2}"#));
    assert!(Json::from_text(r#"{"a":1}"#) != Json::from_text(r#"{"b":1}"#));
}

#[test]
fn a_table_files_each_key_once() {
    let mut table: Table<u64> = Table::new();
    table.insert("a".to_owned(), 1);
    table.insert("b".to_owned(), 2);
    table.insert("a".to_owned(), 3);
    assert_eq!(table.len(), 2);
    assert_eq!(table.get("a"), Some(&3));
    let mut other = 9;
    assert!(table.swap("b", &mut other));
    assert_eq!(other, 2);
    assert!(!table.swap("c", &mut other));
    assert_eq!(table.remove("a"), Some(3));
    assert_eq!(table.remove("a"), None);
    assert_eq!(table.drain(), vec![("b".to_owned(), 9)]);
    assert_eq!(table.len(), 0);
}

#[test]
fn text_helpers_agree_with_their_contracts() {
    assert_eq!(decimal(0), "0");
    assert_eq!(decimal(u64::MAX), "18446744073709551615");
    assert_eq!(parse_index("+012"), Some(12));
    assert_eq!(parse_index(""), None);
    assert_eq!(parse_index("+"), None);
    assert_eq!(parse_index("-1"), None);
    assert_eq!(parse_index("18446744073709551616"), None);
    assert!(same("é", "é"));
    assert!(!same("e", "ee"));
    assert!(starts_with("no-client-found: x", "no-client-found"));
    assert!(!starts_with("no-client", "no-client-found"));
    assert!(starts_with("x", ""));
    assert!(contains("a mismatch here", "mismatch"));
    assert!(contains("mismatch", "mismatch"));
    assert!(contains("", ""));
    assert!(!contains("mismatc", "mismatch"));
    assert!(!contains("mismatmismatc", "mismatch"));
}
