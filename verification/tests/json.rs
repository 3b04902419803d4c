use libsql_plugin::json::{parse_json, text_field, Json};
use serde_json::Number;

fn integer(n: i64) -> Json {
    Json::Number(Number::from(n))
}

#[test]
fn reads_every_sort_of_value() {
    let read = parse_json("{\"a\": [null, true, -3, \"x\\u00e9\"], \"b\": {}}").unwrap();
    assert_eq!(
        read.get("a"),
        Some(&Json::List(vec![
            Json::Null,
            Json::Bool(true),
            integer(-3),
            Json::Text("x\u{e9}".to_string()),
        ]))
    );
    assert_eq!(read.get("b"), Some(&Json::Object(vec![])));
    assert_eq!(read.get("c"), None);
}

#[test]
fn refuses_what_is_not_json() {
    assert_eq!(parse_json(""), None);
    assert_eq!(parse_json("{"), None);
    assert_eq!(parse_json("[1] 2"), None);
}

#[test]
fn gives_up_on_deep_nesting() {
    let deep = |n: usize| "[".repeat(n) + &"]".repeat(n);
    assert!(parse_json(&deep(127)).is_some());
    assert!(parse_json(&deep(128)).is_none());
}

#[test]
fn prints_compact_text() {
    let v = Json::object()
        .with("rows", Json::List(vec![integer(1), Json::Null, Json::Bool(false)]))
        .with("ok", Json::Bool(true))
        .with("say", Json::text("a\"b\n"));
    assert_eq!(v.to_text(), "{\"ok\":true,\"rows\":[1,null,false],\"say\":\"a\\\"b\\n\"}");
    assert_eq!(integer(i64::MIN).to_text(), "-9223372036854775808");
}

#[test]
fn a_value_comes_back_from_its_text() {
    let v = Json::List(vec![
        Json::object().with("k", integer(i64::MAX)).with("l", Json::text("\u{1f600}\0")),
        Json::texts(vec!["a".to_string(), String::new()]),
    ]);
    assert_eq!(parse_json(&v.to_text()), Some(v));
}

#[test]
fn the_later_of_two_fields_counts() {
    let v = Json::object().with("k", integer(1)).with("k", integer(2));
    assert_eq!(v.get("k"), Some(&integer(2)));
    assert_eq!(v.to_text(), "{\"k\":2}");
}

#[test]
fn only_objects_have_fields() {
    assert_eq!(Json::Null.with("k", Json::Null), Json::Null);
    assert_eq!(Json::text("k").get("k"), None);
    assert_eq!(Json::text("k").as_str(), Some("k"));
    assert_eq!(Json::Null.as_str(), None);
    assert_eq!(Json::Null.as_array(), None);
    let v = Json::object().with("k", Json::text("t")).with("n", integer(4));
    assert_eq!(text_field(&v, "k"), Some("t"));
    assert_eq!(text_field(&v, "n"), None);
    assert_eq!(text_field(&v, "missing"), None);
}
