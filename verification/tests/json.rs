use disrust::json::{parse, Json};

fn text(s: &str) -> Json {
    Json::String(s.to_string())
}

#[test]
fn parse_reads_every_kind_of_value() {
    let doc = parse(r#"{"a":[1,"x",null,true,2.5,-3]}"#).expect("a document");
    let expected = Json::Object(vec![(
        "a".to_string(),
        Json::Array(vec![
            Json::Number(Some(1)),
            text("x"),
            Json::Null,
            Json::Bool(true),
            Json::Number(None),
            Json::Number(Some(-3)),
        ]),
    )]);
    assert_eq!(doc, expected);
}

#[test]
fn parse_rejects_what_is_not_json() {
    assert_eq!(parse(""), None);
    assert_eq!(parse("{"), None);
    assert_eq!(parse("{\"op\":}"), None);
    assert_eq!(parse("hello"), None);
}

#[test]
fn parse_keeps_one_member_for_a_repeated_name() {
    let doc = parse(r#"{"a":1,"a":2}"#).expect("a document");
    assert_eq!(doc, Json::Object(vec![("a".to_string(), Json::Number(Some(2)))]));
}

#[test]
fn parse_reads_numbers_beyond_i64_without_a_value() {
    assert_eq!(parse("9223372036854775807"), Some(Json::Number(Some(i64::MAX))));
    assert_eq!(parse("9223372036854775808"), Some(Json::Number(None)));
    assert_eq!(parse("-9223372036854775808"), Some(Json::Number(Some(i64::MIN))));
}

#[test]
fn parse_reads_nested_objects() {
    let doc = parse(r#"{"d":{"heartbeat_interval":41250},"op":10}"#).expect("a document");
    let d = doc.get("d").expect("member d");
    assert_eq!(d.get("heartbeat_interval").and_then(|v| v.as_i64()), Some(41250));
    assert_eq!(doc.get("op").and_then(|v| v.as_i64()), Some(10));
}

#[test]
fn get_finds_the_first_member_of_that_name() {
    let doc = Json::Object(vec![
        ("k".to_string(), Json::Number(Some(1))),
        ("k".to_string(), Json::Number(Some(2))),
        ("other".to_string(), Json::Null),
    ]);
    assert_eq!(doc.get("k"), Some(&Json::Number(Some(1))));
    assert_eq!(doc.get("other"), Some(&Json::Null));
    assert_eq!(doc.get("missing"), None);
}

#[test]
fn get_is_none_for_what_is_no_object() {
    assert_eq!(Json::Null.get("k"), None);
    assert_eq!(Json::Array(vec![Json::Null]).get("0"), None);
    assert_eq!(text("k").get("k"), None);
}

#[test]
fn take_hands_out_the_member() {
    let doc = Json::Object(vec![
        ("a".to_string(), Json::Number(Some(1))),
        ("d".to_string(), text("payload")),
        ("z".to_string(), Json::Null),
    ]);
    assert_eq!(doc.take("d"), Some(text("payload")));
    assert_eq!(Json::Object(Vec::new()).take("d"), None);
    assert_eq!(Json::Bool(true).take("d"), None);
}

#[test]
fn accessors_answer_only_for_their_own_kind() {
    assert_eq!(text("abc").as_str(), Some("abc"));
    assert_eq!(Json::Number(Some(5)).as_str(), None);
    assert_eq!(Json::Number(Some(5)).as_i64(), Some(5));
    assert_eq!(Json::Number(None).as_i64(), None);
    assert_eq!(text("5").as_i64(), None);
    assert_eq!(Json::Array(vec![Json::Null]).as_array().map(|v| v.len()), Some(1));
    assert_eq!(Json::Object(Vec::new()).as_array(), None);
}
