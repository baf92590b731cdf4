use reddt_ingest::document::{parse, Json, Member};

#[test]
fn parse_reads_every_kind_of_value() {
    assert_eq!(parse("null"), Some(Json::Null));
    assert_eq!(parse("true"), Some(Json::Bool(true)));
    assert_eq!(parse("false"), Some(Json::Bool(false)));
    assert_eq!(parse("42"), Some(Json::Number("42".to_string())));
    assert_eq!(parse("-7"), Some(Json::Number("-7".to_string())));
    assert_eq!(parse("1.5"), Some(Json::Number("1.5".to_string())));
    assert_eq!(parse("\"a\\nb\""), Some(Json::Text("a\nb".to_string())));
    assert_eq!(
        parse("[1, \"x\", [null]]"),
        Some(Json::Array(vec![
            Json::Number("1".to_string()),
            Json::Text("x".to_string()),
            Json::Array(vec![Json::Null]),
        ]))
    );
}

#[test]
fn parse_reads_an_object_member_by_member() {
    assert_eq!(
        parse("{\"a\": {\"b\": \"c\"}}"),
        Some(Json::Object(vec![Member {
            key: "a".to_string(),
            value: Json::Object(vec![Member {
                key: "b".to_string(),
                value: Json::Text("c".to_string()),
            }]),
        }]))
    );
}

#[test]
fn parse_does_not_hand_the_text_back() {
    let text = "\"plain\"";
    assert_eq!(parse(text), Some(Json::Text("plain".to_string())));
    assert_ne!(parse(text), Some(Json::Text(text.to_string())));
}

#[test]
fn parse_rejects_what_is_no_json() {
    assert_eq!(parse(""), None);
    assert_eq!(parse("{"), None);
    assert_eq!(parse("[1,]"), None);
    assert_eq!(parse("{} trailing"), None);
    assert_eq!(parse("<html></html>"), None);
}

#[test]
fn parse_is_the_same_on_the_same_text() {
    let text = "{\"data\":{\"children\":[{\"kind\":\"more\"}]}}";
    assert_eq!(parse(text), parse(text));
}

#[test]
fn get_reads_a_missing_member_as_null() {
    let doc = parse("{\"a\": 1, \"b\": {\"c\": \"d\"}}").unwrap();
    assert_eq!(doc.get("a"), &Json::Number("1".to_string()));
    assert_eq!(doc.get("b").get("c"), &Json::Text("d".to_string()));
    assert_eq!(doc.get("zzz"), &Json::Null);
    assert_eq!(doc.get("zzz").get("deeper"), &Json::Null);
    assert_eq!(Json::Text("a".to_string()).get("a"), &Json::Null);
    assert_eq!(Json::Array(vec![]).get("a"), &Json::Null);
}

#[test]
fn get_takes_the_first_member_of_a_name() {
    let doc = Json::Object(vec![
        Member { key: "k".to_string(), value: Json::Bool(true) },
        Member { key: "k".to_string(), value: Json::Bool(false) },
    ]);
    assert_eq!(doc.get("k"), &Json::Bool(true));
}
