use psy::json::{json_get_index, json_get_key, json_keys, json_parse, json_set, json_to_string, Json};

#[test]
fn reads_json_text() {
    assert_eq!(
        json_parse("  [1, 2.5, \"x\", true, null]  "),
        Ok(Json::Array(vec![
            Json::Number("1".to_string()),
            Json::Number("2.5".to_string()),
            Json::Str("x".to_string()),
            Json::Bool(true),
            Json::Null,
        ]))
    );
    let err = json_parse("{oops").unwrap_err();
    assert!(err.starts_with("JSON_PARSE error: "));
}

#[test]
fn lists_keys_in_map_order() {
    assert_eq!(json_keys("{\"b\": 1, \"a\": 2}"), Ok(vec!["a".to_string(), "b".to_string()]));
    assert_eq!(json_keys("[1]"), Err("JSON_KEYS requires a JSON object".to_string()));
    assert!(json_keys("{").unwrap_err().starts_with("JSON_KEYS parse error: "));
}

#[test]
fn gets_by_key_and_index() {
    assert_eq!(json_get_key("{\"a\": {\"b\": 3}}", "a"), Ok(Json::Object(vec![("b".to_string(), Json::Number("3".to_string()))])));
    assert_eq!(json_get_key("{\"a\": 1}", "z"), Err("Key 'z' not found".to_string()));
    assert_eq!(json_get_key("[1]", "a"), Err("Key 'a' not found".to_string()));
    assert_eq!(json_get_index("[10, 20]", 1), Ok(Json::Number("20".to_string())));
    assert_eq!(json_get_index("[10, 20]", 2), Err("Index 2 out of bounds".to_string()));
    assert_eq!(json_get_index("{\"a\": 1}", 0), Err("Index 0 out of bounds".to_string()));
    assert!(json_get_index("nope", 0).unwrap_err().starts_with("JSON_GET parse error: "));
}

#[test]
fn sets_a_key() {
    assert_eq!(json_set("{\"b\": 1}", "a".to_string(), Json::Bool(true)), Ok("{\"a\":true,\"b\":1}".to_string()));
    assert_eq!(json_set("{\"a\": 1}", "a".to_string(), Json::Str("x".to_string())), Ok("{\"a\":\"x\"}".to_string()));
    assert_eq!(
        json_set("[]", "a".to_string(), Json::Null),
        Err("JSON_SET requires a JSON object as first argument".to_string())
    );
    assert!(json_set("{", "a".to_string(), Json::Null).unwrap_err().starts_with("JSON_SET parse error: "));
    assert_eq!(json_to_string(&Json::Array(vec![Json::Number("1.5".to_string()), Json::Null])), "[1.5,null]");
}
