use rat_quickdb::error::QuickDbError;
use rat_quickdb::postgres_utils::{build_json_query_condition, convert_to_jsonb_value};
use rat_quickdb::types::DataValue;

fn compact_json(text: &str) -> String {
    let v: serde_json::Value = serde_json::from_str(text).unwrap();
    v.to_string()
}

#[test]
fn test_json_query_condition_string_search() {
    let (sql, param) =
        build_json_query_condition("profile", &DataValue::String("Rust".to_string()), "$1").unwrap();
    assert_eq!(sql, "profile::text ILIKE $1");
    assert_eq!(param, DataValue::String("%Rust%".to_string()));
}

#[test]
fn test_json_query_condition_exact_match() {
    let json_value = compact_json("{\"theme\": \"dark\"}");
    let (sql, param) =
        build_json_query_condition("settings", &DataValue::Json(json_value.clone()), "$1").unwrap();
    assert_eq!(sql, "settings @> $1");
    assert_eq!(param, DataValue::Json(json_value));
}

#[test]
fn test_json_query_condition_number() {
    let (sql, param) = build_json_query_condition("age", &DataValue::Int(25), "$1").unwrap();
    assert_eq!(sql, "age @> $1");
    assert_eq!(param, DataValue::Json(compact_json("25")));
}

#[test]
fn test_convert_to_jsonb_value_string() {
    let result = convert_to_jsonb_value(&DataValue::String("Rust".to_string())).unwrap();
    assert_eq!(result, DataValue::String("%Rust%".to_string()));
}

#[test]
fn test_convert_to_jsonb_value_json_string() {
    let json_str = "{\"theme\": \"dark\"}";
    let result = convert_to_jsonb_value(&DataValue::String(json_str.to_string())).unwrap();
    assert_eq!(result, DataValue::String(json_str.to_string()));
}

#[test]
fn json_condition_reparses_json_looking_strings() {
    let (sql, param) =
        build_json_query_condition("settings", &DataValue::String(" {\"a\": [1, 2]}".to_string()), "$3").unwrap();
    assert_eq!(sql, "settings @> $3");
    assert_eq!(param, DataValue::Json("{\"a\":[1,2]}".to_string()));
}

#[test]
fn json_condition_searches_invalid_json_as_text() {
    let (sql, param) =
        build_json_query_condition("settings", &DataValue::String("{abc}".to_string()), "$2").unwrap();
    assert_eq!(sql, "settings::text ILIKE $2");
    assert_eq!(param, DataValue::String("%{abc}%".to_string()));
}

#[test]
fn json_condition_null_and_bool_and_array() {
    let (sql, param) = build_json_query_condition("flag", &DataValue::Null, "$1").unwrap();
    assert_eq!(sql, "flag IS NULL");
    assert_eq!(param, DataValue::Null);
    let (sql, param) = build_json_query_condition("flag", &DataValue::Bool(true), "$1").unwrap();
    assert_eq!(sql, "flag @> $1");
    assert_eq!(param, DataValue::Json("true".to_string()));
    let items = vec![DataValue::Int(1), DataValue::String("x".to_string()), DataValue::Float("2.5".to_string())];
    let (sql, param) = build_json_query_condition("tags", &DataValue::Array(items), "$4").unwrap();
    assert_eq!(sql, "tags @> $4");
    assert_eq!(param, DataValue::Json("[1,\"x\",2.5]".to_string()));
}

#[test]
fn jsonb_value_of_scalars_and_bytes() {
    assert_eq!(convert_to_jsonb_value(&DataValue::Int(-42)).unwrap(), DataValue::String("-42".to_string()));
    assert_eq!(convert_to_jsonb_value(&DataValue::Bool(false)).unwrap(), DataValue::String("false".to_string()));
    assert_eq!(convert_to_jsonb_value(&DataValue::Null).unwrap(), DataValue::String("null".to_string()));
    assert_eq!(
        convert_to_jsonb_value(&DataValue::Bytes(vec![1, 2, 3])).unwrap(),
        DataValue::String("\"AQID\"".to_string())
    );
    let obj = DataValue::Object(vec![("k".to_string(), DataValue::String("v\"".to_string()))]);
    assert_eq!(convert_to_jsonb_value(&obj).unwrap(), DataValue::String("{\"k\":\"v\\\"\"}".to_string()));
}

#[test]
fn jsonb_value_refuses_oversized_input() {
    let long = "a".repeat(1048577);
    match convert_to_jsonb_value(&DataValue::String(long)) {
        Err(QuickDbError::ValidationError { field, .. }) => assert_eq!(field, "jsonb_value"),
        other => panic!("unexpected {:?}", other),
    }
    match convert_to_jsonb_value(&DataValue::Bytes(vec![0u8; 1025])) {
        Err(QuickDbError::ValidationError { field, .. }) => assert_eq!(field, "jsonb_bytes"),
        other => panic!("unexpected {:?}", other),
    }
    let many: Vec<DataValue> = (0..1001).map(DataValue::Int).collect();
    match convert_to_jsonb_value(&DataValue::Array(many)) {
        Err(QuickDbError::ValidationError { field, .. }) => assert_eq!(field, "jsonb_array"),
        other => panic!("unexpected {:?}", other),
    }
}

#[test]
fn jsonb_string_limit_counts_bytes() {
    let wide = "中".repeat(400_000);
    match convert_to_jsonb_value(&DataValue::String(wide)) {
        Err(QuickDbError::ValidationError { field, .. }) => assert_eq!(field, "jsonb_value"),
        other => panic!("unexpected {:?}", other.map(|_| ())),
    }
    let narrow = "a".repeat(400_000);
    assert!(convert_to_jsonb_value(&DataValue::String(narrow)).is_ok());
}

#[test]
fn jsonb_texts_keep_readable_json() {
    use_jsonb_text();
}

fn use_jsonb_text() {
    assert_eq!(rat_quickdb::postgres_utils::jsonb_text_of("{\"a\":1}", true), "{\"a\":1}");
    assert_eq!(rat_quickdb::postgres_utils::jsonb_text_of("{bad}", false), "%{bad}%");
    assert_eq!(rat_quickdb::postgres_utils::jsonb_text_of("plain", true), "%plain%");
}
