use rat_quickdb::json_input::{is_condition_groups_query, parse_conditions_json, parse_json_to_data_map, JsonInputError};
use rat_quickdb::types::{DataValue, QueryOperator};

fn field<'a>(fields: &'a [(String, DataValue)], key: &str) -> Option<&'a DataValue> {
    fields.iter().find(|(k, _)| k == key).map(|(_, v)| v)
}

#[test]
fn data_maps_read_scalars_by_kind() {
    let fields = parse_json_to_data_map(
        r#"{"name":"Ann \"A\"","age":30,"debt":-5,"score":1.5,"big":18446744073709551615,"ok":true,"none":null}"#,
    )
    .unwrap();
    assert_eq!(fields.len(), 7);
    assert_eq!(field(&fields, "name"), Some(&DataValue::String("Ann \"A\"".to_string())));
    assert_eq!(field(&fields, "age"), Some(&DataValue::Int(30)));
    assert_eq!(field(&fields, "debt"), Some(&DataValue::Int(-5)));
    assert_eq!(field(&fields, "score"), Some(&DataValue::Float("1.5".to_string())));
    assert_eq!(field(&fields, "big"), Some(&DataValue::Float("18446744073709551615".to_string())));
    assert_eq!(field(&fields, "ok"), Some(&DataValue::Bool(true)));
    assert_eq!(field(&fields, "none"), Some(&DataValue::Null));
}

#[test]
fn data_maps_refuse_what_they_cannot_hold() {
    assert!(matches!(parse_json_to_data_map("not json"), Err(JsonInputError::Unreadable)));
    assert!(matches!(parse_json_to_data_map("[1, 2]"), Err(JsonInputError::NotObject)));
    assert!(matches!(parse_json_to_data_map("\"text\""), Err(JsonInputError::NotObject)));
    match parse_json_to_data_map(r#"{"a":1,"list":[1],"z":{"b":2}}"#) {
        Err(JsonInputError::UnsupportedValue { key }) => assert_eq!(key, "list"),
        other => panic!("unexpected {:?}", other),
    }
    assert_eq!(parse_json_to_data_map("{}").unwrap().len(), 0);
}

#[test]
fn conditions_are_equalities_on_each_field() {
    let conditions = parse_conditions_json(r#"{"name":"Ann","age":30}"#).unwrap();
    assert_eq!(conditions.len(), 2);
    let age = conditions.iter().find(|c| c.field == "age").unwrap();
    assert_eq!(age.operator, QueryOperator::Eq);
    assert_eq!(age.value, DataValue::Int(30));
    let name = conditions.iter().find(|c| c.field == "name").unwrap();
    assert_eq!(name.operator, QueryOperator::Eq);
    assert_eq!(name.value, DataValue::String("Ann".to_string()));
    assert!(matches!(parse_conditions_json("[]"), Err(JsonInputError::NotObject)));
    assert!(matches!(parse_conditions_json("{"), Err(JsonInputError::Unreadable)));
}

#[test]
fn condition_group_queries_are_recognised() {
    assert!(is_condition_groups_query(r#"{"operator":"or","conditions":[]}"#));
    assert!(is_condition_groups_query(r#"[{"a":1},{"operator":"and","conditions":[{"x":1}]}]"#));
    assert!(!is_condition_groups_query(r#"{"operator":"or"}"#));
    assert!(!is_condition_groups_query(r#"{"conditions":[]}"#));
    assert!(!is_condition_groups_query(r#"[{"a":1},[1]]"#));
    assert!(!is_condition_groups_query("[]"));
    assert!(!is_condition_groups_query("oops"));
    assert!(!is_condition_groups_query("42"));
}
