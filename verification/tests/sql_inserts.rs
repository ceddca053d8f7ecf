use rat_quickdb::error::QuickDbError;
use rat_quickdb::models::{FieldType, ModelMeta, ModelRegistry};
use rat_quickdb::sql_inserts::{
    field_value_of, mysql_created_record, plan_table_for_insert, postgres_id_value, postgres_insert_result, postgres_insert_values,
    sqlite_array_json, sqlite_bind_value, sqlite_created_id, SqliteValue,
};
use rat_quickdb::types::{DataValue, IdStrategy, OffsetTimestamp, UtcTimestamp};

fn s(v: &str) -> DataValue {
    DataValue::String(v.to_string())
}

fn field(k: &str, v: DataValue) -> (String, DataValue) {
    (k.to_string(), v)
}

fn registry() -> ModelRegistry {
    ModelRegistry {
        models: vec![
            ModelMeta { collection_name: "users".to_string(), database_alias: "main".to_string(), fields: vec![] },
            ModelMeta {
                collection_name: "posts".to_string(),
                database_alias: "main".to_string(),
                fields: vec![("title".to_string(), FieldType::Text)],
            },
        ],
    }
}

#[test]
fn tables_are_created_from_registered_models() {
    let models = registry();
    assert_eq!(plan_table_for_insert(&models, "anything", "x", true).unwrap(), None);
    assert_eq!(plan_table_for_insert(&models, "posts", "main", false).unwrap(), Some(1));
    match plan_table_for_insert(&models, "posts", "other", false) {
        Err(QuickDbError::ValidationError { field, .. }) => assert_eq!(field, "table_creation"),
        other => panic!("unexpected {:?}", other),
    }
}

#[test]
fn sqlite_binds_values_as_storage_classes() {
    assert_eq!(sqlite_bind_value(&s("a")).unwrap(), SqliteValue::Text("a".to_string()));
    assert_eq!(sqlite_bind_value(&DataValue::Bool(true)).unwrap(), SqliteValue::Integer(1));
    assert_eq!(sqlite_bind_value(&DataValue::Bool(false)).unwrap(), SqliteValue::Integer(0));
    assert_eq!(sqlite_bind_value(&DataValue::UInt(7)).unwrap(), SqliteValue::Integer(7));
    assert_eq!(sqlite_bind_value(&DataValue::UInt(u64::MAX)).unwrap(), SqliteValue::Text(u64::MAX.to_string()));
    assert_eq!(sqlite_bind_value(&DataValue::Float("0.5".to_string())).unwrap(), SqliteValue::Real("0.5".to_string()));
    let t = OffsetTimestamp { seconds: 1700000000, nanos: 12, offset_seconds: 3600 };
    assert_eq!(sqlite_bind_value(&DataValue::DateTime(t)).unwrap(), SqliteValue::Integer(1700000000));
    assert_eq!(
        sqlite_bind_value(&DataValue::DateTimeUTC(UtcTimestamp { seconds: -5, nanos: 0 })).unwrap(),
        SqliteValue::Integer(-5)
    );
    assert_eq!(
        sqlite_bind_value(&DataValue::Uuid(0x550e8400_e29b_41d4_a716_446655440000)).unwrap(),
        SqliteValue::Text("550e8400-e29b-41d4-a716-446655440000".to_string())
    );
    assert_eq!(sqlite_bind_value(&DataValue::Json("{\"a\":1}".to_string())).unwrap(), SqliteValue::Text("{\"a\":1}".to_string()));
    assert_eq!(
        sqlite_bind_value(&DataValue::Object(vec![field("k", DataValue::Int(1))])).unwrap(),
        SqliteValue::Text("{\"k\":1}".to_string())
    );
    assert_eq!(sqlite_bind_value(&DataValue::Null).unwrap(), SqliteValue::Null);
    assert_eq!(sqlite_bind_value(&DataValue::Bytes(vec![1, 2])).unwrap(), SqliteValue::Blob(vec![1, 2]));
}

#[test]
fn sqlite_arrays_are_json_string_arrays() {
    let items = vec![s("a\"b"), DataValue::Int(-3), DataValue::Float("2.5".to_string()), DataValue::Uuid(1)];
    assert_eq!(
        sqlite_array_json(&items).unwrap(),
        "[\"a\\\"b\",\"-3\",\"2.5\",\"00000000-0000-0000-0000-000000000001\"]"
    );
    assert_eq!(sqlite_array_json(&vec![]).unwrap(), "[]");
    match sqlite_bind_value(&DataValue::Array(vec![s("a"), DataValue::Bool(true)])) {
        Err(QuickDbError::ValidationError { field, .. }) => assert_eq!(field, "array_field"),
        other => panic!("unexpected {:?}", other),
    }
    assert_eq!(sqlite_bind_value(&DataValue::Array(vec![s("x")])).unwrap(), SqliteValue::Text("[\"x\"]".to_string()));
}

#[test]
fn sqlite_inserts_answer_with_an_id() {
    assert_eq!(sqlite_created_id(&vec![field("id", s("u1")), field("_id", s("u2"))], 9, 1), s("u1"));
    assert_eq!(sqlite_created_id(&vec![field("_id", s("u2"))], 9, 1), s("u2"));
    assert_eq!(sqlite_created_id(&vec![field("name", s("n"))], 9, 1), DataValue::Int(9));
    assert_eq!(
        sqlite_created_id(&vec![], 0, 2),
        DataValue::Object(vec![field("id", DataValue::Int(0)), field("affected_rows", DataValue::Int(2))])
    );
}

#[test]
fn mysql_inserts_answer_with_id_and_row_count() {
    let data = vec![field("id", s("abc"))];
    assert_eq!(
        mysql_created_record(&data, &IdStrategy::AutoIncrement, 41, 1),
        DataValue::Object(vec![field("id", DataValue::Int(41)), field("affected_rows", DataValue::Int(1))])
    );
    assert_eq!(
        mysql_created_record(&data, &IdStrategy::Uuid, 41, 1),
        DataValue::Object(vec![field("id", s("abc")), field("affected_rows", DataValue::Int(1))])
    );
    assert_eq!(
        mysql_created_record(&vec![], &IdStrategy::ObjectId, 41, 3),
        DataValue::Object(vec![field("id", DataValue::Int(0)), field("affected_rows", DataValue::Int(3))])
    );
}

#[test]
fn postgres_inserts_convert_or_drop_the_id() {
    let snow = IdStrategy::Snowflake { machine_id: 1, datacenter_id: 1 };
    let data = vec![field("name", s("n")), field("id", s("12345"))];
    assert_eq!(postgres_insert_values(&data, &snow, true), vec![field("name", s("n"))]);
    assert_eq!(postgres_insert_values(&data, &snow, false), vec![field("name", s("n")), field("id", DataValue::Int(12345))]);
    let bad = vec![field("id", s("12x"))];
    assert_eq!(postgres_insert_values(&bad, &snow, false), bad);
    let uuid_data = vec![field("id", s("550e8400-e29b-41d4-a716-446655440000"))];
    assert_eq!(
        postgres_insert_values(&uuid_data, &IdStrategy::Uuid, false),
        vec![field("id", DataValue::Uuid(0x550e8400_e29b_41d4_a716_446655440000))]
    );
    assert_eq!(postgres_insert_values(&vec![field("id", s("nope"))], &IdStrategy::Uuid, false), vec![field("id", s("nope"))]);
    assert_eq!(postgres_insert_values(&data, &IdStrategy::ObjectId, false), data);
    assert_eq!(postgres_insert_values(&vec![field("name", s("n"))], &IdStrategy::AutoIncrement, true), vec![field("name", s("n"))]);
    assert_eq!(postgres_id_value(&s("7"), &snow, None), DataValue::Int(7));
    assert_eq!(postgres_id_value(&s("x"), &IdStrategy::Uuid, Some(5)), DataValue::Uuid(5));
    assert_eq!(postgres_id_value(&s("x"), &IdStrategy::Uuid, None), s("x"));
    assert_eq!(postgres_id_value(&DataValue::Int(3), &IdStrategy::Uuid, Some(5)), DataValue::Int(3));
}

#[test]
fn postgres_inserts_answer_with_the_returned_row() {
    let row = DataValue::Object(vec![field("id", DataValue::Int(8))]);
    assert_eq!(postgres_insert_result(vec![row, DataValue::Null]), DataValue::Object(vec![field("id", DataValue::Int(8))]));
    assert_eq!(postgres_insert_result(vec![]), DataValue::Object(vec![field("affected_rows", DataValue::Int(1))]));
}

#[test]
fn first_field_values_are_found() {
    let data = vec![field("a", DataValue::Int(1)), field("b", DataValue::Null)];
    assert_eq!(field_value_of(&data, "b"), Some(DataValue::Null));
    assert_eq!(field_value_of(&data, "c"), None);
}
