use rat_quickdb::error::QuickDbError;
use rat_quickdb::models::{FieldType, ModelMeta, ModelRegistry};
use rat_quickdb::mongo::{data_value_to_bson, Bson, Document};
use rat_quickdb::mongo_records::{
    bson_to_data_value, build_update_document, check_collection_for_insert, document_to_data_map, document_to_data_value,
    find_by_id_document, find_options, inserted_record, map_data_fields, parse_object_id, prepare_insert_document, Pagination,
    SortField,
};
use rat_quickdb::types::{DataValue, IdStrategy, OffsetTimestamp, SortDirection, UtcTimestamp};

fn s(v: &str) -> DataValue {
    DataValue::String(v.to_string())
}

fn field(k: &str, v: DataValue) -> (String, DataValue) {
    (k.to_string(), v)
}

fn entry(k: &str, v: Bson) -> (String, Bson) {
    (k.to_string(), v)
}

#[test]
fn record_id_is_stored_as_object_id_key() {
    let data = vec![field("id", s("a1")), field("name", s("ann"))];
    assert_eq!(map_data_fields(&data), vec![field("_id", s("a1")), field("name", s("ann"))]);
    let clash = vec![field("_id", DataValue::Int(1)), field("x", DataValue::Null), field("id", DataValue::Int(2))];
    assert_eq!(map_data_fields(&clash), vec![field("_id", DataValue::Int(2)), field("x", DataValue::Null)]);
}

#[test]
fn update_document_sets_every_field_but_the_id() {
    let data = vec![field("id", DataValue::Int(7)), field("name", s("bo")), field("age", DataValue::Int(3))];
    let d = build_update_document(&data);
    assert_eq!(
        d.entries,
        vec![entry("$set", Bson::Document(vec![entry("name", Bson::String("bo".to_string())), entry("age", Bson::Int64(3))]))]
    );
    let only_id = vec![field("_id", s("x"))];
    assert_eq!(build_update_document(&only_id).entries, vec![entry("$set", Bson::Document(vec![]))]);
}

#[test]
fn bson_reads_back_as_values() {
    assert_eq!(bson_to_data_value(&Bson::Int64(-4)), DataValue::Int(-4));
    assert_eq!(bson_to_data_value(&Bson::Double("2.5".to_string())), DataValue::Float("2.5".to_string()));
    assert_eq!(bson_to_data_value(&Bson::Boolean(true)), DataValue::Bool(true));
    assert_eq!(bson_to_data_value(&Bson::Null), DataValue::Null);
    assert_eq!(bson_to_data_value(&Bson::Binary(vec![1, 2])), DataValue::Bytes(vec![1, 2]));
    assert_eq!(bson_to_data_value(&Bson::Json("{\"a\":1}".to_string())), DataValue::Json("{\"a\":1}".to_string()));
    assert_eq!(
        bson_to_data_value(&Bson::ObjectId("65a1b2c3d4e5f60718293a4b".to_string())),
        s("65a1b2c3d4e5f60718293a4b")
    );
    assert_eq!(
        bson_to_data_value(&Bson::DateTime(UtcTimestamp { seconds: 100, nanos: 9 })),
        DataValue::DateTime(OffsetTimestamp { seconds: 100, nanos: 9, offset_seconds: 0 })
    );
    let nested = Bson::Document(vec![
        entry("_id", Bson::String("k".to_string())),
        entry("tags", Bson::Array(vec![Bson::Int64(1), Bson::Null])),
    ]);
    assert_eq!(
        bson_to_data_value(&nested),
        DataValue::Object(vec![field("id", s("k")), field("tags", DataValue::Array(vec![DataValue::Int(1), DataValue::Null]))])
    );
}

#[test]
fn documents_read_back_as_records() {
    let doc = Document { entries: vec![entry("_id", Bson::ObjectId("00000000000000000000000a".to_string())), entry("n", Bson::Int64(1))] };
    assert_eq!(document_to_data_map(&doc), vec![field("id", s("00000000000000000000000a")), field("n", DataValue::Int(1))]);
    assert_eq!(
        document_to_data_value(&doc),
        DataValue::Object(vec![field("id", s("00000000000000000000000a")), field("n", DataValue::Int(1))])
    );
    let clash = Document { entries: vec![entry("id", Bson::Int64(1)), entry("_id", Bson::Int64(2))] };
    assert_eq!(document_to_data_map(&clash), vec![field("id", DataValue::Int(2))]);
}

#[test]
fn object_ids_are_24_hex_digits() {
    assert_eq!(parse_object_id("65A1B2C3D4E5F60718293A4B"), Some("65a1b2c3d4e5f60718293a4b".to_string()));
    assert_eq!(parse_object_id("65a1b2c3d4e5f60718293a4"), None);
    assert_eq!(parse_object_id("65a1b2c3d4e5f60718293a4g"), None);
    assert_eq!(parse_object_id(""), None);
}

#[test]
fn insert_documents_follow_the_id_strategy() {
    match prepare_insert_document(&vec![field("name", s("a"))], &IdStrategy::Snowflake { machine_id: 1, datacenter_id: 1 }) {
        Err(QuickDbError::ValidationError { field, .. }) => assert_eq!(field, "_id"),
        other => panic!("unexpected {:?}", other),
    }
    let (d, id) = prepare_insert_document(&vec![field("id", s("")), field("name", s("a"))], &IdStrategy::AutoIncrement).unwrap();
    assert_eq!(d.entries, vec![entry("name", Bson::String("a".to_string()))]);
    assert_eq!(id, None);
    let (d, id) =
        prepare_insert_document(&vec![field("id", s("")), field("name", s("a"))], &IdStrategy::Snowflake { machine_id: 1, datacenter_id: 2 })
            .unwrap();
    assert_eq!(d.entries, vec![entry("name", Bson::String("a".to_string()))]);
    assert_eq!(id, None);
    let (d, id) = prepare_insert_document(&vec![field("id", s(""))], &IdStrategy::Custom("p".to_string())).unwrap();
    assert_eq!(d.entries, vec![entry("_id", Bson::String("".to_string()))]);
    assert_eq!(id, None);
    let (d, id) = prepare_insert_document(&vec![field("id", s("65A1B2C3D4E5F60718293A4B"))], &IdStrategy::ObjectId).unwrap();
    assert_eq!(d.entries, vec![entry("_id", Bson::ObjectId("65a1b2c3d4e5f60718293a4b".to_string()))]);
    assert_eq!(id, Some("65A1B2C3D4E5F60718293A4B".to_string()));
    let (d, _) = prepare_insert_document(&vec![field("id", s("not-hex"))], &IdStrategy::ObjectId).unwrap();
    assert_eq!(d.entries, vec![entry("_id", Bson::String("not-hex".to_string()))]);
    let (d, id) = prepare_insert_document(&vec![field("id", s("u-1")), field("n", DataValue::UInt(3))], &IdStrategy::Uuid).unwrap();
    assert_eq!(d.entries, vec![entry("_id", Bson::String("u-1".to_string())), entry("n", Bson::Int64(3))]);
    assert_eq!(id, Some("u-1".to_string()));
    let (d, id) = prepare_insert_document(&vec![field("id", DataValue::Int(5))], &IdStrategy::Custom("".to_string())).unwrap();
    assert_eq!(d.entries, vec![entry("_id", Bson::Int64(5))]);
    assert_eq!(id, None);
}

#[test]
fn inserted_records_answer_with_their_id() {
    assert_eq!(inserted_record(Some("mine".to_string()), "theirs"), DataValue::Object(vec![field("id", s("mine"))]));
    assert_eq!(inserted_record(None, "theirs"), DataValue::Object(vec![field("id", s("theirs"))]));
}

#[test]
fn inserts_into_missing_collections_need_a_model() {
    let models = ModelRegistry {
        models: vec![ModelMeta {
            collection_name: "users".to_string(),
            database_alias: "docs".to_string(),
            fields: vec![("name".to_string(), FieldType::Text)],
        }],
    };
    assert!(check_collection_for_insert(&models, "orders", "docs", true).is_ok());
    assert!(check_collection_for_insert(&models, "users", "docs", false).is_ok());
    match check_collection_for_insert(&models, "users", "other", false) {
        Err(QuickDbError::ValidationError { field, .. }) => assert_eq!(field, "collection_creation"),
        other => panic!("unexpected {:?}", other),
    }
}

#[test]
fn written_records_read_back_unchanged() {
    let record = vec![
        field("id", s("65a1b2c3d4e5f60718293a4b")),
        field("name", s("ann")),
        field("score", DataValue::Float("1.5".to_string())),
        field("tags", DataValue::Array(vec![s("a"), DataValue::Bool(false)])),
        field("meta", DataValue::Object(vec![field("id", DataValue::Int(3))])),
        field("at", DataValue::DateTime(OffsetTimestamp { seconds: 5, nanos: 0, offset_seconds: 0 })),
    ];
    for strategy in [IdStrategy::ObjectId, IdStrategy::Uuid, IdStrategy::AutoIncrement, IdStrategy::Custom("c".to_string())] {
        let (d, _) = prepare_insert_document(&record, &strategy).unwrap();
        assert_eq!(document_to_data_map(&d), record);
    }
    let v = DataValue::Array(vec![DataValue::Int(1), DataValue::Bytes(vec![9])]);
    assert_eq!(bson_to_data_value(&data_value_to_bson(&v)), v);
}

#[test]
fn updated_fields_read_back_without_the_id() {
    let record = vec![field("id", s("k1")), field("name", s("ann")), field("tags", DataValue::Array(vec![DataValue::Int(2)]))];
    let d = build_update_document(&record);
    assert_eq!(d.entries.len(), 1);
    assert_eq!(
        bson_to_data_value(&d.entries[0].1),
        DataValue::Object(vec![field("name", s("ann")), field("tags", DataValue::Array(vec![DataValue::Int(2)]))])
    );
}

#[test]
fn ids_are_looked_up_as_object_ids_where_they_spell_one() {
    let oid = "65a1b2c3d4e5f60718293a4b";
    assert_eq!(find_by_id_document(&s(oid)).entries, vec![entry("_id", Bson::ObjectId(oid.to_string()))]);
    assert_eq!(
        find_by_id_document(&s("ObjectId(\"65A1B2C3D4E5F60718293A4B\")")).entries,
        vec![entry("_id", Bson::ObjectId(oid.to_string()))]
    );
    assert_eq!(find_by_id_document(&s("user-1")).entries, vec![entry("_id", Bson::String("user-1".to_string()))]);
    assert_eq!(find_by_id_document(&s("ObjectId(\"\")")).entries, vec![entry("_id", Bson::String("".to_string()))]);
    assert_eq!(find_by_id_document(&DataValue::Int(9)).entries, vec![entry("_id", Bson::Int64(9))]);
}

#[test]
fn find_options_sort_and_page() {
    let sort = vec![
        SortField { field: "age".to_string(), direction: SortDirection::Desc },
        SortField { field: "name".to_string(), direction: SortDirection::Asc },
    ];
    let o = find_options(&sort, Some(Pagination { skip: 20, limit: 10 }));
    assert_eq!(o.sort.unwrap().entries, vec![entry("age", Bson::Int64(-1)), entry("name", Bson::Int64(1))]);
    assert_eq!(o.limit, Some(10));
    assert_eq!(o.skip, Some(20));
    let none = find_options(&[], None);
    assert!(none.sort.is_none() && none.limit.is_none() && none.skip.is_none());
}
