use rat_quickdb::error::QuickDbError;
use rat_quickdb::models::{FieldType, ModelMeta, ModelRegistry};
use rat_quickdb::mongo::{
    build_query_document, check_collection_not_exist_error, data_value_to_bson, Bson, Document, MongoQueryBuilder,
};
use rat_quickdb::types::{DataValue, LogicalOperator, OffsetTimestamp, QueryCondition, QueryConditionGroup, QueryOperator, UtcTimestamp};

fn cond(field: &str, operator: QueryOperator, value: DataValue) -> QueryCondition {
    QueryCondition { field: field.to_string(), operator, value }
}

fn s(v: &str) -> DataValue {
    DataValue::String(v.to_string())
}

fn bs(v: &str) -> Bson {
    Bson::String(v.to_string())
}

fn entry(k: &str, v: Bson) -> (String, Bson) {
    (k.to_string(), v)
}

fn sub(op: &str, v: Bson) -> Bson {
    Bson::Document(vec![entry(op, v)])
}

fn regex(pattern: &str) -> Bson {
    Bson::Document(vec![entry("$regex", bs(pattern)), entry("$options", bs("i"))])
}

fn registry() -> ModelRegistry {
    ModelRegistry {
        models: vec![ModelMeta {
            collection_name: "users".to_string(),
            database_alias: "docs".to_string(),
            fields: vec![
                ("name".to_string(), FieldType::String { max_length: None }),
                ("tags".to_string(), FieldType::Array),
                ("settings".to_string(), FieldType::Json),
                ("age".to_string(), FieldType::Integer),
            ],
        }],
    }
}

fn build(conds: &[QueryCondition]) -> Result<Document, QuickDbError> {
    build_query_document("users", "docs", conds, &registry())
}

#[test]
fn test_mongo_query_builder_basic() {
    // 这里可以添加单元测试
}

#[test]
fn mongo_equality_and_comparisons() {
    let d = build(&[cond("name", QueryOperator::Eq, s("ann")), cond("age", QueryOperator::Gte, DataValue::Int(18))]).unwrap();
    assert_eq!(d.entries, vec![entry("name", bs("ann")), entry("age", sub("$gte", Bson::Int64(18)))]);
}

#[test]
fn mongo_later_condition_on_a_key_replaces_the_earlier() {
    let d = build(&[
        cond("age", QueryOperator::Gt, DataValue::Int(1)),
        cond("name", QueryOperator::Ne, s("x")),
        cond("age", QueryOperator::Lt, DataValue::Int(5)),
    ])
    .unwrap();
    assert_eq!(d.entries, vec![entry("age", sub("$lt", Bson::Int64(5))), entry("name", sub("$ne", bs("x")))]);
}

#[test]
fn mongo_contains_by_field_kind() {
    let d = build(&[cond("name", QueryOperator::Contains, s("an"))]).unwrap();
    assert_eq!(d.entries, vec![entry("name", regex(".*an.*"))]);
    let d = build(&[cond("tags", QueryOperator::Contains, s("go"))]).unwrap();
    assert_eq!(d.entries, vec![entry("tags", sub("$in", Bson::Array(vec![bs("go")])))]);
    let d = build(&[cond("settings", QueryOperator::Contains, DataValue::Int(3))]).unwrap();
    assert_eq!(d.entries, vec![entry("settings", sub("$in", Bson::Array(vec![Bson::Int64(3)])))]);
    for (field, value) in [("name", DataValue::Int(1)), ("age", DataValue::Int(1)), ("bio", s("x"))] {
        match build(&[cond(field, QueryOperator::Contains, value)]) {
            Err(QuickDbError::ValidationError { field: f, .. }) => assert_eq!(f, field),
            other => panic!("unexpected {:?}", other),
        }
    }
}

#[test]
fn mongo_patterns_need_strings() {
    let d = build(&[cond("name", QueryOperator::StartsWith, s("a")), cond("code", QueryOperator::Regex, s("^x"))]).unwrap();
    assert_eq!(d.entries, vec![entry("name", regex("^a")), entry("code", regex("^x"))]);
    let d = build(&[cond("name", QueryOperator::EndsWith, s("z"))]).unwrap();
    assert_eq!(d.entries, vec![entry("name", regex("z$"))]);
    for op in [QueryOperator::StartsWith, QueryOperator::EndsWith, QueryOperator::Regex] {
        match build(&[cond("name", op, DataValue::Int(1))]) {
            Err(QuickDbError::ValidationError { field, .. }) => assert_eq!(field, "name"),
            other => panic!("unexpected {:?}", other),
        }
    }
}

#[test]
fn mongo_in_and_not_in() {
    let d = build(&[cond("tags", QueryOperator::In, DataValue::Array(vec![s("a"), DataValue::Float("1.5".to_string())]))]).unwrap();
    assert_eq!(d.entries, vec![entry("tags", sub("$in", Bson::Array(vec![bs("a"), Bson::Double("1.5".to_string())])))]);
    let d = build(&[cond("age", QueryOperator::NotIn, DataValue::Int(4))]).unwrap();
    assert_eq!(d.entries, vec![entry("age", sub("$nin", Bson::Array(vec![Bson::Int64(4)])))]);
    match build(&[cond("tags", QueryOperator::In, DataValue::Array(vec![DataValue::Bool(true)]))]) {
        Err(QuickDbError::ValidationError { field, .. }) => assert_eq!(field, "tags"),
        other => panic!("unexpected {:?}", other),
    }
    let d = build(&[cond("age", QueryOperator::In, DataValue::Array(vec![DataValue::Bool(true)]))]).unwrap();
    assert_eq!(d.entries, vec![entry("age", sub("$in", Bson::Array(vec![Bson::Boolean(true)])))]);
}

#[test]
fn mongo_existence_and_null_checks() {
    let d = build(&[
        cond("a", QueryOperator::Exists, DataValue::Null),
        cond("b", QueryOperator::IsNull, DataValue::Null),
        cond("c", QueryOperator::IsNotNull, DataValue::Null),
    ])
    .unwrap();
    assert_eq!(
        d.entries,
        vec![entry("a", sub("$exists", Bson::Boolean(true))), entry("b", sub("$eq", Bson::Null)), entry("c", sub("$ne", Bson::Null))]
    );
}

#[test]
fn mongo_json_contains_flattens_members() {
    let d = build(&[cond("settings", QueryOperator::JsonContains, s("{\"theme\": \"dark\", \"size\": {\"w\": 1}}"))]).unwrap();
    assert_eq!(
        d.entries,
        vec![entry(
            "$and",
            Bson::Array(vec![
                Bson::Document(vec![entry("settings.size.w", Bson::Json("1".to_string()))]),
                Bson::Document(vec![entry("settings.theme", Bson::Json("\"dark\"".to_string()))]),
            ])
        )]
    );
    let d = build(&[cond("settings", QueryOperator::JsonContains, s("{\"theme\": \"dark\"}"))]).unwrap();
    assert_eq!(d.entries, vec![entry("settings.theme", Bson::Json("\"dark\"".to_string()))]);
    let d = build(&[cond("settings", QueryOperator::JsonContains, s("[1, 2]"))]).unwrap();
    assert!(d.entries.is_empty());
    let d = build(&[cond("settings", QueryOperator::JsonContains, DataValue::Int(7))]).unwrap();
    assert_eq!(d.entries, vec![entry("settings", Bson::Int64(7))]);
    match build(&[cond("settings", QueryOperator::JsonContains, s("{not json"))]) {
        Err(QuickDbError::ValidationError { field, .. }) => assert_eq!(field, "settings"),
        other => panic!("unexpected {:?}", other),
    }
}

#[test]
fn mongo_condition_trees() {
    let or = QueryConditionGroup::Group {
        operator: LogicalOperator::Or,
        conditions: vec![
            QueryConditionGroup::Single(cond("a", QueryOperator::Eq, DataValue::Int(1))),
            QueryConditionGroup::Single(cond("b", QueryOperator::Eq, DataValue::Int(2))),
        ],
    };
    let d = MongoQueryBuilder::new().where_condition_groups(&[or]).build("users", "docs", &registry()).unwrap();
    let or_doc = Bson::Array(vec![
        Bson::Document(vec![entry("a", Bson::Int64(1))]),
        Bson::Document(vec![entry("b", Bson::Int64(2))]),
    ]);
    assert_eq!(d.entries, vec![entry("$or", or_doc)]);

    let d = MongoQueryBuilder::new()
        .where_condition(cond("ignored", QueryOperator::Eq, DataValue::Int(0)))
        .where_condition_groups(&[
            QueryConditionGroup::Single(cond("x", QueryOperator::Eq, DataValue::Int(1))),
            QueryConditionGroup::Group { operator: LogicalOperator::And, conditions: vec![] },
            QueryConditionGroup::Single(cond("y", QueryOperator::Eq, DataValue::Int(2))),
        ])
        .build("users", "docs", &registry())
        .unwrap();
    let and_doc = Bson::Array(vec![
        Bson::Document(vec![entry("x", Bson::Int64(1))]),
        Bson::Document(vec![entry("y", Bson::Int64(2))]),
    ]);
    assert_eq!(d.entries, vec![entry("$and", and_doc)]);

    let d = MongoQueryBuilder::new()
        .where_condition(cond("kept", QueryOperator::Eq, DataValue::Int(3)))
        .build("users", "docs", &registry())
        .unwrap();
    assert_eq!(d.entries, vec![entry("kept", Bson::Int64(3))]);
    let d = MongoQueryBuilder::new().build("users", "docs", &registry()).unwrap();
    assert!(d.entries.is_empty());
}

#[test]
fn mongo_bson_of_values() {
    assert_eq!(
        data_value_to_bson(&DataValue::Uuid(0x123e4567_e89b_12d3_a456_426614174000)),
        bs(&uuid::Uuid::from_u128(0x123e4567_e89b_12d3_a456_426614174000).to_string())
    );
    assert_eq!(data_value_to_bson(&DataValue::Json("{\"a\":1}".to_string())), Bson::Json("{\"a\":1}".to_string()));
    assert_eq!(data_value_to_bson(&DataValue::Json("[1]".to_string())), bs("[1]"));
    assert_eq!(data_value_to_bson(&DataValue::UInt(u64::MAX)), Bson::Double("18446744073709551615".to_string()));
    assert_eq!(data_value_to_bson(&DataValue::UInt(5)), Bson::Int64(5));
    let t = OffsetTimestamp { seconds: 1705300200, nanos: 5, offset_seconds: 28800 };
    assert_eq!(data_value_to_bson(&DataValue::DateTime(t)), Bson::DateTime(UtcTimestamp { seconds: 1705300200, nanos: 5 }));
    let obj = DataValue::Object(vec![("k".to_string(), DataValue::Int(1)), ("k".to_string(), DataValue::Int(2)), ("m".to_string(), DataValue::Null)]);
    assert_eq!(data_value_to_bson(&obj), Bson::Document(vec![entry("k", Bson::Int64(2)), entry("m", Bson::Null)]));
    assert_eq!(data_value_to_bson(&DataValue::Bytes(vec![7])), Bson::Binary(vec![7]));
}

#[test]
fn mongo_missing_collection_messages() {
    assert!(check_collection_not_exist_error("Namespace Not Found", "users"));
    assert!(check_collection_not_exist_error("Command failed: ns not found: USERS", "Users"));
    assert!(check_collection_not_exist_error("collection users does not exist", "users"));
    assert!(check_collection_not_exist_error("Invalid Namespace specified", "users"));
    assert!(check_collection_not_exist_error("command failed during FIND", "users"));
    assert!(!check_collection_not_exist_error("connection refused", "users"));
    assert!(!check_collection_not_exist_error("command failed", "users"));
}

use rat_quickdb::mongo::{operations_update_document, update_document_stalls};
use rat_quickdb::update_operations::{UpdateOperation, UpdateOperator};

fn op(field: &str, operation: UpdateOperator, value: DataValue) -> UpdateOperation {
    UpdateOperation { field: field.to_string(), operation, value }
}

#[test]
fn mongo_update_document_groups_operations() {
    let ops = vec![
        op("name", UpdateOperator::Assign, s("ann")),
        op("views", UpdateOperator::Increment, DataValue::Int(1)),
        op("stock", UpdateOperator::Decrement, DataValue::Int(2)),
        op("price", UpdateOperator::Multiply, DataValue::Float("1.5".to_string())),
        op("score", UpdateOperator::Divide, DataValue::Int(4)),
        op("ratio", UpdateOperator::Decrement, DataValue::Float("-0.5".to_string())),
    ];
    let factors: Vec<String> = vec!["".into(), "".into(), "".into(), "".into(), (1.0f64 / 4.0).to_string(), "".into()];
    assert!(!update_document_stalls(&ops, &factors));
    let d = operations_update_document(&ops, &factors).unwrap();
    assert_eq!(
        d.entries,
        vec![
            entry("$mul", Bson::Document(vec![entry("price", Bson::Double("1.5".to_string())), entry("score", Bson::Double("0.25".to_string()))])),
            entry("$set", Bson::Document(vec![entry("name", bs("ann"))])),
            entry("$inc", Bson::Document(vec![entry("views", Bson::Int64(1)), entry("stock", Bson::Int64(-2)), entry("ratio", Bson::Double("0.5".to_string()))])),
        ]
    );
}

#[test]
fn mongo_update_document_refusals() {
    let none: Vec<UpdateOperation> = vec![];
    match operations_update_document(&none, &[]) {
        Err(QuickDbError::ValidationError { field, .. }) => assert_eq!(field, "operations"),
        other => panic!("unexpected {:?}", other),
    }
    let bad = vec![op("stock", UpdateOperator::Decrement, s("x"))];
    match operations_update_document(&bad, &["".to_string()]) {
        Err(QuickDbError::ValidationError { field, .. }) => assert_eq!(field, "stock"),
        other => panic!("unexpected {:?}", other),
    }
    let only_mul = vec![op("price", UpdateOperator::PercentIncrease, DataValue::Int(10))];
    let d = operations_update_document(&only_mul, &[(1.0f64 + 10.0 / 100.0).to_string()]).unwrap();
    assert_eq!(
        d.entries,
        vec![entry("$mul", Bson::Document(vec![entry("price", Bson::Double("1.1".to_string()))])), entry("$set", Bson::Document(vec![]))]
    );
    let stalls = vec![op("$mul", UpdateOperator::Assign, DataValue::Int(1)), op("x", UpdateOperator::Multiply, DataValue::Int(2))];
    assert!(update_document_stalls(&stalls, &["".to_string(), "".to_string()]));
    let overflow = vec![op("x", UpdateOperator::Decrement, DataValue::Int(i64::MIN))];
    assert!(update_document_stalls(&overflow, &["".to_string()]));
}
