use rat_quickdb::error::QuickDbError;
use rat_quickdb::models::ModelMeta;
use rat_quickdb::mongo_procedures::{
    final_pipeline, generate_stored_procedure_pipeline, MongoAccumulator, MongoAggregateExpression, MongoAggregationOperation,
    MongoCondition, MongoFieldExpression, MongoGroupKey,
};
use rat_quickdb::procedures::{ProcedureJoin, StoredProcedureConfig};
use rat_quickdb::query_builder::JoinType;
use rat_quickdb::types::{DataValue, SortDirection};

fn model(table: &str) -> ModelMeta {
    ModelMeta { collection_name: table.to_string(), database_alias: "main".to_string(), fields: vec![] }
}

fn config(dependencies: Vec<ModelMeta>, pipeline: Option<Vec<MongoAggregationOperation>>) -> StoredProcedureConfig {
    StoredProcedureConfig {
        procedure_name: "user_orders".to_string(),
        database: "main".to_string(),
        dependencies,
        fields: vec![("name".to_string(), "users.name".to_string()), ("id".to_string(), "id".to_string())],
        joins: vec![ProcedureJoin {
            table: "orders".to_string(),
            local_field: "id".to_string(),
            foreign_field: "user_id".to_string(),
            join_type: JoinType::Right,
        }],
        mongo_pipeline: pipeline,
    }
}

/// The pretty text serde_json writes for the JSON `expected`.
fn pretty(expected: &str) -> String {
    let v: serde_json::Value = serde_json::from_str(expected).unwrap();
    serde_json::to_string_pretty(&v).unwrap()
}

const LEGACY: &str = r#"{"collection":"users","pipeline":[
    {"$project":{"name":"users.name","id":1}},
    {"$lookup":{"from":"orders","localField":"id","foreignField":"user_id","as":"orders_joined"}},
    {"$unwind":"$orders_joined"},
    {"$addFields":{"_WHERE_PLACEHOLDER":"{WHERE}","_GROUP_BY_PLACEHOLDER":"{GROUP_BY}","_HAVING_PLACEHOLDER":"{HAVING}",
        "_ORDER_BY_PLACEHOLDER":"{ORDER_BY}","_LIMIT_PLACEHOLDER":"{LIMIT}","_OFFSET_PLACEHOLDER":"{OFFSET}"}}]}"#;

#[test]
fn procedures_without_a_pipeline_project_and_look_up() {
    let text = generate_stored_procedure_pipeline(&config(vec![model("users"), model("orders")], None)).unwrap();
    assert_eq!(text, pretty(LEGACY));
    assert!(text.starts_with("{\n  \"collection\": \"users\",\n  \"pipeline\": ["));
}

#[test]
fn procedures_need_a_dependency() {
    match generate_stored_procedure_pipeline(&config(vec![], None)) {
        Err(QuickDbError::ValidationError { field, .. }) => assert_eq!(field, "dependencies"),
        other => panic!("unexpected {:?}", other),
    }
}

fn s(v: &str) -> String {
    v.to_string()
}

#[test]
fn explicit_pipelines_are_written_stage_by_stage() {
    let ops = vec![
        MongoAggregationOperation::Match {
            conditions: vec![MongoCondition::Eq { field: s("status"), value: DataValue::String(s("paid")) }],
        },
        MongoAggregationOperation::Match {
            conditions: vec![
                MongoCondition::Gte { field: s("amount"), value: DataValue::Int(10) },
                MongoCondition::In { field: s("tag"), values: vec![DataValue::String(s("a")), DataValue::Bool(true)] },
                MongoCondition::Or {
                    conditions: vec![
                        MongoCondition::Exists { field: s("x"), exists: false },
                        MongoCondition::Regex { field: s("name"), pattern: s("^A") },
                    ],
                },
            ],
        },
        MongoAggregationOperation::Group {
            id: MongoGroupKey::Field(s("user_id")),
            accumulators: vec![(s("n"), MongoAccumulator::Count), (s("total"), MongoAccumulator::Sum { field: s("amount") })],
        },
        MongoAggregationOperation::Project {
            fields: vec![
                (s("user"), MongoFieldExpression::Field(s("_id"))),
                (s("kind"), MongoFieldExpression::Constant(DataValue::Int(7))),
                (
                    s("total"),
                    MongoFieldExpression::Aggregate(Box::new(MongoAggregateExpression::IfNull {
                        field: s("total"),
                        default: Box::new(MongoFieldExpression::Constant(DataValue::Int(0))),
                    })),
                ),
                (
                    s("big"),
                    MongoFieldExpression::Aggregate(Box::new(MongoAggregateExpression::Condition {
                        if_condition: MongoCondition::Gt { field: s("total"), value: DataValue::Float(s("99.5")) },
                        then_expr: Box::new(MongoFieldExpression::Constant(DataValue::Bool(true))),
                        else_expr: Box::new(MongoFieldExpression::Constant(DataValue::Null)),
                    })),
                ),
            ],
        },
        MongoAggregationOperation::Sort { fields: vec![(s("total"), SortDirection::Desc), (s("user"), SortDirection::Asc)] },
        MongoAggregationOperation::Skip { count: 5 },
        MongoAggregationOperation::Limit { count: 10 },
        MongoAggregationOperation::Placeholder { placeholder_type: s("where") },
    ];
    let text = generate_stored_procedure_pipeline(&config(vec![model("orders")], Some(ops))).unwrap();
    let expected = r#"{"collection":"orders","pipeline":[
        {"$match":{"status":"paid"}},
        {"$match":{"$and":[{"amount":{"$gte":10}},{"tag":{"$in":["a",true]}},
            {"$or":[{"x":{"$exists":false}},{"name":{"$regex":"^A"}}]}]}},
        {"$group":{"_id":"$user_id","n":{"$sum":1},"total":{"$sum":"$amount"}}},
        {"$project":{"user":"$_id","kind":7,"total":{"$ifNull":["$total",0]},
            "big":{"$cond":{"if":{"total":{"$gt":99.5}},"then":true,"else":null}}}},
        {"$sort":[{"total":-1},{"user":1}]},
        {"$skip":5},
        {"$limit":10},
        {"$addFields":{"_WHERE_PLACEHOLDER":"{WHERE}"}}]}"#;
    assert_eq!(text, pretty(expected));
}

#[test]
fn stored_templates_run_without_their_marker_stages() {
    let template = generate_stored_procedure_pipeline(&config(vec![model("users")], None)).unwrap();
    let (collection, stages) = final_pipeline(&template).unwrap();
    assert_eq!(collection, "users");
    assert_eq!(
        stages,
        vec![
            s(r#"{"$project":{"id":1,"name":"users.name"}}"#),
            s(r#"{"$lookup":{"as":"orders_joined","foreignField":"user_id","from":"orders","localField":"id"}}"#),
            s(r#"{"$unwind":"$orders_joined"}"#),
        ]
    );
    let (c, kept) = final_pipeline(
        r#"{"collection":"c","pipeline":[{"$addFields":{}},{"$addFields":{"x":1}},{"$addFields":{"_PLACEHOLDER":"{}"}},{"$match":{}},3]}"#,
    )
    .unwrap();
    assert_eq!(c, "c");
    assert_eq!(kept, vec![s(r#"{"$addFields":{"x":1}}"#), s(r#"{"$match":{}}"#), s("3")]);
}

#[test]
fn broken_templates_are_refused() {
    assert!(matches!(final_pipeline("nope"), Err(QuickDbError::SerializationError { .. })));
    for t in ["{}", "[]", r#"{"collection":5,"pipeline":[]}"#, r#"{"collection":"c","pipeline":{}}"#, r#"{"collection":"c"}"#] {
        match final_pipeline(t) {
            Err(QuickDbError::ValidationError { field, .. }) => assert_eq!(field, "pipeline"),
            other => panic!("unexpected {:?} for {}", other, t),
        }
    }
}
