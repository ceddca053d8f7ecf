use rat_quickdb::error::QuickDbError;
use rat_quickdb::models::{FieldType, ModelMeta, ModelRegistry};
use rat_quickdb::query_builder::JoinType;
use rat_quickdb::sqlite::{
    build_condition_group_with_config_clause, build_single_condition_clause, build_where_clause,
    process_range_query_value, SqlQueryBuilder,
};
use rat_quickdb::types::{
    DataValue, LogicalOperator, QueryCondition, QueryConditionGroup, QueryConditionGroupWithConfig,
    QueryConditionWithConfig, QueryOperator, SortDirection,
};

fn cond(field: &str, operator: QueryOperator, value: DataValue) -> QueryConditionWithConfig {
    QueryConditionWithConfig { field: field.to_string(), operator, value, case_insensitive: false }
}

fn plain(field: &str, operator: QueryOperator, value: DataValue) -> QueryCondition {
    QueryCondition { field: field.to_string(), operator, value }
}

fn s(v: &str) -> DataValue {
    DataValue::String(v.to_string())
}

fn registry() -> ModelRegistry {
    ModelRegistry {
        models: vec![ModelMeta {
            collection_name: "users".to_string(),
            database_alias: "main".to_string(),
            fields: vec![
                ("name".to_string(), FieldType::String { max_length: Some(50) }),
                ("age".to_string(), FieldType::Integer),
                ("score".to_string(), FieldType::Float),
                ("created_at".to_string(), FieldType::DateTime),
                ("tags".to_string(), FieldType::Array),
                ("profile".to_string(), FieldType::Json),
                ("active".to_string(), FieldType::Boolean),
            ],
        }],
    }
}

fn validation_field(r: Result<(String, Vec<DataValue>), QuickDbError>) -> String {
    match r {
        Err(QuickDbError::ValidationError { field, .. }) => field,
        other => panic!("unexpected {:?}", other),
    }
}

#[test]
fn sqlite_select_with_equality() {
    let (sql, params) = SqlQueryBuilder::new()
        .where_condition(cond("name", QueryOperator::Eq, s("ann")))
        .build("users", "main", &registry())
        .unwrap();
    assert_eq!(sql, "SELECT * FROM users WHERE name = ?");
    assert_eq!(params, vec![s("ann")]);
}

#[test]
fn sqlite_range_values_follow_the_field_kind() {
    let models = registry();
    assert_eq!(process_range_query_value(&models, "users", "main", "age", &s("18")).unwrap(), DataValue::Int(18));
    assert_eq!(process_range_query_value(&models, "users", "main", "age", &DataValue::Int(-3)).unwrap(), DataValue::Int(-3));
    assert_eq!(process_range_query_value(&models, "users", "main", "score", &DataValue::Int(3)).unwrap(), DataValue::Float("3".to_string()));
    assert_eq!(process_range_query_value(&models, "users", "main", "score", &s("2.5e1")).unwrap(), DataValue::Float("2.5e1".to_string()));
    assert_eq!(
        process_range_query_value(&models, "users", "main", "created_at", &s("2024-01-15T14:30:00+08:00")).unwrap(),
        DataValue::Int(1705300200)
    );
    assert_eq!(
        process_range_query_value(&models, "users", "main", "created_at", &s("2024-01-15 14:30:00")).unwrap(),
        DataValue::Int(1705329000)
    );
    assert_eq!(process_range_query_value(&models, "users", "main", "created_at", &DataValue::Int(5)).unwrap(), DataValue::Int(5));
    assert_eq!(process_range_query_value(&models, "users", "main", "name", &s("a")).unwrap(), s("a"));
    assert_eq!(process_range_query_value(&models, "users", "main", "active", &DataValue::Bool(true)).unwrap(), DataValue::Bool(true));
}

#[test]
fn sqlite_range_values_refused() {
    let models = registry();
    for (field, value) in [
        ("age", s("eighteen")),
        ("age", DataValue::Bool(true)),
        ("score", s("1.5x")),
        ("created_at", s("yesterday")),
        ("missing", DataValue::Int(1)),
    ] {
        match process_range_query_value(&models, "users", "main", field, &value) {
            Err(QuickDbError::ValidationError { field: f, .. }) => assert_eq!(f, field),
            other => panic!("unexpected {:?}", other),
        }
    }
    match process_range_query_value(&models, "users", "other", "age", &DataValue::Int(1)) {
        Err(QuickDbError::ValidationError { field, .. }) => assert_eq!(field, "age"),
        other => panic!("unexpected {:?}", other),
    }
}

#[test]
fn sqlite_range_condition_binds_converted_value() {
    let (sql, params) = SqlQueryBuilder::new()
        .where_condition(cond("age", QueryOperator::Gte, s("21")))
        .where_condition(cond("score", QueryOperator::Lt, DataValue::Int(90)))
        .build("users", "main", &registry())
        .unwrap();
    assert_eq!(sql, "SELECT * FROM users WHERE age >= ? AND score < ?");
    assert_eq!(params, vec![DataValue::Int(21), DataValue::Float("90".to_string())]);
}

#[test]
fn sqlite_contains_needs_a_string_field_and_value() {
    let models = registry();
    let (sql, params) = build_single_condition_clause(&models, "users", "main", &cond("name", QueryOperator::Contains, s("an"))).unwrap();
    assert_eq!(sql, "name LIKE ?");
    assert_eq!(params, vec![s("%an%")]);
    assert_eq!(validation_field(build_single_condition_clause(&models, "users", "main", &cond("age", QueryOperator::Contains, s("1")))), "age");
    assert_eq!(validation_field(build_single_condition_clause(&models, "users", "main", &cond("name", QueryOperator::Contains, DataValue::Int(1)))), "name");
    assert_eq!(validation_field(build_single_condition_clause(&models, "users", "main", &cond("bio", QueryOperator::Contains, s("x")))), "bio");
}

#[test]
fn sqlite_in_on_array_field_inside_a_tree() {
    let models = registry();
    let items = vec![s("rust"), DataValue::Int(2), DataValue::Float("1.5".to_string()), DataValue::Uuid(0x123e4567_e89b_12d3_a456_426614174000)];
    let (sql, params) = build_single_condition_clause(&models, "users", "main", &cond("tags", QueryOperator::In, DataValue::Array(items))).unwrap();
    assert_eq!(sql, "(tags LIKE ? OR tags LIKE ? OR tags LIKE ? OR tags LIKE ?)");
    assert_eq!(
        params,
        vec![s("%\"rust\"%"), s("%\"2\"%"), s("%\"1.5\"%"), s("%\"123e4567-e89b-12d3-a456-426614174000\"%")]
    );
    let (sql, params) = build_single_condition_clause(&models, "users", "main", &cond("tags", QueryOperator::In, DataValue::Array(vec![s("go")]))).unwrap();
    assert_eq!(sql, "tags LIKE ?");
    assert_eq!(params, vec![s("%\"go\"%")]);
}

#[test]
fn sqlite_in_refusals() {
    let models = registry();
    assert_eq!(validation_field(build_single_condition_clause(&models, "users", "main", &cond("age", QueryOperator::In, DataValue::Array(vec![DataValue::Int(1)])))), "age");
    assert_eq!(validation_field(build_single_condition_clause(&models, "users", "main", &cond("tags", QueryOperator::In, DataValue::Array(vec![DataValue::Bool(true)])))), "tags");
    assert!(matches!(
        build_single_condition_clause(&models, "users", "main", &cond("tags", QueryOperator::In, DataValue::Array(vec![]))),
        Err(QuickDbError::QueryError { .. })
    ));
    assert!(matches!(
        build_single_condition_clause(&models, "users", "main", &cond("tags", QueryOperator::In, s("x"))),
        Err(QuickDbError::QueryError { .. })
    ));
    assert!(matches!(
        build_single_condition_clause(&models, "users", "main", &cond("tags", QueryOperator::NotIn, DataValue::Array(vec![s("x")]))),
        Err(QuickDbError::QueryError { .. })
    ));
    assert_eq!(validation_field(build_single_condition_clause(&models, "users", "main", &cond("profile", QueryOperator::JsonContains, s("{}")))), "profile");
}

#[test]
fn sqlite_in_in_a_plain_list_matches_any_item() {
    let models = registry();
    let conds = vec![
        cond("tags", QueryOperator::In, DataValue::Array(vec![s("a"), DataValue::Int(2)])),
        cond("name", QueryOperator::StartsWith, s("b")),
    ];
    let (sql, params) = build_where_clause(&models, "users", "main", &conds).unwrap();
    assert_eq!(sql, "(tags LIKE ? OR tags LIKE ?) AND name LIKE ?");
    assert_eq!(params, vec![s("%\"a\"%"), s("%\"2\"%"), s("b%")]);
    let (sql, params) = build_where_clause(&models, "users", "main", &[cond("anything", QueryOperator::In, DataValue::Array(vec![s("z")]))]).unwrap();
    assert_eq!(sql, "anything LIKE ?");
    assert_eq!(params, vec![s("%\"z\"%")]);
}

#[test]
fn sqlite_insert_update_delete() {
    let models = registry();
    let (sql, params) = SqlQueryBuilder::new()
        .insert(vec![("name".to_string(), s("ann")), ("bio".to_string(), DataValue::Null), ("age".to_string(), DataValue::Int(30))])
        .returning(&["id"])
        .build("users", "main", &models)
        .unwrap();
    assert_eq!(sql, "INSERT INTO users (name, age) VALUES (?, ?) RETURNING id");
    assert_eq!(params, vec![s("ann"), DataValue::Int(30)]);

    let (sql, params) = SqlQueryBuilder::new()
        .update(vec![("name".to_string(), s("bob"))])
        .where_condition(cond("age", QueryOperator::Gt, s("40")))
        .build("users", "main", &models)
        .unwrap();
    assert_eq!(sql, "UPDATE users SET name = ? WHERE age > ?");
    assert_eq!(params, vec![s("bob"), DataValue::Int(40)]);

    let (sql, params) = SqlQueryBuilder::new()
        .delete()
        .where_condition(cond("active", QueryOperator::Eq, DataValue::Bool(false)))
        .build("users", "main", &models)
        .unwrap();
    assert_eq!(sql, "DELETE FROM users WHERE active = ?");
    assert_eq!(params, vec![DataValue::Bool(false)]);
}

#[test]
fn sqlite_statement_refusals() {
    let models = registry();
    assert!(matches!(SqlQueryBuilder::new().build("", "main", &models), Err(QuickDbError::QueryError { .. })));
    assert!(matches!(SqlQueryBuilder::new().insert(vec![]).build("users", "main", &models), Err(QuickDbError::QueryError { .. })));
    assert!(matches!(
        SqlQueryBuilder::new().update(vec![("a".to_string(), DataValue::Null)]).build("users", "main", &models),
        Err(QuickDbError::QueryError { .. })
    ));
}

#[test]
fn sqlite_select_with_tree_join_order_limit() {
    let models = registry();
    let tree = QueryConditionGroup::Group {
        operator: LogicalOperator::Or,
        conditions: vec![
            QueryConditionGroup::Single(plain("name", QueryOperator::EndsWith, s("n"))),
            QueryConditionGroup::Single(plain("age", QueryOperator::Lte, DataValue::Int(9))),
        ],
    };
    let (sql, params) = SqlQueryBuilder::new()
        .select(&["users.name", "COUNT(*)"])
        .join(JoinType::Inner, "orders", "orders.uid = users.id")
        .where_condition(cond("ignored", QueryOperator::Eq, DataValue::Int(0)))
        .where_condition_groups(&[tree])
        .group_by(&["users.name"])
        .having(cond("age", QueryOperator::Gt, DataValue::Int(1)))
        .order_by("users.name", SortDirection::Asc)
        .limit(3)
        .offset(6)
        .build("users", "main", &models)
        .unwrap();
    assert_eq!(
        sql,
        "SELECT users.name, COUNT(*) FROM users INNER JOIN orders ON orders.uid = users.id WHERE (name LIKE ? OR age <= ?) GROUP BY users.name HAVING age > ? ORDER BY users.name ASC LIMIT 3 OFFSET 6"
    );
    assert_eq!(params, vec![s("%n"), DataValue::Int(9), DataValue::Int(1)]);
    assert_eq!(sql.matches('?').count(), params.len());
}

#[test]
fn sqlite_configured_groups_are_always_parenthesized() {
    let models = registry();
    let g = QueryConditionGroupWithConfig::GroupWithConfig {
        operator: LogicalOperator::And,
        conditions: vec![QueryConditionGroupWithConfig::Single(cond("age", QueryOperator::IsNull, DataValue::Null))],
    };
    let (sql, params) = build_condition_group_with_config_clause(&models, "users", "main", &g).unwrap();
    assert_eq!(sql, "(age IS NULL)");
    assert!(params.is_empty());
}

#[test]
fn sqlite_where_clause_from_groups_on_builder() {
    let models = registry();
    let b = SqlQueryBuilder::new();
    let (sql, params) = b
        .build_where_clause_from_groups(&[QueryConditionGroup::Single(plain("age", QueryOperator::Ne, DataValue::Int(2)))], "users", "main", &models)
        .unwrap();
    assert_eq!(sql, "age != ?");
    assert_eq!(params, vec![DataValue::Int(2)]);
}

use rat_quickdb::sqlite::build_update_with_operations;
use rat_quickdb::update_operations::{UpdateOperation, UpdateOperator};

#[test]
fn sqlite_update_with_operations() {
    let ops = vec![
        UpdateOperation { field: "score".to_string(), operation: UpdateOperator::Divide, value: DataValue::Int(2) },
        UpdateOperation { field: "age".to_string(), operation: UpdateOperator::Decrement, value: DataValue::Int(1) },
        UpdateOperation { field: "score".to_string(), operation: UpdateOperator::PercentIncrease, value: DataValue::Float("5".to_string()) },
    ];
    let conds = vec![cond("age", QueryOperator::Gt, s("30"))];
    let (sql, params) = build_update_with_operations(&registry(), "users", "main", &conds, &ops).unwrap();
    assert_eq!(sql, "UPDATE users SET score = score / ?, age = age - ?, score = score * (1.0 + ?/100.0) WHERE age > ?");
    assert_eq!(params, vec![DataValue::Int(2), DataValue::Int(1), DataValue::Float("5".to_string()), DataValue::Int(30)]);
    assert_eq!(sql.matches('?').count(), params.len());
}

#[test]
fn sqlite_update_and_delete_use_condition_groups() {
    let models = registry();
    let g = QueryConditionGroup::Single(plain("age", QueryOperator::Eq, DataValue::Int(1)));
    let (sql, params) = SqlQueryBuilder::new().delete().where_condition_groups(&[g]).build("users", "main", &models).unwrap();
    assert_eq!(sql, "DELETE FROM users WHERE age = ?");
    assert_eq!(params, vec![DataValue::Int(1)]);
    let g = QueryConditionGroup::Group {
        operator: LogicalOperator::Or,
        conditions: vec![
            QueryConditionGroup::Single(plain("age", QueryOperator::Eq, DataValue::Int(1))),
            QueryConditionGroup::Single(plain("name", QueryOperator::Eq, s("x"))),
        ],
    };
    let (sql, params) = SqlQueryBuilder::new()
        .update(vec![("name".to_string(), s("bob"))])
        .where_condition_groups(&[g])
        .build("users", "main", &models)
        .unwrap();
    assert_eq!(sql, "UPDATE users SET name = ? WHERE (age = ? OR name = ?)");
    assert_eq!(params, vec![s("bob"), DataValue::Int(1), s("x")]);
}

#[test]
fn sqlite_where_clause_of_two_lists_is_their_and() {
    let models = registry();
    let c1 = vec![cond("age", QueryOperator::Gt, DataValue::Int(3))];
    let c2 = vec![cond("tags", QueryOperator::In, DataValue::Array(vec![s("a"), s("b")])), cond("name", QueryOperator::Eq, s("x"))];
    let (s1, p1) = build_where_clause(&models, "users", "main", &c1).unwrap();
    let (s2, p2) = build_where_clause(&models, "users", "main", &c2).unwrap();
    let both: Vec<QueryConditionWithConfig> = c1.into_iter().chain(c2.into_iter()).collect();
    let (s, p) = build_where_clause(&models, "users", "main", &both).unwrap();
    assert_eq!(s, format!("{} AND {}", s1, s2));
    let mut both_params = p1;
    both_params.extend(p2);
    assert_eq!(p, both_params);
    assert_eq!(build_where_clause(&models, "users", "main", &[]).unwrap(), (String::new(), vec![]));
}

#[test]
fn sqlite_single_member_group_has_no_parentheses() {
    let models = registry();
    let one = QueryConditionGroup::Group {
        operator: LogicalOperator::Or,
        conditions: vec![QueryConditionGroup::Single(plain("age", QueryOperator::Eq, DataValue::Int(1)))],
    };
    let (sql, params) = SqlQueryBuilder::new().where_condition_groups(&[one]).build("users", "main", &models).unwrap();
    assert_eq!(sql, "SELECT * FROM users WHERE age = ?");
    assert_eq!(params, vec![DataValue::Int(1)]);
    let (sql, _) = SqlQueryBuilder::new().where_condition_groups(&[]).build("users", "main", &models).unwrap();
    assert_eq!(sql, "SELECT * FROM users");
}
