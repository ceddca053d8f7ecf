use rat_quickdb::error::QuickDbError;
use rat_quickdb::models::{FieldType, ModelMeta, ModelRegistry};
use rat_quickdb::query_builder::{JoinType, SqlQueryBuilder};
use rat_quickdb::types::{DataValue, DatabaseType, LogicalOperator, QueryCondition, QueryConditionGroup, QueryOperator, SortDirection};

fn cond(field: &str, operator: QueryOperator, value: DataValue) -> QueryCondition {
    QueryCondition { field: field.to_string(), operator, value }
}

fn s(v: &str) -> DataValue {
    DataValue::String(v.to_string())
}

fn registry() -> ModelRegistry {
    ModelRegistry {
        models: vec![ModelMeta {
            collection_name: "users".to_string(),
            database_alias: "default".to_string(),
            fields: vec![
                ("name".to_string(), FieldType::String { max_length: None }),
                ("profile".to_string(), FieldType::Json),
            ],
        }],
    }
}

#[test]
fn select_with_one_condition_uses_question_marks_by_default() {
    let b = SqlQueryBuilder::new().from("users").where_condition(cond("age", QueryOperator::Gt, DataValue::Int(18)));
    let (sql, params) = b.build(&registry()).unwrap();
    assert_eq!(sql, "SELECT * FROM users WHERE age > ?");
    assert_eq!(params, vec![DataValue::Int(18)]);
}

#[test]
fn postgres_parameters_are_numbered_in_order() {
    let conds = vec![
        cond("age", QueryOperator::Gte, DataValue::Int(18)),
        cond("name", QueryOperator::Eq, s("ann")),
        cond("id", QueryOperator::In, DataValue::Array(vec![DataValue::Int(1), DataValue::Int(2)])),
    ];
    let b = SqlQueryBuilder::new().database_type(DatabaseType::PostgreSQL).from("users").select(&["id", "name"]).where_conditions(&conds);
    let (sql, params) = b.build(&registry()).unwrap();
    assert_eq!(sql, "SELECT id, name FROM users WHERE age >= $1 AND name = $2 AND id IN ($3, $4)");
    assert_eq!(params, vec![DataValue::Int(18), s("ann"), DataValue::Int(1), DataValue::Int(2)]);
}

#[test]
fn insert_skips_null_values() {
    let values = vec![
        ("name".to_string(), s("ann")),
        ("nick".to_string(), DataValue::Null),
        ("age".to_string(), DataValue::Int(3)),
    ];
    let b = SqlQueryBuilder::new().database_type(DatabaseType::PostgreSQL).from("users").insert(values).returning(&["id"]);
    let (sql, params) = b.build(&registry()).unwrap();
    assert_eq!(sql, "INSERT INTO users (name, age) VALUES ($1, $2) RETURNING id");
    assert_eq!(params, vec![s("ann"), DataValue::Int(3)]);
}

#[test]
fn update_numbers_where_parameters_after_set_values() {
    let b = SqlQueryBuilder::new()
        .database_type(DatabaseType::PostgreSQL)
        .from("users")
        .update(vec![("name".to_string(), s("bob")), ("age".to_string(), DataValue::Int(4))])
        .where_condition(cond("id", QueryOperator::Eq, DataValue::Int(7)));
    let (sql, params) = b.build(&registry()).unwrap();
    assert_eq!(sql, "UPDATE users SET name = $1, age = $2 WHERE id = $3");
    assert_eq!(params, vec![s("bob"), DataValue::Int(4), DataValue::Int(7)]);
}

#[test]
fn delete_on_mysql_with_in_list() {
    let b = SqlQueryBuilder::new()
        .database_type(DatabaseType::MySQL)
        .from("users")
        .delete()
        .where_condition(cond("id", QueryOperator::NotIn, DataValue::Array(vec![DataValue::Int(1), DataValue::Int(2)])));
    let (sql, params) = b.build(&registry()).unwrap();
    assert_eq!(sql, "DELETE FROM users WHERE id NOT IN (?, ?)");
    assert_eq!(params, vec![DataValue::Int(1), DataValue::Int(2)]);
}

#[test]
fn select_clauses_in_their_order() {
    let b = SqlQueryBuilder::new()
        .from("users")
        .select(&["users.id"])
        .join(JoinType::Left, "orders", "orders.user_id = users.id")
        .group_by(&["users.id"])
        .order_by("users.id", SortDirection::Desc)
        .limit(10)
        .offset(5);
    let (sql, params) = b.build(&registry()).unwrap();
    assert_eq!(
        sql,
        "SELECT users.id FROM users LEFT JOIN orders ON orders.user_id = users.id GROUP BY users.id ORDER BY users.id DESC LIMIT 10 OFFSET 5"
    );
    assert!(params.is_empty());
}

#[test]
fn having_parameters_are_numbered_from_one_again() {
    let b = SqlQueryBuilder::new()
        .database_type(DatabaseType::PostgreSQL)
        .from("orders")
        .select(&["user_id"])
        .where_condition(cond("status", QueryOperator::Eq, s("paid")))
        .group_by(&["user_id"])
        .having(cond("total", QueryOperator::Gt, DataValue::Int(100)));
    let (sql, params) = b.build(&registry()).unwrap();
    assert_eq!(sql, "SELECT user_id FROM orders WHERE status = $1 GROUP BY user_id HAVING total > $1");
    assert_eq!(params, vec![s("paid"), DataValue::Int(100)]);
}

#[test]
fn like_patterns_and_null_checks() {
    let conds = vec![
        cond("name", QueryOperator::Contains, s("an")),
        cond("name", QueryOperator::StartsWith, s("a")),
        cond("name", QueryOperator::EndsWith, s("n")),
        cond("email", QueryOperator::IsNull, DataValue::Null),
        cond("phone", QueryOperator::IsNotNull, DataValue::Null),
        cond("tag", QueryOperator::Exists, DataValue::Null),
        cond("code", QueryOperator::Regex, s("^[0-9]+$")),
    ];
    let (sql, params) = SqlQueryBuilder::new().from("users").where_conditions(&conds).build(&registry()).unwrap();
    assert_eq!(
        sql,
        "SELECT * FROM users WHERE name LIKE ? AND name LIKE ? AND name LIKE ? AND email IS NULL AND phone IS NOT NULL AND tag IS NOT NULL AND code REGEXP ?"
    );
    assert_eq!(params, vec![s("%an%"), s("a%"), s("%n"), s("^[0-9]+$")]);
}

#[test]
fn postgres_contains_on_json_field_uses_jsonb_condition() {
    let b = SqlQueryBuilder::new()
        .database_type(DatabaseType::PostgreSQL)
        .from("users")
        .where_condition(cond("profile", QueryOperator::Contains, s("Rust")))
        .where_condition(cond("name", QueryOperator::Contains, s("ann")));
    let (sql, params) = b.build(&registry()).unwrap();
    assert_eq!(sql, "SELECT * FROM users WHERE profile::text ILIKE $1 AND name LIKE $2");
    assert_eq!(params, vec![s("%Rust%"), s("%ann%")]);
}

#[test]
fn postgres_contains_on_unregistered_field_is_refused() {
    let b = SqlQueryBuilder::new()
        .database_type(DatabaseType::PostgreSQL)
        .from("users")
        .where_condition(cond("bio", QueryOperator::Contains, s("x")));
    match b.build(&registry()) {
        Err(QuickDbError::ValidationError { field, .. }) => assert_eq!(field, "bio"),
        other => panic!("unexpected {:?}", other),
    }
}

#[test]
fn refused_statements() {
    let no_table = SqlQueryBuilder::new().where_condition(cond("a", QueryOperator::Eq, DataValue::Int(1)));
    assert!(matches!(no_table.build(&registry()), Err(QuickDbError::QueryError { .. })));
    let no_values = SqlQueryBuilder::new().from("users").insert(vec![]);
    assert!(matches!(no_values.build(&registry()), Err(QuickDbError::QueryError { .. })));
    let only_null = SqlQueryBuilder::new().from("users").update(vec![("a".to_string(), DataValue::Null)]);
    assert!(matches!(only_null.build(&registry()), Err(QuickDbError::QueryError { .. })));
    let unsafe_field = SqlQueryBuilder::new().from("users").where_condition(cond("a;drop", QueryOperator::Eq, DataValue::Int(1)));
    match unsafe_field.build(&registry()) {
        Err(QuickDbError::ValidationError { field, .. }) => assert_eq!(field, "a;drop"),
        other => panic!("unexpected {:?}", other),
    }
    let json_contains = SqlQueryBuilder::new().from("users").where_condition(cond("p", QueryOperator::JsonContains, s("{}")));
    assert!(matches!(json_contains.build(&registry()), Err(QuickDbError::QueryError { .. })));
    let in_scalar = SqlQueryBuilder::new().from("users").where_condition(cond("id", QueryOperator::In, DataValue::Int(1)));
    assert!(matches!(in_scalar.build(&registry()), Err(QuickDbError::QueryError { .. })));
}

#[test]
fn condition_groups_replace_plain_conditions() {
    let group = QueryConditionGroup::Group {
        operator: LogicalOperator::Or,
        conditions: vec![
            QueryConditionGroup::Single(cond("a", QueryOperator::Eq, DataValue::Int(1))),
            QueryConditionGroup::Single(cond("b", QueryOperator::Eq, DataValue::Int(2))),
        ],
    };
    let b = SqlQueryBuilder::new()
        .database_type(DatabaseType::PostgreSQL)
        .from("users")
        .where_condition(cond("x", QueryOperator::Eq, DataValue::Int(9)))
        .where_condition_groups(&[group, QueryConditionGroup::Single(cond("c", QueryOperator::Lt, DataValue::Int(3)))]);
    let (sql, params) = b.build(&registry()).unwrap();
    assert_eq!(sql, "SELECT * FROM users WHERE (a = $1 OR b = $2) AND c < $3");
    assert_eq!(params, vec![DataValue::Int(1), DataValue::Int(2), DataValue::Int(3)]);
}

#[test]
fn group_of_one_or_none_has_no_parentheses() {
    let one = QueryConditionGroup::Group {
        operator: LogicalOperator::And,
        conditions: vec![QueryConditionGroup::Single(cond("a", QueryOperator::Eq, DataValue::Int(1)))],
    };
    let empty = QueryConditionGroup::Group { operator: LogicalOperator::Or, conditions: vec![] };
    let b = SqlQueryBuilder::new().from("users");
    let (sql, params) = b.build_where_clause_from_groups(&[one, empty], &registry()).unwrap();
    assert_eq!(sql, "a = ? AND ");
    assert_eq!(params, vec![DataValue::Int(1)]);
}

#[test]
fn placeholders_match_parameters_on_mysql() {
    let conds = vec![
        cond("a", QueryOperator::In, DataValue::Array(vec![DataValue::Int(1), DataValue::Int(2), DataValue::Int(3)])),
        cond("b", QueryOperator::IsNull, DataValue::Null),
        cond("c", QueryOperator::Ne, s("x")),
    ];
    let (sql, params) = SqlQueryBuilder::new()
        .database_type(DatabaseType::MySQL)
        .from("t")
        .where_conditions(&conds)
        .build(&registry())
        .unwrap();
    assert_eq!(sql.matches('?').count(), params.len());
}

use rat_quickdb::update_operations::{build_update_with_operations, UpdateOperation, UpdateOperator};

#[test]
fn update_with_operations_on_postgres() {
    let ops = vec![
        UpdateOperation { field: "views".to_string(), operation: UpdateOperator::Increment, value: DataValue::Int(1) },
        UpdateOperation { field: "price".to_string(), operation: UpdateOperator::PercentDecrease, value: DataValue::Int(10) },
        UpdateOperation { field: "name".to_string(), operation: UpdateOperator::Assign, value: s("x") },
    ];
    let conds = vec![cond("id", QueryOperator::Eq, DataValue::Int(5))];
    let (sql, params) = build_update_with_operations(DatabaseType::PostgreSQL, "items", &registry(), &conds, &ops).unwrap();
    assert_eq!(sql, "UPDATE items SET views = views + $1, price = price * (1.0 - $2/100.0), name = $3 WHERE id = $4");
    assert_eq!(params, vec![DataValue::Int(1), DataValue::Int(10), s("x"), DataValue::Int(5)]);
    match build_update_with_operations(DatabaseType::MySQL, "items", &registry(), &conds, &[]) {
        Err(QuickDbError::ValidationError { field, .. }) => assert_eq!(field, "operations"),
        other => panic!("unexpected {:?}", other),
    }
}

#[test]
fn placeholders_match_parameters_on_postgres() {
    let conds = vec![
        cond("a", QueryOperator::NotIn, DataValue::Array(vec![DataValue::Int(1), DataValue::Int(2)])),
        cond("name", QueryOperator::Contains, s("an")),
        cond("b", QueryOperator::IsNotNull, DataValue::Null),
    ];
    let (sql, params) = SqlQueryBuilder::new()
        .database_type(DatabaseType::PostgreSQL)
        .from("users")
        .where_conditions(&conds)
        .limit(5)
        .build(&registry())
        .unwrap();
    assert_eq!(sql.matches('$').count(), params.len());
    assert!(params.iter().all(|p| *p != DataValue::Null));
}

#[test]
fn delete_with_condition_groups_is_restricted_by_them() {
    let g = QueryConditionGroup::Single(cond("id", QueryOperator::Eq, DataValue::Int(1)));
    let (sql, params) = SqlQueryBuilder::new().delete().from("users").where_condition_groups(&[g]).build(&registry()).unwrap();
    assert_eq!(sql, "DELETE FROM users WHERE id = ?");
    assert_eq!(params, vec![DataValue::Int(1)]);
}

#[test]
fn update_with_condition_groups_numbers_them_after_the_values() {
    let g = QueryConditionGroup::Group {
        operator: LogicalOperator::Or,
        conditions: vec![
            QueryConditionGroup::Single(cond("id", QueryOperator::Eq, DataValue::Int(1))),
            QueryConditionGroup::Single(cond("id", QueryOperator::Eq, DataValue::Int(2))),
        ],
    };
    let (sql, params) = SqlQueryBuilder::new()
        .database_type(DatabaseType::PostgreSQL)
        .update(vec![("name".to_string(), s("ann"))])
        .from("users")
        .where_condition_groups(&[g])
        .build(&registry())
        .unwrap();
    assert_eq!(sql, "UPDATE users SET name = $1 WHERE (id = $2 OR id = $3)");
    assert_eq!(params, vec![s("ann"), DataValue::Int(1), DataValue::Int(2)]);
}
