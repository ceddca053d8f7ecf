use rat_quickdb::error::QuickDbError;
use rat_quickdb::models::{FieldType, ModelMeta, ModelRegistry};
use rat_quickdb::sql_inserts::SqliteValue;
use rat_quickdb::sqlite_ops::{
    check_table_not_exist_error, convert_group, count_groups_statement, count_statement, delete_by_id_statement, delete_statement,
    plain_bind_value, statement_error,
};
use rat_quickdb::types::{
    DataValue, LogicalOperator, QueryCondition, QueryConditionGroup, QueryConditionGroupWithConfig, QueryConditionWithConfig,
    QueryOperator,
};

fn cond(field: &str, operator: QueryOperator, value: DataValue, case_insensitive: bool) -> QueryConditionWithConfig {
    QueryConditionWithConfig { field: field.to_string(), operator, value, case_insensitive }
}

fn s(v: &str) -> DataValue {
    DataValue::String(v.to_string())
}

fn registry() -> ModelRegistry {
    ModelRegistry {
        models: vec![ModelMeta {
            collection_name: "users".to_string(),
            database_alias: "main".to_string(),
            fields: vec![("name".to_string(), FieldType::Text), ("age".to_string(), FieldType::Integer)],
        }],
    }
}

#[test]
fn configured_trees_become_plain_trees() {
    let g = QueryConditionGroupWithConfig::GroupWithConfig {
        operator: LogicalOperator::Or,
        conditions: vec![
            QueryConditionGroupWithConfig::Single(cond("name", QueryOperator::Eq, s("Ann"), true)),
            QueryConditionGroupWithConfig::GroupWithConfig { operator: LogicalOperator::And, conditions: vec![] },
        ],
    };
    match convert_group(&g) {
        QueryConditionGroup::Group { operator: LogicalOperator::Or, conditions } => {
            assert_eq!(conditions.len(), 2);
            match &conditions[0] {
                QueryConditionGroup::Single(QueryCondition { field, operator: QueryOperator::Eq, value }) => {
                    assert_eq!(field, "name");
                    assert_eq!(value, &s("Ann"));
                }
                other => panic!("unexpected {:?}", other),
            }
            assert!(matches!(&conditions[1], QueryConditionGroup::Group { operator: LogicalOperator::And, conditions } if conditions.is_empty()));
        }
        other => panic!("unexpected {:?}", other),
    }
}

#[test]
fn plain_parameters_bind_by_kind() {
    assert_eq!(plain_bind_value(&s("x")), SqliteValue::Text("x".to_string()));
    assert_eq!(plain_bind_value(&DataValue::Int(4)), SqliteValue::Integer(4));
    assert_eq!(plain_bind_value(&DataValue::Float("1.5".to_string())), SqliteValue::Real("1.5".to_string()));
    assert_eq!(plain_bind_value(&DataValue::Bool(false)), SqliteValue::Integer(0));
    assert_eq!(plain_bind_value(&DataValue::Null), SqliteValue::Text("null".to_string()));
    assert_eq!(plain_bind_value(&DataValue::UInt(9)), SqliteValue::Text("9".to_string()));
}

#[test]
fn missing_tables_are_recognised() {
    assert!(check_table_not_exist_error("error returned from database: (code: 1) no such table: users", "users"));
    assert!(check_table_not_exist_error("No Such Table: Users", "USERS"));
    assert!(check_table_not_exist_error("Table 'x' not found", "y"));
    assert!(!check_table_not_exist_error("database is locked", "users"));
    match statement_error("no such table: users", "users") {
        QuickDbError::TableNotExistError { table, .. } => assert_eq!(table, "users"),
        other => panic!("unexpected {:?}", other),
    }
    assert!(matches!(statement_error("disk I/O error", "users"), QuickDbError::QueryError { .. }));
}

#[test]
fn counts_and_deletes_are_built() {
    let models = registry();
    let (sql, params) =
        count_statement("users", "main", &[cond("age", QueryOperator::Gt, DataValue::Int(18), false)], &models).unwrap();
    assert_eq!(sql, "SELECT COUNT(*) as count FROM users WHERE age > ?");
    assert_eq!(params, vec![DataValue::Int(18)]);
    let (sql, params) = count_statement("users", "main", &[], &models).unwrap();
    assert_eq!(sql, "SELECT COUNT(*) as count FROM users");
    assert!(params.is_empty());
    let groups = vec![QueryConditionGroupWithConfig::GroupWithConfig {
        operator: LogicalOperator::Or,
        conditions: vec![
            QueryConditionGroupWithConfig::Single(cond("age", QueryOperator::Lt, DataValue::Int(3), true)),
            QueryConditionGroupWithConfig::Single(cond("name", QueryOperator::Eq, s("bo"), true)),
        ],
    }];
    let (sql, params) = count_groups_statement("users", "main", &groups, &models).unwrap();
    assert_eq!(sql, "SELECT COUNT(*) as count FROM users WHERE (age < ? OR name = ?)");
    assert_eq!(params, vec![DataValue::Int(3), s("bo")]);
    let (sql, params) = delete_statement("users", "main", &[cond("name", QueryOperator::Eq, s("x"), false)], &models).unwrap();
    assert_eq!(sql, "DELETE FROM users WHERE name = ?");
    assert_eq!(params, vec![s("x")]);
    let (sql, params) = delete_by_id_statement("users", "main", &DataValue::Int(7), &models).unwrap();
    assert_eq!(sql, "DELETE FROM users WHERE id = ?");
    assert_eq!(params, vec![DataValue::Int(7)]);
    assert!(matches!(delete_statement("", "main", &[], &models), Err(QuickDbError::QueryError { .. })));
}
