use rat_quickdb::error::QuickDbError;
use rat_quickdb::models::ModelMeta;
use rat_quickdb::procedures::{generate_postgres_procedure_template, generate_sqlite_procedure_sql, ProcedureJoin, StoredProcedureConfig};
use rat_quickdb::query_builder::JoinType;
use rat_quickdb::templates::build_postgres_query_from_template;
use rat_quickdb::types::DataValue;

fn model(table: &str) -> ModelMeta {
    ModelMeta { collection_name: table.to_string(), database_alias: "main".to_string(), fields: vec![] }
}

fn config(joins: Vec<ProcedureJoin>, dependencies: Vec<ModelMeta>) -> StoredProcedureConfig {
    StoredProcedureConfig {
        procedure_name: "user_orders".to_string(),
        database: "main".to_string(),
        dependencies,
        fields: vec![
            ("name".to_string(), "users.name".to_string()),
            ("total".to_string(), "SUM(orders.amount)".to_string()),
            ("id".to_string(), "id".to_string()),
        ],
        joins,
        mongo_pipeline: None,
    }
}

#[test]
fn postgres_procedures_are_query_templates() {
    let joins = vec![ProcedureJoin {
        table: "orders".to_string(),
        local_field: "users.id".to_string(),
        foreign_field: "orders.user_id".to_string(),
        join_type: JoinType::Left,
    }];
    let t = generate_postgres_procedure_template(&config(joins, vec![model("users"), model("orders")])).unwrap();
    assert_eq!(
        t,
        "SELECT users.name AS name, SUM(orders.amount) AS total, id FROM users  LEFT JOIN orders ON users.id = orders.user_id{WHERE}{GROUP_BY}{HAVING}{ORDER_BY}{LIMIT}{OFFSET}"
    );
    let plain = generate_postgres_procedure_template(&config(vec![], vec![model("users")])).unwrap();
    assert_eq!(plain, "SELECT users.name AS name, SUM(orders.amount) AS total, id FROM users{WHERE}{GROUP_BY}{HAVING}{ORDER_BY}{LIMIT}{OFFSET}");
    let params = vec![("GROUP_BY".to_string(), DataValue::String("users.name".to_string()))];
    assert_eq!(
        build_postgres_query_from_template(&plain, Some(&params)),
        "SELECT users.name AS name, SUM(orders.amount) AS total, id FROM users GROUP BY users.name"
    );
}

#[test]
fn sqlite_procedures_chain_their_joins() {
    let joins = vec![
        ProcedureJoin {
            table: "orders".to_string(),
            local_field: "id".to_string(),
            foreign_field: "user_id".to_string(),
            join_type: JoinType::Inner,
        },
        ProcedureJoin {
            table: "items".to_string(),
            local_field: "id".to_string(),
            foreign_field: "order_id".to_string(),
            join_type: JoinType::Full,
        },
    ];
    let sql = generate_sqlite_procedure_sql(&config(joins, vec![model("users")])).unwrap();
    assert_eq!(
        sql,
        "CREATE PROCEDURE IF NOT EXISTS user_orders()\nAS BEGIN\n    SELECT users.name AS name, SUM(orders.amount) AS total, id\n    FROM users INNER JOIN orders ON users.id = orders.user_id  FULL OUTER JOIN items ON orders.id = items.order_id\n; END"
    );
}

#[test]
fn procedures_need_a_main_table() {
    for r in [generate_sqlite_procedure_sql(&config(vec![], vec![])), generate_postgres_procedure_template(&config(vec![], vec![]))] {
        match r {
            Err(QuickDbError::ValidationError { field, .. }) => assert_eq!(field, "dependencies"),
            other => panic!("unexpected {:?}", other),
        }
    }
}
