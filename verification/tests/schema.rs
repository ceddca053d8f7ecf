use rat_quickdb::models::FieldType;
use rat_quickdb::schema::{
    column_type_text, mysql_column_type_text, mysql_create_index_sql, mysql_create_table_sql, sqlite_create_index_sql,
    sqlite_create_table_sql, FieldDefinition, drop_table_sql,
};
use rat_quickdb::types::IdStrategy;

fn def(field_type: FieldType, required: bool) -> FieldDefinition {
    FieldDefinition { field_type, required, item_type: None }
}

#[test]
fn sqlite_tables_get_an_implicit_id() {
    let fields = vec![
        ("name".to_string(), def(FieldType::String { max_length: Some(50) }, true)),
        ("active".to_string(), def(FieldType::Boolean, false)),
        ("avatar".to_string(), def(FieldType::Binary, false)),
    ];
    assert_eq!(
        sqlite_create_table_sql("users", &fields),
        "CREATE TABLE IF NOT EXISTS users (id INTEGER PRIMARY KEY AUTOINCREMENT, name VARCHAR(50) NOT NULL, active INTEGER , avatar BLOB )"
    );
}

#[test]
fn sqlite_tables_keep_a_declared_id() {
    let fields = vec![
        ("id".to_string(), def(FieldType::Uuid, true)),
        ("score".to_string(), def(FieldType::Decimal { precision: 10, scale: 2 }, true)),
    ];
    assert_eq!(
        sqlite_create_table_sql("t", &fields),
        "CREATE TABLE IF NOT EXISTS t (id TEXT PRIMARY KEY, score REAL NOT NULL)"
    );
}

#[test]
fn sqlite_column_types() {
    assert_eq!(column_type_text(&FieldType::String { max_length: None }), "TEXT");
    assert_eq!(column_type_text(&FieldType::BigInteger), "INTEGER");
    assert_eq!(column_type_text(&FieldType::Double), "REAL");
    assert_eq!(column_type_text(&FieldType::Json), "TEXT");
    assert_eq!(column_type_text(&FieldType::DateTimeWithTz { timezone_offset: "+08:00".to_string() }), "TEXT");
}

#[test]
fn sqlite_indexes() {
    let fields = vec!["a".to_string(), "b".to_string()];
    assert_eq!(sqlite_create_index_sql("t", "idx_ab", &fields, true), "CREATE UNIQUE INDEX IF NOT EXISTS idx_ab ON t (a, b)");
    assert_eq!(sqlite_create_index_sql("t", "idx_a", &vec!["a".to_string()], false), "CREATE INDEX IF NOT EXISTS idx_a ON t (a)");
}

#[test]
fn mysql_tables_take_their_id_from_the_strategy() {
    let fields = vec![
        ("id".to_string(), def(FieldType::Text, true)),
        ("name".to_string(), def(FieldType::String { max_length: None }, true)),
        ("price".to_string(), def(FieldType::Decimal { precision: 10, scale: 2 }, false)),
        ("seen".to_string(), def(FieldType::DateTimeWithTz { timezone_offset: "+08:00".to_string() }, false)),
    ];
    assert_eq!(
        mysql_create_table_sql("items", &fields, &IdStrategy::AutoIncrement),
        "CREATE TABLE IF NOT EXISTS items (id BIGINT AUTO_INCREMENT PRIMARY KEY, name VARCHAR(1000) NOT NULL, price DECIMAL(10,2) NULL, seen DATETIME NULL)"
    );
    assert_eq!(mysql_create_table_sql("e", &vec![], &IdStrategy::Uuid), "CREATE TABLE IF NOT EXISTS e (id VARCHAR(36) PRIMARY KEY)");
    assert_eq!(mysql_column_type_text(&FieldType::Reference { target_collection: "u".to_string() }), "VARCHAR(255)");
    assert_eq!(mysql_column_type_text(&FieldType::Array), "JSON");
    assert_eq!(mysql_create_index_sql("t", "i", &vec!["a".to_string()], true), "CREATE UNIQUE INDEX i ON t (a)");
}

#[test]
fn drop_statements_name_the_table() {
    assert_eq!(drop_table_sql("users"), "DROP TABLE IF EXISTS users");
}
