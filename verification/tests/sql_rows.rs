use rat_quickdb::sql_rows::{sqlite_row_to_data_map, SqliteRead};
use rat_quickdb::schema::FieldDefinition;
use rat_quickdb::sql_rows::{mysql_row_to_data_map, postgres_row_to_data_map, MysqlCell};
use rat_quickdb::error::QuickDbError;
use rat_quickdb::models::FieldType;
use rat_quickdb::sql_rows::{
    apply_timezone_offset_to_utc, array_item_value, mysql_boolean_value, mysql_datetime_value, mysql_integer_value, sqlite_array_value,
    sqlite_datetime_text, sqlite_integer_value, BooleanCell, IntegerCell, mysql_blob_value, mysql_column_reading_of,
    mysql_unsigned_value, ColumnReading, UnsignedCell, postgres_reading_of, postgres_value_of, mysql_server_version, PostgresCell, PostgresReading,
};
use rat_quickdb::types::{DataValue, OffsetTimestamp, UtcTimestamp};

fn s(v: &str) -> DataValue {
    DataValue::String(v.to_string())
}

fn is_offset_error<T: std::fmt::Debug>(r: Result<T, QuickDbError>) -> bool {
    matches!(r, Err(QuickDbError::ValidationError { ref field, .. }) if field == "timezone_offset")
}

#[test]
fn offsets_show_utc_instants_locally() {
    let t = UtcTimestamp { seconds: 100, nanos: 5 };
    assert_eq!(
        apply_timezone_offset_to_utc(t, "+08:00").unwrap(),
        OffsetTimestamp { seconds: 100, nanos: 5, offset_seconds: 28800 }
    );
    assert_eq!(
        apply_timezone_offset_to_utc(t, "-05:30").unwrap(),
        OffsetTimestamp { seconds: 100, nanos: 5, offset_seconds: -19800 }
    );
    assert!(is_offset_error(apply_timezone_offset_to_utc(t, "+23:59").map(|_| ())) == false);
    assert!(is_offset_error(apply_timezone_offset_to_utc(t, "+24:00")));
    assert!(is_offset_error(apply_timezone_offset_to_utc(t, "0800")));
    assert!(is_offset_error(apply_timezone_offset_to_utc(t, "+ab:00")));
}

#[test]
fn mysql_datetimes_read_back_at_their_offset() {
    assert_eq!(mysql_datetime_value(None, Some("+08:00")).unwrap(), DataValue::Null);
    let t = UtcTimestamp { seconds: 1700000000, nanos: 0 };
    assert_eq!(
        mysql_datetime_value(Some(t), None).unwrap(),
        DataValue::DateTime(OffsetTimestamp { seconds: 1700000000, nanos: 0, offset_seconds: 0 })
    );
    assert_eq!(
        mysql_datetime_value(Some(t), Some("+01:00")).unwrap(),
        DataValue::DateTime(OffsetTimestamp { seconds: 1700000000, nanos: 0, offset_seconds: 3600 })
    );
    assert!(is_offset_error(mysql_datetime_value(Some(t), Some("+99:00"))));
}

#[test]
fn sqlite_datetimes_read_back_as_rfc3339() {
    assert_eq!(sqlite_datetime_text(0, None).unwrap(), "1970-01-01T00:00:00+00:00");
    assert_eq!(sqlite_datetime_text(0, Some("+08:00")).unwrap(), "1970-01-01T08:00:00+08:00");
    assert_eq!(sqlite_datetime_text(1705300200, Some("-05:00")).unwrap(), "2024-01-15T01:30:00-05:00");
    assert!(matches!(sqlite_datetime_text(i64::MAX, Some("+08:00")), Err(QuickDbError::QueryError { .. })));
    assert!(is_offset_error(sqlite_datetime_text(0, Some("+30:00"))));
}

#[test]
fn sqlite_integers_read_back_by_column() {
    assert_eq!(sqlite_integer_value("active", 1), DataValue::Bool(true));
    assert_eq!(sqlite_integer_value("is_deleted", 0), DataValue::Bool(false));
    assert_eq!(sqlite_integer_value("active", 2), DataValue::Int(2));
    assert_eq!(sqlite_integer_value("count", 1), DataValue::Int(1));
    assert_eq!(sqlite_integer_value("id", 1700000000000000001), s("1700000000000000001"));
    assert_eq!(sqlite_integer_value("id", 1000000000000000000), DataValue::Int(1000000000000000000));
}

#[test]
fn sqlite_arrays_read_back_by_item_kind() {
    assert_eq!(
        sqlite_array_value(&FieldType::Integer, "[\"1\",\"-2\",\"x\"]"),
        DataValue::Array(vec![DataValue::Int(1), DataValue::Int(-2), s("x")])
    );
    assert_eq!(
        sqlite_array_value(&FieldType::Float, "[\"1.5\",\"NaN\",\"abc\"]"),
        DataValue::Array(vec![DataValue::Float("1.5".to_string()), DataValue::Float("NaN".to_string()), s("abc")])
    );
    assert_eq!(
        sqlite_array_value(&FieldType::Uuid, "[\"550e8400-e29b-41d4-a716-446655440000\",\"no\"]"),
        DataValue::Array(vec![DataValue::Uuid(0x550e8400_e29b_41d4_a716_446655440000), s("no")])
    );
    assert_eq!(sqlite_array_value(&FieldType::Text, "[\"7\"]"), DataValue::Array(vec![s("7")]));
    assert_eq!(sqlite_array_value(&FieldType::Integer, "[1,2]"), s("[1,2]"));
    assert_eq!(sqlite_array_value(&FieldType::Integer, "not json"), s("not json"));
    assert_eq!(array_item_value(&FieldType::Uuid, "x", Some(9)), DataValue::Uuid(9));
    assert_eq!(array_item_value(&FieldType::Integer, "+4", None), DataValue::Int(4));
}

#[test]
fn mysql_integers_read_back_by_width() {
    assert_eq!(mysql_integer_value("id", IntegerCell::Signed64(Some(1700000000000000001))), s("1700000000000000001"));
    assert_eq!(mysql_integer_value("n", IntegerCell::Signed64(Some(1700000000000000001))), DataValue::Int(1700000000000000001));
    assert_eq!(mysql_integer_value("n", IntegerCell::Signed32(Some(-7))), DataValue::Int(-7));
    assert_eq!(mysql_integer_value("n", IntegerCell::Unsigned64(Some(u64::MAX))), s("18446744073709551615"));
    assert_eq!(mysql_integer_value("n", IntegerCell::Unsigned64(Some(5))), DataValue::Int(5));
    assert_eq!(mysql_integer_value("n", IntegerCell::Unsigned32(Some(u32::MAX))), DataValue::Int(4294967295));
    assert_eq!(mysql_integer_value("n", IntegerCell::Text(Some("42".to_string()))), DataValue::Int(42));
    assert_eq!(mysql_integer_value("n", IntegerCell::Text(Some("4x".to_string()))), s("4x"));
    assert_eq!(mysql_integer_value("n", IntegerCell::Signed32(None)), DataValue::Null);
}

#[test]
fn mysql_booleans_read_back_from_words() {
    assert_eq!(mysql_boolean_value(BooleanCell::Bool(Some(true))), DataValue::Bool(true));
    assert_eq!(mysql_boolean_value(BooleanCell::Tiny(Some(2))), DataValue::Bool(true));
    assert_eq!(mysql_boolean_value(BooleanCell::Tiny(Some(0))), DataValue::Bool(false));
    assert_eq!(mysql_boolean_value(BooleanCell::Text(Some("YES".to_string()))), DataValue::Bool(true));
    assert_eq!(mysql_boolean_value(BooleanCell::Text(Some("Off".to_string()))), DataValue::Bool(false));
    assert_eq!(mysql_boolean_value(BooleanCell::Text(Some("maybe".to_string()))), s("maybe"));
    assert_eq!(mysql_boolean_value(BooleanCell::Text(None)), DataValue::Null);
}

#[test]
fn mysql_columns_are_read_by_type() {
    assert_eq!(mysql_column_reading_of("BIGINT"), ColumnReading::Integer);
    assert_eq!(mysql_column_reading_of("INT UNSIGNED"), ColumnReading::UnsignedInteger);
    assert_eq!(mysql_column_reading_of("DOUBLE"), ColumnReading::Float);
    assert_eq!(mysql_column_reading_of("BOOL"), ColumnReading::Boolean);
    assert_eq!(mysql_column_reading_of("BLOB"), ColumnReading::Blob);
    assert_eq!(mysql_column_reading_of("TIMESTAMP"), ColumnReading::DateTime);
    assert_eq!(mysql_column_reading_of("JSON"), ColumnReading::Text);
    assert_eq!(mysql_column_reading_of("GEOMETRY"), ColumnReading::Text);
}

#[test]
fn mysql_unsigned_integers_read_back() {
    assert_eq!(mysql_unsigned_value(UnsignedCell::Signed { value: Some(7), as_unsigned: None }), DataValue::Int(7));
    assert_eq!(mysql_unsigned_value(UnsignedCell::Signed { value: Some(-1), as_unsigned: Some(Some(u64::MAX)) }), DataValue::Int(-1));
    assert_eq!(mysql_unsigned_value(UnsignedCell::Signed { value: Some(-1), as_unsigned: Some(None) }), DataValue::Null);
    assert_eq!(mysql_unsigned_value(UnsignedCell::Unsigned(Some(u64::MAX))), s("18446744073709551615"));
    assert_eq!(mysql_unsigned_value(UnsignedCell::Text(Some("+12".to_string()))), DataValue::Int(12));
    assert_eq!(mysql_unsigned_value(UnsignedCell::Text(Some("18446744073709551615".to_string()))), s("18446744073709551615"));
    assert_eq!(mysql_unsigned_value(UnsignedCell::Text(Some("-3".to_string()))), DataValue::Int(-3));
    assert_eq!(mysql_unsigned_value(UnsignedCell::Text(Some("x".to_string()))), s("x"));
    assert_eq!(mysql_unsigned_value(UnsignedCell::Unreadable), DataValue::Null);
}

#[test]
fn mysql_blobs_read_back_as_text() {
    assert_eq!(mysql_blob_value(Some("{\"a\":1}".as_bytes().to_vec())), s("{\"a\":1}"));
    assert_eq!(mysql_blob_value(Some(vec![0xff, 0x00])), s("/wA="));
    assert_eq!(mysql_blob_value(None), DataValue::Null);
}

#[test]
fn postgres_columns_are_read_by_type_name() {
    assert_eq!(postgres_reading_of("INT4"), PostgresReading::Integer);
    assert_eq!(postgres_reading_of("INT8"), PostgresReading::Integer);
    assert_eq!(postgres_reading_of("FLOAT8"), PostgresReading::Float);
    assert_eq!(postgres_reading_of("BOOL"), PostgresReading::Boolean);
    assert_eq!(postgres_reading_of("UUID"), PostgresReading::Uuid);
    assert_eq!(postgres_reading_of("JSONB"), PostgresReading::Json);
    assert_eq!(postgres_reading_of("TEXT[]"), PostgresReading::Array);
    assert_eq!(postgres_reading_of("_int4[]"), PostgresReading::Array);
    assert_eq!(postgres_reading_of("TIMESTAMPTZ"), PostgresReading::Timestamp);
    assert_eq!(postgres_reading_of("timestamp without time zone"), PostgresReading::Timestamp);
    assert_eq!(postgres_reading_of("VARCHAR"), PostgresReading::Text);
    assert_eq!(postgres_reading_of("NUMERIC"), PostgresReading::Text);
    assert_eq!(postgres_reading_of("]"), PostgresReading::Text);
}

#[test]
fn postgres_values_read_back() {
    assert_eq!(postgres_value_of("age", PostgresCell::Int4(Some(42))), DataValue::Int(42));
    assert_eq!(postgres_value_of("age", PostgresCell::Int4(None)), DataValue::Null);
    assert_eq!(
        postgres_value_of("id", PostgresCell::Int8(Some(1234567890123456789))),
        s("1234567890123456789")
    );
    assert_eq!(
        postgres_value_of("other", PostgresCell::Int8(Some(1234567890123456789))),
        DataValue::Int(1234567890123456789)
    );
    assert_eq!(postgres_value_of("id", PostgresCell::Int8(Some(1000000000000000000))), DataValue::Int(1000000000000000000));
    assert_eq!(postgres_value_of("ok", PostgresCell::Bool(Some(true))), DataValue::Bool(true));
    assert_eq!(postgres_value_of("name", PostgresCell::Text(Some("x".to_string()))), s("x"));
    assert_eq!(
        postgres_value_of("u", PostgresCell::Uuid(Some(0x550e8400e29b41d4a716446655440000))),
        s("550e8400-e29b-41d4-a716-446655440000")
    );
    assert_eq!(
        postgres_value_of("tags", PostgresCell::StringArray(Some(vec!["a".to_string(), "b".to_string()]))),
        DataValue::Array(vec![s("a"), s("b")])
    );
    let t = UtcTimestamp { seconds: 1700000000, nanos: 7 };
    assert_eq!(
        postgres_value_of("at", PostgresCell::Timestamp(Some(t))),
        DataValue::DateTime(OffsetTimestamp { seconds: 1700000000, nanos: 7, offset_seconds: 0 })
    );
    assert_eq!(postgres_value_of("x", PostgresCell::Unreadable), DataValue::Null);
}

#[test]
fn mysql_versions_come_from_the_first_row() {
    assert_eq!(mysql_server_version(&vec![s("8.0.36")]).unwrap(), "8.0.36");
    let row = DataValue::Object(vec![("VERSION()".to_string(), s("8.4.0")), ("x".to_string(), DataValue::Int(1))]);
    assert_eq!(mysql_server_version(&vec![row, s("ignored")]).unwrap(), "8.4.0");
    assert!(matches!(mysql_server_version(&vec![]), Err(QuickDbError::QueryError { .. })));
    assert!(matches!(mysql_server_version(&vec![DataValue::Int(8)]), Err(QuickDbError::QueryError { .. })));
    let numeric = DataValue::Object(vec![("v".to_string(), DataValue::Int(8))]);
    assert!(matches!(mysql_server_version(&vec![numeric]), Err(QuickDbError::QueryError { .. })));
    assert!(matches!(mysql_server_version(&vec![DataValue::Object(vec![])]), Err(QuickDbError::QueryError { .. })));
}

#[test]
fn rows_read_back_one_entry_per_column() {
    let pg = postgres_row_to_data_map(vec![
        ("id".to_string(), PostgresCell::Int8(Some(1234567890123456789))),
        ("name".to_string(), PostgresCell::Text(Some("ann".to_string()))),
        ("broken".to_string(), PostgresCell::Unreadable),
    ]);
    assert_eq!(
        pg,
        vec![
            ("id".to_string(), s("1234567890123456789")),
            ("name".to_string(), s("ann")),
            ("broken".to_string(), DataValue::Null),
        ]
    );
    let my = mysql_row_to_data_map(vec![
        ("age".to_string(), MysqlCell::Integer(IntegerCell::Signed32(Some(7)))),
        ("ok".to_string(), MysqlCell::Boolean(BooleanCell::Text(Some("YES".to_string())))),
        ("score".to_string(), MysqlCell::Float(Some("1.5".to_string()))),
        ("data".to_string(), MysqlCell::Blob(Some(vec![0xff]))),
        ("at".to_string(), MysqlCell::DateTime(Some(UtcTimestamp { seconds: 5, nanos: 0 }))),
        ("gone".to_string(), MysqlCell::Unreadable),
    ]);
    assert_eq!(
        my,
        vec![
            ("age".to_string(), DataValue::Int(7)),
            ("ok".to_string(), DataValue::Bool(true)),
            ("score".to_string(), DataValue::Float("1.5".to_string())),
            ("data".to_string(), s("/w==")),
            ("at".to_string(), DataValue::DateTime(OffsetTimestamp { seconds: 5, nanos: 0, offset_seconds: 0 })),
            ("gone".to_string(), DataValue::Null),
        ]
    );
    assert!(postgres_row_to_data_map(vec![]).is_empty());
}

#[test]
fn rows_keep_one_entry_per_column_name() {
    let pg = postgres_row_to_data_map(vec![
        ("a".to_string(), PostgresCell::Int4(Some(1))),
        ("b".to_string(), PostgresCell::Int4(Some(2))),
        ("a".to_string(), PostgresCell::Int4(Some(3))),
    ]);
    assert_eq!(pg, vec![("a".to_string(), DataValue::Int(3)), ("b".to_string(), DataValue::Int(2))]);
    let my = mysql_row_to_data_map(vec![
        ("x".to_string(), MysqlCell::Text(Some("one".to_string()))),
        ("x".to_string(), MysqlCell::Unreadable),
    ]);
    assert_eq!(my, vec![("x".to_string(), DataValue::Null)]);
}

fn field(name: &str, field_type: FieldType, item_type: Option<FieldType>) -> (String, FieldDefinition) {
    (name.to_string(), FieldDefinition { field_type, required: false, item_type })
}

#[test]
fn sqlite_rows_read_by_field_definition() {
    let fields = vec![
        field("id", FieldType::Integer, None),
        field("created", FieldType::DateTime, None),
        field("local", FieldType::DateTimeWithTz { timezone_offset: "+08:00".to_string() }, None),
        field("flag", FieldType::Boolean, None),
        field("tags", FieldType::Array, Some(FieldType::Integer)),
        field("meta", FieldType::Json, None),
        field("data", FieldType::Binary, None),
        field("score", FieldType::Float, None),
        field("when", FieldType::Date, None),
    ];
    let row = sqlite_row_to_data_map(
        vec![
            ("id".to_string(), SqliteRead::Integer(7)),
            ("created".to_string(), SqliteRead::Integer(0)),
            ("local".to_string(), SqliteRead::Integer(0)),
            ("flag".to_string(), SqliteRead::Integer(2)),
            ("tags".to_string(), SqliteRead::Text("[\"1\",\"x\"]".to_string())),
            ("meta".to_string(), SqliteRead::Text("{\"a\":1}".to_string())),
            ("data".to_string(), SqliteRead::Bytes(vec![1, 2])),
            ("score".to_string(), SqliteRead::Real("2.5".to_string())),
            ("id".to_string(), SqliteRead::Integer(8)),
        ],
        &fields,
    )
    .unwrap();
    assert_eq!(
        row,
        vec![
            ("id".to_string(), DataValue::Int(8)),
            ("created".to_string(), s("1970-01-01T00:00:00+00:00")),
            ("local".to_string(), s("1970-01-01T08:00:00+08:00")),
            ("flag".to_string(), DataValue::Bool(false)),
            ("tags".to_string(), DataValue::Array(vec![DataValue::Int(1), s("x")])),
            ("meta".to_string(), DataValue::Json("{\"a\":1}".to_string())),
            ("data".to_string(), DataValue::Bytes(vec![1, 2])),
            ("score".to_string(), DataValue::Float("2.5".to_string())),
        ]
    );
    match sqlite_row_to_data_map(vec![("nope".to_string(), SqliteRead::Integer(1))], &fields) {
        Err(QuickDbError::ValidationError { field, .. }) => assert_eq!(field, "nope"),
        other => panic!("unexpected {:?}", other),
    }
    match sqlite_row_to_data_map(vec![("when".to_string(), SqliteRead::Text("2024-01-01".to_string()))], &fields) {
        Err(QuickDbError::ValidationError { field, .. }) => assert_eq!(field, "when"),
        other => panic!("unexpected {:?}", other),
    }
    assert!(matches!(
        sqlite_row_to_data_map(vec![("id".to_string(), SqliteRead::Failed)], &fields),
        Err(QuickDbError::QueryError { .. })
    ));
}
