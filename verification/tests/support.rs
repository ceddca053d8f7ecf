use rat_quickdb::cache_policy::{read_step, record_to_cache, CacheReply, ReadStep};
use rat_quickdb::cache_policy::{cache_invalidation, find_condition_groups, id_type_of, CacheInvalidation, IdType, WriteOutcome};
use rat_quickdb::error::QuickDbError;
use rat_quickdb::models::{get_field_type, FieldType, ModelMeta, ModelRegistry};
use rat_quickdb::render::{display_string, json_string_of};
use rat_quickdb::security::{is_safe_identifier, DatabaseSecurityValidator};
use rat_quickdb::time::{checked_local_timestamp, offset_slices_ok, convert_local_to_timestamp, convert_rfc3339_to_local, parse_timezone_offset_to_seconds};
use rat_quickdb::types::{id_strategy_from_name, IdStrategy};
use rat_quickdb::types::{DataValue, DatabaseType, LogicalOperator, OffsetTimestamp, QueryCondition, QueryConditionGroup, QueryOperator};

#[test]
fn timezone_offsets() {
    assert_eq!(parse_timezone_offset_to_seconds("+08:00").unwrap(), 28800);
    assert_eq!(parse_timezone_offset_to_seconds("-05:30").unwrap(), -19800);
    assert_eq!(parse_timezone_offset_to_seconds("+00:00").unwrap(), 0);
    for bad in ["0800", "+8:00", "+ab:00", "+08:xx", "", "+08:000"] {
        match parse_timezone_offset_to_seconds(bad) {
            Err(QuickDbError::ValidationError { field, .. }) => assert_eq!(field, "timezone_offset"),
            other => panic!("unexpected {:?} for {:?}", other, bad),
        }
    }
}

#[test]
fn local_time_to_timestamp() {
    assert_eq!(convert_local_to_timestamp("2024-01-15 14:30:00", "+08:00").unwrap(), 1705300200);
    assert_eq!(convert_local_to_timestamp("1970-01-01 00:00:00", "-01:00").unwrap(), 3600);
    match convert_local_to_timestamp("2024-01-15T14:30:00", "+08:00") {
        Err(QuickDbError::ValidationError { field, .. }) => assert_eq!(field, "datetime"),
        other => panic!("unexpected {:?}", other),
    }
    match convert_local_to_timestamp("2024-01-15 14:30:00", "+0800") {
        Err(QuickDbError::ValidationError { field, .. }) => assert_eq!(field, "timezone_offset"),
        other => panic!("unexpected {:?}", other),
    }
}

#[test]
fn rfc3339_to_local_text() {
    assert_eq!(convert_rfc3339_to_local("2024-01-15T14:30:00+08:00").unwrap(), "2024-01-15 14:30:00");
    assert!(matches!(convert_rfc3339_to_local("2024-01-15"), Err(QuickDbError::ValidationError { .. })));
}

#[test]
fn record_keys_of_ids() {
    assert_eq!(id_type_of(&DataValue::Int(5)), Some(IdType::Number(5)));
    assert_eq!(id_type_of(&DataValue::String("a".to_string())), Some(IdType::String("a".to_string())));
    assert_eq!(id_type_of(&DataValue::Bool(true)), None);
}

#[test]
fn invalidation_after_writes() {
    let nothing = CacheInvalidation { clear_query_cache: false, clear_record_cache: false, invalidate_record: None };
    let queries = CacheInvalidation { clear_query_cache: true, clear_record_cache: false, invalidate_record: None };
    assert_eq!(cache_invalidation(WriteOutcome::Created, None), queries);
    assert_eq!(cache_invalidation(WriteOutcome::Updated(3), None), queries);
    assert_eq!(cache_invalidation(WriteOutcome::TableDropped, None), queries);
    assert_eq!(cache_invalidation(WriteOutcome::Updated(0), None), nothing);
    assert_eq!(
        cache_invalidation(WriteOutcome::Deleted(2), None),
        CacheInvalidation { clear_query_cache: true, clear_record_cache: true, invalidate_record: None }
    );
    assert_eq!(cache_invalidation(WriteOutcome::Deleted(0), None), nothing);
    let id = DataValue::Int(9);
    assert_eq!(
        cache_invalidation(WriteOutcome::UpdatedById(true), Some(&id)),
        CacheInvalidation { clear_query_cache: true, clear_record_cache: false, invalidate_record: Some(IdType::Number(9)) }
    );
    assert_eq!(cache_invalidation(WriteOutcome::DeletedById(false), Some(&id)), nothing);
    assert_eq!(cache_invalidation(WriteOutcome::DeletedById(true), Some(&DataValue::Null)), nothing);
    assert_eq!(cache_invalidation(WriteOutcome::Failed, Some(&id)), nothing);
}

#[test]
fn plain_conditions_as_one_and_group() {
    assert!(find_condition_groups(&[]).is_empty());
    let c = QueryCondition { field: "a".to_string(), operator: QueryOperator::Eq, value: DataValue::Int(1) };
    let groups = find_condition_groups(&[c]);
    assert_eq!(groups.len(), 1);
    match &groups[0] {
        QueryConditionGroup::Group { operator, conditions } => {
            assert_eq!(*operator, LogicalOperator::And);
            assert_eq!(conditions.len(), 1);
            match &conditions[0] {
                QueryConditionGroup::Single(c) => {
                    assert_eq!(c.field, "a");
                    assert_eq!(c.value, DataValue::Int(1));
                }
                other => panic!("unexpected {:?}", other),
            }
        }
        other => panic!("unexpected {:?}", other),
    }
}

#[test]
fn field_kinds_by_table_and_alias() {
    let models = ModelRegistry {
        models: vec![
            ModelMeta {
                collection_name: "users".to_string(),
                database_alias: "a".to_string(),
                fields: vec![("age".to_string(), FieldType::Integer)],
            },
            ModelMeta {
                collection_name: "users".to_string(),
                database_alias: "b".to_string(),
                fields: vec![("age".to_string(), FieldType::Json)],
            },
        ],
    };
    assert!(matches!(get_field_type(&models, "users", "a", "age"), Some(FieldType::Integer)));
    assert!(matches!(get_field_type(&models, "users", "b", "age"), Some(FieldType::Json)));
    assert!(get_field_type(&models, "users", "c", "age").is_none());
    assert!(get_field_type(&models, "users", "a", "name").is_none());
}

#[test]
fn identifiers() {
    assert!(is_safe_identifier("users.id_2"));
    assert!(!is_safe_identifier(""));
    assert!(!is_safe_identifier("a b"));
    assert!(!is_safe_identifier("a;--"));
    let v = DatabaseSecurityValidator::new(DatabaseType::MySQL);
    assert_eq!(v.get_safe_field_identifier("name").unwrap(), "name");
    assert!(matches!(v.get_safe_field_identifier("na'me"), Err(QuickDbError::ValidationError { .. })));
}

#[test]
fn display_and_json_texts() {
    let v = DataValue::Array(vec![
        DataValue::Int(-1),
        DataValue::String("a\"b".to_string()),
        DataValue::Bool(true),
        DataValue::Null,
        DataValue::Float("inf".to_string()),
    ]);
    assert_eq!(display_string(&v), "[-1, a\"b, true, null, inf]");
    assert_eq!(json_string_of(&v), "[-1,\"a\\\"b\",true,null,null]");
    let t = DataValue::DateTime(OffsetTimestamp { seconds: 1705300200, nanos: 0, offset_seconds: 28800 });
    assert_eq!(display_string(&t), "2024-01-15T14:30:00+08:00");
    assert_eq!(json_string_of(&t), "\"2024-01-15T14:30:00+08:00\"");
    let u = DataValue::Uuid(0x123e4567_e89b_12d3_a456_426614174000);
    assert_eq!(display_string(&u), uuid::Uuid::from_u128(0x123e4567_e89b_12d3_a456_426614174000).to_string());
    assert_eq!(display_string(&DataValue::Bytes(vec![1, 2])), "<2 bytes>");
}

#[test]
fn id_strategies_are_named_in_configuration() {
    assert!(matches!(id_strategy_from_name(Some("Uuid")), IdStrategy::Uuid));
    assert!(matches!(id_strategy_from_name(Some("ObjectId")), IdStrategy::ObjectId));
    assert!(matches!(
        id_strategy_from_name(Some("Snowflake")),
        IdStrategy::Snowflake { machine_id: 1, datacenter_id: 1 }
    ));
    assert!(matches!(id_strategy_from_name(Some("Custom:usr_")), IdStrategy::Custom(ref p) if p == "usr_"));
    assert!(matches!(id_strategy_from_name(Some("Custom:")), IdStrategy::Custom(ref p) if p.is_empty()));
    assert!(matches!(id_strategy_from_name(Some("custom:x")), IdStrategy::AutoIncrement));
    assert!(matches!(id_strategy_from_name(Some("uuid")), IdStrategy::AutoIncrement));
    assert!(matches!(id_strategy_from_name(None), IdStrategy::AutoIncrement));
}

#[test]
fn cached_reads_answer_hits_and_cache_found_records() {
    assert!(matches!(read_step(CacheReply::Hit(3)), ReadStep::Answer(3)));
    assert!(matches!(read_step(CacheReply::<i32>::Miss), ReadStep::AskInner));
    assert!(matches!(read_step(CacheReply::<i32>::Failed), ReadStep::AskInner));
    assert_eq!(record_to_cache(&Ok(Some(rat_quickdb::types::DataValue::Int(1)))), Some(rat_quickdb::types::DataValue::Int(1)));
    assert_eq!(record_to_cache(&Ok(None)), None);
    assert_eq!(record_to_cache(&Err(rat_quickdb::error::query_error("x"))), None);
}

#[test]
fn validation_errors_keep_field_and_message() {
    match rat_quickdb::error::validation_error("age", "bad age") {
        rat_quickdb::error::QuickDbError::ValidationError { field, message } => {
            assert_eq!(field, "age");
            assert_eq!(message, "bad age");
        }
        other => panic!("unexpected {:?}", other),
    }
}

#[test]
fn local_timestamps_are_checked_before_slicing_offsets() {
    assert_eq!(checked_local_timestamp("2024-01-15 14:30:00", "+08:00").unwrap().unwrap(), 1705300200);
    assert!(checked_local_timestamp("2024-01-15 14:30:00", "+0é:0").is_none());
    match checked_local_timestamp("nope", "+0é:0") {
        Some(Err(QuickDbError::ValidationError { field, .. })) => assert_eq!(field, "datetime"),
        other => panic!("unexpected {:?}", other),
    }
    assert!(offset_slices_ok("+08:00"));
    assert!(!offset_slices_ok("+0é:0"));
    assert!(offset_slices_ok("é"));
}
