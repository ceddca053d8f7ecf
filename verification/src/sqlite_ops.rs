//! What the SQLite back end decides around its delete and count
//! statements: the statements themselves, the values bound for them, and
//! how a failed statement is reported.

use vstd::prelude::*;
use crate::error::{QuickDbError, ErrorKind};
use crate::models::ModelRegistry;
use crate::mongo::{unicode_lowercase, to_lowercase, message_contains};
use crate::query_builder::{QueryType, clause_matches};
use crate::render::{display_text, display_string};
use crate::sql_inserts::{SqliteValue, SqliteCell};
use crate::sqlite::{SqlQueryBuilder, SqliteBuilderView, statement};
use crate::text::{chars_of, contains_seq};
use crate::types::{
    Condition, DataValue, Group, QueryConditionGroup, QueryConditionGroupWithConfig, QueryConditionWithConfig,
    QueryCondition, QueryOperator, Value, config_conditions_model, config_groups_model,
};

verus! {

/// A condition tree without case configuration: every condition compares
/// with case.
pub open spec fn plain_group(g: Group) -> Group
    decreases g,
{
    match g {
        Group::Single(c) => Group::Single(Condition { case_insensitive: false, ..c }),
        Group::Group { operator, conditions } => Group::Group {
            operator,
            conditions: Seq::new(
                conditions.len(),
                |i: int| if 0 <= i < conditions.len() { plain_group(conditions[i]) } else { Group::Group { operator, conditions: Seq::empty() } },
            ),
        },
    }
}

/// A configured condition tree as a plain one (see `plain_group`);
/// SQLite has no case-insensitive comparison to configure.
#[verifier::loop_isolation(false)]
pub fn convert_group(group: &QueryConditionGroupWithConfig) -> (r: QueryConditionGroup)
    ensures
        r@ == plain_group(group@),
    decreases group,
{
    match group {
        QueryConditionGroupWithConfig::Single(c) => QueryConditionGroup::Single(QueryCondition {
            field: c.field.clone(),
            operator: c.operator,
            value: c.value.duplicate(),
        }),
        QueryConditionGroupWithConfig::GroupWithConfig { operator, conditions } => {
            let ghost m = group@->Group_conditions;
            let mut out: Vec<QueryConditionGroup> = Vec::new();
            let mut i: usize = 0;
            while i < conditions.len()
                invariant
                    i <= conditions.len(),
                    out@.len() == i,
                    forall|j: int| 0 <= j < i ==> #[trigger] out@[j]@ == plain_group(m[j]),
                decreases conditions.len() - i,
            {
                proof {
                    assert(decreases_to!(conditions@ => conditions@[i as int]));
                }
                assert(m[i as int] == conditions@[i as int]@);
                out.push(convert_group(&conditions[i]));
                i = i + 1;
            }
            let r = QueryConditionGroup::Group { operator: *operator, conditions: out };
            assert(r@->Group_conditions =~= plain_group(group@)->Group_conditions) by {
                assert(forall|k: int| 0 <= k < out@.len() ==> r@->Group_conditions[k] == out@[k]@);
            }
            r
        },
    }
}

/// The SQLite value a parameter of a delete or a count is bound as:
/// strings, integers and floats as they are, a boolean as 1 or 0, and
/// any other value as its display text.
pub open spec fn plain_sqlite_value(v: Value) -> SqliteCell {
    match v {
        Value::Str(s) => SqliteCell::Text(s),
        Value::Int(i) => SqliteCell::Integer(i),
        Value::Float(t) => SqliteCell::Real(t),
        Value::Bool(b) => SqliteCell::Integer(if b { 1 } else { 0 }),
        _ => SqliteCell::Text(display_text(v)),
    }
}

/// The SQLite value a parameter of a delete or a count is bound as (see
/// `plain_sqlite_value`).
pub fn plain_bind_value(v: &DataValue) -> (r: SqliteValue)
    ensures
        r@ == plain_sqlite_value(v@),
{
    match v {
        DataValue::String(s) => SqliteValue::Text(s.clone()),
        DataValue::Int(i) => SqliteValue::Integer(*i),
        DataValue::Float(t) => SqliteValue::Real(t.clone()),
        DataValue::Bool(b) => SqliteValue::Integer(if *b { 1 } else { 0 }),
        _ => SqliteValue::Text(display_string(v)),
    }
}

/// Whether an SQLite error message says that `table` does not exist: its
/// lowercase text mentions no such table (in general, or
/// `no such table: <table>`), or both a table and something not found.
pub open spec fn table_missing_message(message: Seq<char>, table: Seq<char>) -> bool {
    let m = unicode_lowercase(message);
    contains_seq(m, "no such table"@)
        || contains_seq(m, "no such table: "@ + unicode_lowercase(table))
        || (contains_seq(m, "table"@) && contains_seq(m, "not found"@))
}

/// Whether an SQLite error message says that `table` does not exist (see
/// `table_missing_message`).
pub fn check_table_not_exist_error(error_message: &str, table: &str) -> (b: bool)
    ensures
        b == table_missing_message(error_message@, table@),
{
    let lowered = to_lowercase(error_message);
    let m = chars_of(lowered.as_str());
    let mut named = String::new();
    named.append("no such table: ");
    let lt = to_lowercase(table);
    named.append(lt.as_str());
    message_contains(&m, "no such table")
        || message_contains(&m, named.as_str())
        || (message_contains(&m, "table") && message_contains(&m, "not found"))
}

/// The error a failed SQLite statement on `table` is reported as: that
/// the table does not exist when the message says so (see
/// `table_missing_message`), and a query error otherwise.
pub fn statement_error(error_message: &str, table: &str) -> (e: QuickDbError)
    ensures
        table_missing_message(error_message@, table@) ==> e@ == (ErrorKind::TableNotExist { table: table@ }),
        !table_missing_message(error_message@, table@) ==> e@ == ErrorKind::Query,
{
    if check_table_not_exist_error(error_message, table) {
        QuickDbError::TableNotExistError { table: table.to_owned(), message: error_message.to_owned() }
    } else {
        QuickDbError::QueryError { message: error_message.to_owned() }
    }
}

/// The builder of a count: `COUNT(*) as count` under the given
/// conditions.
pub open spec fn count_builder(conditions: Seq<Condition>, groups: Seq<Group>) -> SqliteBuilderView {
    SqliteBuilderView {
        query_type: QueryType::Select,
        fields: seq!["COUNT(*) as count"@],
        conditions,
        groups,
        joins: Seq::empty(),
        order_by: Seq::empty(),
        group_by: Seq::empty(),
        having: Seq::empty(),
        limit: None,
        offset: None,
        values: Seq::empty(),
        returning: Seq::empty(),
    }
}

/// The builder of a delete under the given conditions.
pub open spec fn delete_builder(conditions: Seq<Condition>) -> SqliteBuilderView {
    SqliteBuilderView {
        query_type: QueryType::Delete,
        fields: Seq::empty(),
        conditions,
        groups: Seq::empty(),
        joins: Seq::empty(),
        order_by: Seq::empty(),
        group_by: Seq::empty(),
        having: Seq::empty(),
        limit: None,
        offset: None,
        values: Seq::empty(),
        returning: Seq::empty(),
    }
}

/// The statement that counts the rows of `table` matching conditions.
pub fn count_statement(table: &str, alias: &str, conditions: &[QueryConditionWithConfig], models: &ModelRegistry)
    -> (r: Result<(String, Vec<DataValue>), QuickDbError>)
    ensures
        clause_matches(r, statement(count_builder(config_conditions_model(conditions@), Seq::empty()), models@, table@, alias@)),
{
    let fields: [&str; 1] = ["COUNT(*) as count"];
    let b = SqlQueryBuilder::new().select(&fields).where_conditions(conditions);
    assert(crate::query_builder::strs_model(fields@) =~= seq!["COUNT(*) as count"@]);
    assert(b@ == count_builder(config_conditions_model(conditions@), Seq::empty()));
    b.build(table, alias, models)
}

/// The statement that counts the rows of `table` matching configured
/// condition trees, with the trees made plain (see `convert_group`).
pub fn count_groups_statement(
    table: &str,
    alias: &str,
    condition_groups: &[QueryConditionGroupWithConfig],
    models: &ModelRegistry,
) -> (r: Result<(String, Vec<DataValue>), QuickDbError>)
    ensures
        clause_matches(r, statement(
            count_builder(Seq::empty(), config_groups_model(condition_groups@).map_values(|g: Group| plain_group(g))),
            models@,
            table@,
            alias@,
        )),
{
    let mut simple: Vec<QueryConditionGroup> = Vec::new();
    let mut i: usize = 0;
    while i < condition_groups.len()
        invariant
            i <= condition_groups.len(),
            simple@.len() == i,
            forall|j: int| 0 <= j < i ==> #[trigger] simple@[j]@ == plain_group(condition_groups@[j]@),
        decreases condition_groups.len() - i,
    {
        simple.push(convert_group(&condition_groups[i]));
        i = i + 1;
    }
    let fields: [&str; 1] = ["COUNT(*) as count"];
    let b = SqlQueryBuilder::new().select(&fields).where_condition_groups(simple.as_slice());
    assert(crate::query_builder::strs_model(fields@) =~= seq!["COUNT(*) as count"@]);
    assert(crate::types::groups_model(simple@) =~= config_groups_model(condition_groups@).map_values(|g: Group| plain_group(g)));
    assert(b@ == count_builder(Seq::empty(), config_groups_model(condition_groups@).map_values(|g: Group| plain_group(g))));
    b.build(table, alias, models)
}

/// The statement that deletes the rows of `table` matching conditions.
pub fn delete_statement(table: &str, alias: &str, conditions: &[QueryConditionWithConfig], models: &ModelRegistry)
    -> (r: Result<(String, Vec<DataValue>), QuickDbError>)
    ensures
        clause_matches(r, statement(delete_builder(config_conditions_model(conditions@)), models@, table@, alias@)),
{
    let b = SqlQueryBuilder::new().delete().where_conditions(conditions);
    assert(b@ == delete_builder(config_conditions_model(conditions@)));
    b.build(table, alias, models)
}

/// The condition that selects a record by its id.
pub open spec fn id_condition(id: Value) -> Condition {
    Condition { field: "id"@, operator: QueryOperator::Eq, value: id, case_insensitive: false }
}

/// The statement that deletes the record of `table` with the given id.
pub fn delete_by_id_statement(table: &str, alias: &str, id: &DataValue, models: &ModelRegistry)
    -> (r: Result<(String, Vec<DataValue>), QuickDbError>)
    ensures
        clause_matches(r, statement(delete_builder(seq![id_condition(id@)]), models@, table@, alias@)),
{
    let condition = QueryConditionWithConfig {
        field: "id".to_owned(),
        operator: QueryOperator::Eq,
        value: id.duplicate(),
        case_insensitive: false,
    };
    let conditions = [condition];
    assert(config_conditions_model(conditions@) =~= seq![id_condition(id@)]);
    delete_statement(table, alias, &conditions, models)
}

} // verus!
