//! The SQLite query builder: `?` placeholders, range values converted by
//! the registered field kind, and array fields searched with LIKE.

use vstd::prelude::*;
use crate::error::{QuickDbError, ErrorKind, query_error, validation_error};
use crate::models::{FieldKind, FieldType, ModelRegistry, ModelView, field_kind, get_field_type, option_kind};
use crate::numbers::{parse_i64, parse_i64_text, valid_float_text, is_float_text};
use crate::postgres_utils::like_anywhere;
use crate::query_builder::{
    clause_matches, logical_word, no_values, single_value, QueryType, JoinType, JoinClause, OrderClause, JoinView,
    OrderView, comma, entries_model, join_text, joins_text, non_null_entries, optional_list, order_text, strs_model,
    append_values, order_texts, push_joins, push_optional_list, push_returning, split_non_null, strs_to_strings,
};
use crate::render::{uuid_text, push_uuid};
use crate::security::{DatabaseSecurityValidator, safe_identifier};
use crate::sql::{
    comparison_word, is_comparison, is_not_null_word, is_null_word, like_pattern, like_pattern_value,
    like_word, push_comparison_word, push_is_null_word, push_like_word, push_regexp_word, regexp_word,
};
use crate::text::{
    count_char, decimal, join, lemma_count_char_concat, lemma_count_char_none, lemma_count_join, lemma_parts_count_concat,
    parts_count, push_char, push_signed_decimal, signed_decimal,
};
use crate::update_operations::{OperationView, UpdateOperation, operation_items, operation_set_items, operations_model};
use crate::time::{naive_timestamp, parse_naive_timestamp, parse_rfc3339_timestamp, rfc3339_timestamp};
use crate::types::{
    DataValue, DatabaseType, Value, Condition, Group, QueryCondition, QueryConditionGroup, QueryConditionWithConfig,
    QueryOperator, LogicalOperator, QueryConditionGroupWithConfig, SortDirection, values_model, groups_model,
    config_groups_model, config_conditions_model,
};

verus! {

/// `?`, the placeholder of every SQLite parameter.
pub open spec fn qmark() -> Seq<char> {
    seq!['?']
}

/// The value a range comparison (`>`, `>=`, `<`, `<=`) on `field` binds,
/// by the kind registered for the field: date-time fields take a date-time
/// or a text in RFC 3339 or `YYYY-MM-DD HH:MM:SS` (UTC) form as its Unix
/// timestamp; integer fields take an integer or its decimal text; float
/// fields take a float, an integer, or a float's text; fields of any
/// other kind keep the value as it is. An unregistered field, and values
/// of no such form for the kinds above, are refused.
pub open spec fn range_value(
    models: Seq<ModelView>,
    table: Seq<char>,
    alias: Seq<char>,
    field: Seq<char>,
    v: Value,
) -> Result<Value, ErrorKind> {
    let refused = Err(ErrorKind::Validation { field: field });
    match field_kind(models, table, alias, field) {
        None => refused,
        Some(kind) => match kind {
            FieldKind::DateTime | FieldKind::DateTimeWithTz { .. } => match v {
                Value::Str(s) => match rfc3339_timestamp(s) {
                    Some(t) => Ok(Value::Int(t)),
                    None => match naive_timestamp(s) {
                        Some(t) => Ok(Value::Int(t)),
                        None => refused,
                    },
                },
                Value::DateTime(t) => Ok(Value::Int(t.seconds)),
                Value::DateTimeUTC(t) => Ok(Value::Int(t.seconds)),
                _ => Ok(v),
            },
            FieldKind::Integer | FieldKind::BigInteger => match v {
                Value::Int(_) => Ok(v),
                Value::Str(s) => match parse_i64(s) {
                    Some(i) => Ok(Value::Int(i)),
                    None => refused,
                },
                _ => refused,
            },
            FieldKind::Float | FieldKind::Double => match v {
                Value::Float(_) => Ok(v),
                Value::Int(i) => Ok(Value::Float(signed_decimal(i as int))),
                Value::Str(s) => if valid_float_text(s) { Ok(Value::Float(s)) } else { refused },
                _ => refused,
            },
            _ => Ok(v),
        },
    }
}

/// Whether a value can be searched for in an array field: a string, an
/// integer, a float or a UUID.
pub open spec fn searchable(v: Value) -> bool {
    v is Str || v is Int || v is Float || v is Uuid
}

/// The text an array item is stored as inside the array's JSON text,
/// quotes included.
pub open spec fn quoted_item(v: Value) -> Seq<char> {
    let t = match v {
        Value::Str(s) => s,
        Value::Int(i) => signed_decimal(i as int),
        Value::Float(f) => f,
        Value::Uuid(u) => uuid_text(u),
        _ => Seq::empty(),
    };
    seq!['"'] + t + seq!['"']
}

/// The LIKE parameters that find each item inside an array field.
pub open spec fn item_patterns(items: Seq<Value>) -> Seq<Value> {
    Seq::new(items.len(), |k: int| Value::Str(like_anywhere(quoted_item(items[k]))))
}

/// `n` copies of `field LIKE ?`.
pub open spec fn like_clauses(field: Seq<char>, n: nat) -> Seq<Seq<char>> {
    Seq::new(n, |k: int| field + like_word() + qmark())
}

/// The LIKE clause of a Contains condition: the field must be registered
/// as a string field and the value must be a string.
pub open spec fn contains_clause(
    models: Seq<ModelView>,
    table: Seq<char>,
    alias: Seq<char>,
    c: Condition,
) -> Result<(Seq<char>, Seq<Value>), ErrorKind> {
    match field_kind(models, table, alias, c.field) {
        Some(FieldKind::String { .. }) => match c.value {
            Value::Str(s) => Ok((c.field + like_word() + qmark(), seq![Value::Str(like_anywhere(s))])),
            _ => Err(ErrorKind::Validation { field: c.field }),
        },
        _ => Err(ErrorKind::Validation { field: c.field }),
    }
}

/// The items of an IN condition on an array field: a non-empty array of
/// searchable values.
pub open spec fn in_items(c: Condition) -> Result<Seq<Value>, ErrorKind> {
    match c.value {
        Value::Array(items) => if items.len() == 0 {
            Err(ErrorKind::Query)
        } else if exists|k: int| 0 <= k < items.len() && !#[trigger] searchable(items[k]) {
            Err(ErrorKind::Validation { field: c.field })
        } else {
            Ok(items)
        },
        _ => Err(ErrorKind::Query),
    }
}

/// The clause and parameters of one condition inside a condition tree.
/// Range comparisons bind `range_value`; Contains needs a string field
/// and a string value; IN needs an array field and searches it with one
/// LIKE per item (joined with ` OR ` in parentheses when there are two or
/// more); NOT IN and JsonContains are refused.
pub open spec fn condition_clause(
    models: Seq<ModelView>,
    table: Seq<char>,
    alias: Seq<char>,
    c: Condition,
) -> Result<(Seq<char>, Seq<Value>), ErrorKind> {
    let f = c.field;
    if !safe_identifier(f) {
        Err(ErrorKind::Validation { field: f })
    } else if c.operator == QueryOperator::Eq || c.operator == QueryOperator::Ne {
        Ok((f + comparison_word(c.operator) + qmark(), seq![c.value]))
    } else if is_comparison(c.operator) {
        match range_value(models, table, alias, f, c.value) {
            Ok(p) => Ok((f + comparison_word(c.operator) + qmark(), seq![p])),
            Err(e) => Err(e),
        }
    } else {
        match c.operator {
            QueryOperator::Contains => contains_clause(models, table, alias, c),
            QueryOperator::JsonContains => Err(ErrorKind::Validation { field: f }),
            QueryOperator::StartsWith => Ok((f + like_word() + qmark(), seq![like_pattern(c.value, false, true)])),
            QueryOperator::EndsWith => Ok((f + like_word() + qmark(), seq![like_pattern(c.value, true, false)])),
            QueryOperator::In => match field_kind(models, table, alias, f) {
                Some(FieldKind::Array) => match in_items(c) {
                    Ok(items) => if items.len() == 1 {
                        Ok((f + like_word() + qmark(), item_patterns(items)))
                    } else {
                        Ok((seq!['('] + join(like_clauses(f, items.len()), crate::query_builder::or_word()) + seq![')'], item_patterns(items)))
                    },
                    Err(e) => Err(e),
                },
                _ => Err(ErrorKind::Validation { field: f }),
            },
            QueryOperator::NotIn => Err(ErrorKind::Query),
            QueryOperator::Regex => Ok((f + regexp_word() + qmark(), seq![c.value])),
            QueryOperator::IsNull => Ok((f + is_null_word(), Seq::empty())),
            _ => Ok((f + is_not_null_word(), Seq::empty())),
        }
    }
}

/// Whether a value result matches its model.
pub open spec fn value_matches(r: Result<DataValue, QuickDbError>, m: Result<Value, ErrorKind>) -> bool {
    match (r, m) {
        (Ok(x), Ok(y)) => x@ == y,
        (Err(e), Err(k)) => e@ == k,
        _ => false,
    }
}

/// The value a range comparison on `field_name` binds (see
/// `range_value`).
pub fn process_range_query_value(
    models: &ModelRegistry,
    table: &str,
    alias: &str,
    field_name: &str,
    value: &DataValue,
) -> (r: Result<DataValue, QuickDbError>)
    ensures
        value_matches(r, range_value(models@, table@, alias@, field_name@, value@)),
{
    let kind = get_field_type(models, table, alias, field_name);
    match kind {
        None => Err(validation_error(field_name, "无法获取字段类型信息，请确保模型已正确注册")),
        Some(kind) => match kind {
            FieldType::DateTime | FieldType::DateTimeWithTz { .. } => match value {
                DataValue::String(s) => {
                    match parse_rfc3339_timestamp(s.as_str()) {
                        Some(t) => Ok(DataValue::Int(t)),
                        None => match parse_naive_timestamp(s.as_str()) {
                            Some(t) => Ok(DataValue::Int(t)),
                            None => Err(validation_error(field_name, "无法解析日期时间字符串")),
                        },
                    }
                }
                DataValue::DateTime(t) => Ok(DataValue::Int(t.seconds)),
                DataValue::DateTimeUTC(t) => Ok(DataValue::Int(t.seconds)),
                _ => Ok(value.duplicate()),
            },
            FieldType::Integer | FieldType::BigInteger => match value {
                DataValue::Int(i) => Ok(DataValue::Int(*i)),
                DataValue::String(s) => match parse_i64_text(s.as_str()) {
                    Some(i) => Ok(DataValue::Int(i)),
                    None => Err(validation_error(field_name, "Integer字段无法将字符串转换为整数")),
                },
                _ => Err(validation_error(field_name, "Integer字段不支持的数据类型，期望Int或String形式的数字")),
            },
            FieldType::Float | FieldType::Double => match value {
                DataValue::Float(t) => Ok(DataValue::Float(t.clone())),
                DataValue::Int(i) => {
                    let mut t = String::new();
                    push_signed_decimal(&mut t, *i);
                    Ok(DataValue::Float(t))
                }
                DataValue::String(s) => {
                    if is_float_text(s.as_str()) {
                        Ok(DataValue::Float(s.clone()))
                    } else {
                        Err(validation_error(field_name, "Float字段无法将字符串转换为浮点数"))
                    }
                }
                _ => Err(validation_error(field_name, "Float字段不支持的数据类型，期望Float、Int或String形式的数字")),
            },
            _ => Ok(value.duplicate()),
        },
    }
}

fn is_searchable(v: &DataValue) -> (b: bool)
    ensures
        b == searchable(v@),
{
    match v {
        DataValue::String(_) | DataValue::Int(_) | DataValue::Float(_) | DataValue::Uuid(_) => true,
        _ => false,
    }
}

fn push_quoted_item(out: &mut String, v: &DataValue)
    ensures
        final(out)@ == old(out)@ + quoted_item(v@),
{
    let ghost start = out@;
    push_char(out, '"');
    match v {
        DataValue::String(s) => out.append(s.as_str()),
        DataValue::Int(i) => push_signed_decimal(out, *i),
        DataValue::Float(f) => out.append(f.as_str()),
        DataValue::Uuid(u) => push_uuid(out, *u),
        _ => {},
    }
    push_char(out, '"');
    assert(out@ =~= start + quoted_item(v@));
}

/// The LIKE parameters that find each item inside an array field (see
/// `item_patterns`).
fn item_pattern_values(items: &Vec<DataValue>) -> (r: Vec<DataValue>)
    ensures
        values_model(r@) == item_patterns(values_model(items@)),
{
    let mut r: Vec<DataValue> = Vec::new();
    let mut i: usize = 0;
    while i < items.len()
        invariant
            i <= items.len(),
            r@.len() == i,
            forall|k: int| 0 <= k < i ==> #[trigger] r@[k]@ == Value::Str(like_anywhere(quoted_item(items@[k]@))),
        decreases items.len() - i,
    {
        let mut t = String::new();
        push_char(&mut t, '%');
        push_quoted_item(&mut t, &items[i]);
        push_char(&mut t, '%');
        assert(t@ =~= like_anywhere(quoted_item(items@[i as int]@)));
        r.push(DataValue::String(t));
        i = i + 1;
    }
    assert(values_model(r@) =~= item_patterns(values_model(items@)));
    r
}

/// Whether every item of an array can be searched for (see `searchable`).
fn all_searchable(items: &Vec<DataValue>) -> (b: bool)
    ensures
        b == (forall|k: int| 0 <= k < items@.len() ==> #[trigger] searchable(items@[k]@)),
{
    let mut i: usize = 0;
    while i < items.len()
        invariant
            i <= items.len(),
            forall|k: int| 0 <= k < i ==> #[trigger] searchable(items@[k]@),
        decreases items.len() - i,
    {
        if !is_searchable(&items[i]) {
            return false;
        }
        i = i + 1;
    }
    true
}

/// `field LIKE ?` `n` times, joined with ` OR ` in parentheses.
fn like_alternatives(field: &str, n: usize) -> (r: String)
    ensures
        r@ == seq!['('] + join(like_clauses(field@, n as nat), crate::query_builder::or_word()) + seq![')'],
{
    let ghost all = like_clauses(field@, n as nat);
    let mut r = String::new();
    push_char(&mut r, '(');
    let mut k: usize = 0;
    assert(all.subrange(0, 0) =~= Seq::<Seq<char>>::empty());
    while k < n
        invariant
            k <= n,
            all == like_clauses(field@, n as nat),
            r@ == seq!['('] + join(all.subrange(0, k as int), crate::query_builder::or_word()),
        decreases n - k,
    {
        let ghost before = r@;
        if k > 0 {
            crate::query_builder::push_or_word(&mut r);
        }
        r.append(field);
        push_like_word(&mut r);
        push_char(&mut r, '?');
        assert(all.subrange(0, k + 1).drop_last() =~= all.subrange(0, k as int));
        assert(all[k as int] == field@ + like_word() + qmark());
        if k == 0 {
            assert(join(all.subrange(0, 1), crate::query_builder::or_word()) =~= all[0]);
        }
        assert(r@ =~= seq!['('] + join(all.subrange(0, k + 1), crate::query_builder::or_word()));
        k = k + 1;
    }
    assert(all.subrange(0, n as int) =~= all);
    push_char(&mut r, ')');
    r
}

/// The clause and parameters of one condition inside a condition tree
/// (see `condition_clause`).
pub fn build_single_condition_clause(
    models: &ModelRegistry,
    table: &str,
    alias: &str,
    condition: &QueryConditionWithConfig,
) -> (r: Result<(String, Vec<DataValue>), QuickDbError>)
    ensures
        clause_matches(r, condition_clause(models@, table@, alias@, condition@)),
{
    let validator = DatabaseSecurityValidator::new(DatabaseType::SQLite);
    let safe_field = match validator.get_safe_field_identifier(condition.field.as_str()) {
        Ok(f) => f,
        Err(e) => return Err(e),
    };
    let ghost spec = condition_clause(models@, table@, alias@, condition@);
    let field = condition.field.as_str();
    let mut sql = safe_field;
    match condition.operator {
        QueryOperator::Eq | QueryOperator::Ne => {
            push_comparison_word(&mut sql, condition.operator);
            push_char(&mut sql, '?');
            assert(sql@ =~= spec->Ok_0.0);
            Ok((sql, single_value(condition.value.duplicate())))
        }
        QueryOperator::Gt | QueryOperator::Gte | QueryOperator::Lt | QueryOperator::Lte => {
            match process_range_query_value(models, table, alias, field, &condition.value) {
                Ok(p) => {
                    push_comparison_word(&mut sql, condition.operator);
                    push_char(&mut sql, '?');
                    assert(sql@ =~= spec->Ok_0.0);
                    Ok((sql, single_value(p)))
                }
                Err(e) => Err(e),
            }
        }
        QueryOperator::Contains => {
            match get_field_type(models, table, alias, field) {
                Some(FieldType::String { .. }) => match &condition.value {
                    DataValue::String(s) => {
                        push_like_word(&mut sql);
                        push_char(&mut sql, '?');
                        assert(sql@ =~= spec->Ok_0.0);
                        let p = crate::postgres_utils::like_anywhere_string(s.as_str());
                        Ok((sql, single_value(DataValue::String(p))))
                    }
                    _ => Err(validation_error(field, "Contains操作符需要字符串类型的值")),
                },
                Some(_) => Err(validation_error(field, "Contains操作符只支持字符串类型字段")),
                None => Err(validation_error(field, "无法确定字段类型，请确保已正确注册模型元数据")),
            }
        }
        QueryOperator::JsonContains => {
            Err(validation_error(field, "SQLite不支持JSON字段的JsonContains操作，建议使用PostgreSQL、MySQL或MongoDB"))
        }
        QueryOperator::StartsWith => {
            push_like_word(&mut sql);
            push_char(&mut sql, '?');
            assert(sql@ =~= spec->Ok_0.0);
            Ok((sql, single_value(like_pattern_value(&condition.value, false, true))))
        }
        QueryOperator::EndsWith => {
            push_like_word(&mut sql);
            push_char(&mut sql, '?');
            assert(sql@ =~= spec->Ok_0.0);
            Ok((sql, single_value(like_pattern_value(&condition.value, true, false))))
        }
        QueryOperator::In => {
            match get_field_type(models, table, alias, field) {
                Some(FieldType::Array) => match &condition.value {
                    DataValue::Array(items) => {
                        proof { crate::types::lemma_array_model(*items); }
                        if items.len() == 0 {
                            return Err(query_error("IN 操作符需要非空数组"));
                        }
                        if !all_searchable(items) {
                            proof {
                                let k = choose|k: int| 0 <= k < items@.len() && !#[trigger] searchable(items@[k]@);
                                assert(!searchable(values_model(items@)[k]));
                            }
                            return Err(validation_error(field, "Array字段的IN操作只支持String、Int、Float、Uuid类型"));
                        }
                        assert(forall|k: int| 0 <= k < items@.len() ==> #[trigger] searchable(values_model(items@)[k]));
                        let params = item_pattern_values(items);
                        if items.len() == 1 {
                            push_like_word(&mut sql);
                            push_char(&mut sql, '?');
                            assert(sql@ =~= spec->Ok_0.0);
                            Ok((sql, params))
                        } else {
                            let text = like_alternatives(field, items.len());
                            Ok((text, params))
                        }
                    }
                    _ => Err(query_error("Array字段的IN操作需要数组类型的值")),
                },
                Some(_) => Err(validation_error(field, "IN操作只支持Array字段")),
                None => Err(validation_error(field, "无法获取字段类型信息，请确保模型已正确注册")),
            }
        }
        QueryOperator::NotIn => Err(query_error("SQLite不支持NOT IN操作，建议使用其他查询条件")),
        QueryOperator::Regex => {
            push_regexp_word(&mut sql);
            push_char(&mut sql, '?');
            assert(sql@ =~= spec->Ok_0.0);
            Ok((sql, single_value(condition.value.duplicate())))
        }
        QueryOperator::IsNull => {
            push_is_null_word(&mut sql, false);
            assert(sql@ =~= spec->Ok_0.0);
            Ok((sql, no_values()))
        }
        QueryOperator::Exists | QueryOperator::IsNotNull => {
            push_is_null_word(&mut sql, true);
            assert(sql@ =~= spec->Ok_0.0);
            Ok((sql, no_values()))
        }
    }
}

/// The clause of an IN search in an array field for `n` items: `field
/// LIKE ?` for one item, and for more one `field LIKE ?` per item joined
/// with ` OR `, in parentheses, so that a row matches when its array
/// holds any of the items.
pub open spec fn in_clause(f: Seq<char>, n: nat) -> Seq<char> {
    if n == 1 {
        f + like_word() + qmark()
    } else {
        seq!['('] + join(like_clauses(f, n), crate::query_builder::or_word()) + seq![')']
    }
}

/// The clauses and parameters of one condition in a plain condition
/// list: as inside a tree, except that IN takes an array of searchable
/// values whatever the field's kind and gives the `in_clause` of its
/// items.
pub open spec fn list_condition(
    models: Seq<ModelView>,
    table: Seq<char>,
    alias: Seq<char>,
    c: Condition,
) -> Result<(Seq<Seq<char>>, Seq<Value>), ErrorKind> {
    if safe_identifier(c.field) && c.operator == QueryOperator::In {
        match in_items(c) {
            Ok(items) => Ok((seq![in_clause(c.field, items.len())], item_patterns(items))),
            Err(e) => Err(e),
        }
    } else {
        match condition_clause(models, table, alias, c) {
            Ok((s, p)) => Ok((seq![s], p)),
            Err(e) => Err(e),
        }
    }
}

/// The clauses and parameters of a condition list, in order; the first
/// refused condition decides the error.
pub open spec fn list_items(
    models: Seq<ModelView>,
    table: Seq<char>,
    alias: Seq<char>,
    cs: Seq<Condition>,
) -> Result<(Seq<Seq<char>>, Seq<Value>), ErrorKind>
    decreases cs.len(),
{
    if cs.len() == 0 {
        Ok((Seq::empty(), Seq::empty()))
    } else {
        match list_items(models, table, alias, cs.drop_last()) {
            Err(e) => Err(e),
            Ok((cl, ps)) => match list_condition(models, table, alias, cs.last()) {
                Err(e) => Err(e),
                Ok((c, p)) => Ok((cl + c, ps + p)),
            },
        }
    }
}

/// The WHERE clause of a condition list: its clauses joined with ` AND `.
pub open spec fn where_clause(
    models: Seq<ModelView>,
    table: Seq<char>,
    alias: Seq<char>,
    cs: Seq<Condition>,
) -> Result<(Seq<char>, Seq<Value>), ErrorKind> {
    match list_items(models, table, alias, cs) {
        Ok((cl, ps)) => Ok((join(cl, crate::query_builder::and_word()), ps)),
        Err(e) => Err(e),
    }
}

/// A condition list gives one clause per condition.
proof fn lemma_list_items_len(models: Seq<ModelView>, table: Seq<char>, alias: Seq<char>, cs: Seq<Condition>)
    ensures
        list_items(models, table, alias, cs) matches Ok((cl, _)) ==> cl.len() == cs.len(),
    decreases cs.len(),
{
    if cs.len() > 0 {
        lemma_list_items_len(models, table, alias, cs.drop_last());
    }
}

proof fn lemma_list_items_concat(
    models: Seq<ModelView>,
    table: Seq<char>,
    alias: Seq<char>,
    c1: Seq<Condition>,
    c2: Seq<Condition>,
)
    ensures
        list_items(models, table, alias, c1 + c2) == match list_items(models, table, alias, c1) {
            Err(e) => Err(e),
            Ok((l1, p1)) => match list_items(models, table, alias, c2) {
                Err(e) => Err(e),
                Ok((l2, p2)) => Ok((l1 + l2, p1 + p2)),
            },
        },
    decreases c2.len(),
{
    if c2.len() == 0 {
        assert(c1 + c2 =~= c1);
        if let Ok((l1, p1)) = list_items(models, table, alias, c1) {
            assert(l1 + Seq::<Seq<char>>::empty() =~= l1);
            assert(p1 + Seq::<Value>::empty() =~= p1);
        }
    } else {
        let c2p = c2.drop_last();
        lemma_list_items_concat(models, table, alias, c1, c2p);
        assert((c1 + c2).drop_last() =~= c1 + c2p);
        assert((c1 + c2).last() == c2.last());
        if let Ok((l1, p1)) = list_items(models, table, alias, c1) {
            if let Ok((l2p, p2p)) = list_items(models, table, alias, c2p) {
                if let Ok((c, p)) = list_condition(models, table, alias, c2.last()) {
                    assert((l1 + l2p) + c =~= l1 + (l2p + c));
                    assert((p1 + p2p) + p =~= p1 + (p2p + p));
                }
            }
        }
    }
}

/// The WHERE clause of no conditions is empty and binds nothing.
pub proof fn law_where_clause_empty(models: Seq<ModelView>, table: Seq<char>, alias: Seq<char>)
    ensures
        where_clause(models, table, alias, Seq::empty()) == Ok::<(Seq<char>, Seq<Value>), ErrorKind>((Seq::empty(), Seq::empty())),
{
}

/// The WHERE clause of two non-empty condition lists one after the
/// other is the first's clause, ` AND `, and the second's; the
/// parameters are the first's followed by the second's. A refusal of
/// either list refuses both together, the first list's refusal first.
pub proof fn law_where_clause_concat(
    models: Seq<ModelView>,
    table: Seq<char>,
    alias: Seq<char>,
    c1: Seq<Condition>,
    c2: Seq<Condition>,
)
    requires
        c1.len() > 0,
        c2.len() > 0,
    ensures
        where_clause(models, table, alias, c1 + c2) == match where_clause(models, table, alias, c1) {
            Err(e) => Err(e),
            Ok((s1, p1)) => match where_clause(models, table, alias, c2) {
                Err(e) => Err(e),
                Ok((s2, p2)) => Ok((s1 + crate::query_builder::and_word() + s2, p1 + p2)),
            },
        },
{
    lemma_list_items_concat(models, table, alias, c1, c2);
    if let Ok((l1, p1)) = list_items(models, table, alias, c1) {
        lemma_list_items_len(models, table, alias, c1);
        if let Ok((l2, p2)) = list_items(models, table, alias, c2) {
            lemma_list_items_len(models, table, alias, c2);
            crate::text::lemma_join_concat(l1, l2, crate::query_builder::and_word());
        }
    }
}

proof fn lemma_list_items_err_at(
    models: Seq<ModelView>,
    table: Seq<char>,
    alias: Seq<char>,
    cs: Seq<Condition>,
    k: int,
    n: int,
)
    requires
        0 <= k <= n <= cs.len(),
        list_items(models, table, alias, cs.subrange(0, k)) is Err,
    ensures
        list_items(models, table, alias, cs.subrange(0, n)) == list_items(models, table, alias, cs.subrange(0, k)),
    decreases n - k,
{
    if n > k {
        lemma_list_items_err_at(models, table, alias, cs, k, n - 1);
        assert(cs.subrange(0, n).drop_last() =~= cs.subrange(0, n - 1));
    }
}

/// The clauses and parameters of one condition of a plain list (see
/// `list_condition`).
fn build_list_condition(
    models: &ModelRegistry,
    table: &str,
    alias: &str,
    condition: &QueryConditionWithConfig,
) -> (r: Result<(Vec<String>, Vec<DataValue>), QuickDbError>)
    ensures
        match (r, list_condition(models@, table@, alias@, condition@)) {
            (Ok(x), Ok(y)) => crate::text::strings_view(x.0@) == y.0 && values_model(x.1@) == y.1,
            (Err(e), Err(k)) => e@ == k,
            _ => false,
        },
{
    if condition.operator == QueryOperator::In && crate::security::is_safe_identifier(condition.field.as_str()) {
        let field = condition.field.as_str();
        match &condition.value {
            DataValue::Array(items) => {
                proof { crate::types::lemma_array_model(*items); }
                if items.len() == 0 {
                    return Err(query_error("IN 操作符需要非空数组"));
                }
                if !all_searchable(items) {
                    proof {
                        let k = choose|k: int| 0 <= k < items@.len() && !#[trigger] searchable(items@[k]@);
                        assert(!searchable(values_model(items@)[k]));
                    }
                    return Err(validation_error(field, "Array字段的IN操作只支持String、Int、Float、Uuid类型"));
                }
                assert(forall|k: int| 0 <= k < items@.len() ==> #[trigger] searchable(values_model(items@)[k]));
                let params = item_pattern_values(items);
                let text = if items.len() == 1 {
                    let mut t = String::new();
                    t.append(field);
                    push_like_word(&mut t);
                    push_char(&mut t, '?');
                    assert(t@ =~= field@ + like_word() + qmark());
                    t
                } else {
                    like_alternatives(field, items.len())
                };
                let mut clauses: Vec<String> = Vec::new();
                clauses.push(text);
                assert(crate::text::strings_view(clauses@) =~= seq![in_clause(field@, items.len() as nat)]);
                Ok((clauses, params))
            }
            _ => Err(query_error("IN 操作符需要数组类型的值")),
        }
    } else {
        match build_single_condition_clause(models, table, alias, condition) {
            Ok((c, p)) => {
                let mut clauses: Vec<String> = Vec::new();
                clauses.push(c);
                assert(crate::text::strings_view(clauses@) =~= seq![clauses@[0]@]);
                Ok((clauses, p))
            }
            Err(e) => Err(e),
        }
    }
}

/// The WHERE clause of a condition list (see `where_clause`).
pub fn build_where_clause(
    models: &ModelRegistry,
    table: &str,
    alias: &str,
    conditions: &[QueryConditionWithConfig],
) -> (r: Result<(String, Vec<DataValue>), QuickDbError>)
    ensures
        clause_matches(r, where_clause(models@, table@, alias@, crate::types::config_conditions_model(conditions@))),
{
    let ghost cs = crate::types::config_conditions_model(conditions@);
    let mut clauses: Vec<String> = Vec::new();
    let mut params: Vec<DataValue> = Vec::new();
    let mut i: usize = 0;
    assert(values_model(params@) =~= Seq::<Value>::empty());
    assert(crate::text::strings_view(clauses@) =~= Seq::<Seq<char>>::empty());
    assert(cs.subrange(0, 0) =~= Seq::<Condition>::empty());
    while i < conditions.len()
        invariant
            i <= conditions.len(),
            cs == crate::types::config_conditions_model(conditions@),
            cs.len() == conditions@.len(),
            list_items(models@, table@, alias@, cs.subrange(0, i as int))
                == Ok::<(Seq<Seq<char>>, Seq<Value>), ErrorKind>((crate::text::strings_view(clauses@), values_model(params@))),
        decreases conditions.len() - i,
    {
        assert(cs.subrange(0, i + 1).drop_last() =~= cs.subrange(0, i as int));
        assert(cs.subrange(0, i + 1).last() == conditions@[i as int]@);
        match build_list_condition(models, table, alias, &conditions[i]) {
            Err(e) => {
                proof {
                    lemma_list_items_err_at(models@, table@, alias@, cs, i as int + 1, cs.len() as int);
                    assert(cs.subrange(0, cs.len() as int) =~= cs);
                }
                return Err(e);
            }
            Ok((mut cl, mut ps)) => {
                let ghost c0 = crate::text::strings_view(clauses@);
                let ghost c1 = crate::text::strings_view(cl@);
                let ghost p0 = values_model(params@);
                let ghost p1 = values_model(ps@);
                clauses.append(&mut cl);
                params.append(&mut ps);
                assert(crate::text::strings_view(clauses@) =~= c0 + c1);
                assert(values_model(params@) =~= p0 + p1);
            }
        }
        i = i + 1;
    }
    assert(cs.subrange(0, conditions.len() as int) =~= cs);
    proof { reveal_strlit(" AND "); }
    assert(" AND "@ =~= crate::query_builder::and_word());
    let sql = crate::text::join_strings(&clauses, " AND ");
    Ok((sql, params))
}

/// The clause and parameters of a condition tree: a single condition as
/// `condition_clause` gives it; a group as the non-empty clauses of its
/// members joined with its operator, in parentheses when there are two or
/// more, or the empty clause when no member has one.
pub open spec fn group_clause(
    models: Seq<ModelView>,
    table: Seq<char>,
    alias: Seq<char>,
    g: Group,
) -> Result<(Seq<char>, Seq<Value>), ErrorKind>
    decreases g,
{
    match g {
        Group::Single(c) => condition_clause(models, table, alias, c),
        Group::Group { operator, conditions } => match group_members(models, table, alias, conditions) {
            Err(e) => Err(e),
            Ok((cl, ps)) => if cl.len() == 0 {
                Ok((Seq::empty(), Seq::empty()))
            } else if cl.len() == 1 {
                Ok((cl[0], ps))
            } else {
                Ok((seq!['('] + join(cl, logical_word(operator)) + seq![')'], ps))
            },
        },
    }
}

/// The non-empty clauses of the members of a group, with their
/// parameters.
pub open spec fn group_members(
    models: Seq<ModelView>,
    table: Seq<char>,
    alias: Seq<char>,
    gs: Seq<Group>,
) -> Result<(Seq<Seq<char>>, Seq<Value>), ErrorKind>
    decreases gs,
{
    if gs.len() == 0 {
        Ok((Seq::empty(), Seq::empty()))
    } else {
        proof {
            assert(decreases_to!(gs => gs.subrange(0, gs.len() - 1)));
        }
        match group_members(models, table, alias, gs.drop_last()) {
            Err(e) => Err(e),
            Ok((cl, ps)) => match group_clause(models, table, alias, gs.last()) {
                Err(e) => Err(e),
                Ok((c, p)) => if c.len() == 0 { Ok((cl, ps)) } else { Ok((cl.push(c), ps + p)) },
            },
        }
    }
}

proof fn lemma_group_members_err_at(
    models: Seq<ModelView>,
    table: Seq<char>,
    alias: Seq<char>,
    gs: Seq<Group>,
    k: int,
    n: int,
)
    requires
        0 <= k <= n <= gs.len(),
        group_members(models, table, alias, gs.subrange(0, k)) is Err,
    ensures
        group_members(models, table, alias, gs.subrange(0, n)) == group_members(models, table, alias, gs.subrange(0, k)),
    decreases n - k,
{
    if n > k {
        lemma_group_members_err_at(models, table, alias, gs, k, n - 1);
        assert(gs.subrange(0, n).drop_last() =~= gs.subrange(0, n - 1));
    }
}

/// A configured condition with the same model as a plain one.
fn with_config(c: &QueryCondition) -> (r: QueryConditionWithConfig)
    ensures
        r@ == c@,
{
    QueryConditionWithConfig {
        field: c.field.clone(),
        operator: c.operator,
        value: c.value.duplicate(),
        case_insensitive: false,
    }
}

/// Joins the clauses of a group with its operator, in parentheses.
fn parenthesized(clauses: &Vec<String>, operator: LogicalOperator) -> (r: String)
    ensures
        r@ == seq!['('] + join(crate::text::strings_view(clauses@), logical_word(operator)) + seq![')'],
{
    let mut sql = String::new();
    push_char(&mut sql, '(');
    let sep = if operator == LogicalOperator::And { " AND " } else { " OR " };
    proof {
        reveal_strlit(" AND ");
        reveal_strlit(" OR ");
    }
    assert(sep@ =~= logical_word(operator));
    let body = crate::text::join_strings(clauses, sep);
    sql.append(body.as_str());
    push_char(&mut sql, ')');
    sql
}

/// The clause and parameters of a condition tree (see `group_clause`).
#[verifier::loop_isolation(false)]
pub fn build_condition_group_clause(
    models: &ModelRegistry,
    table: &str,
    alias: &str,
    group: &QueryConditionGroup,
) -> (r: Result<(String, Vec<DataValue>), QuickDbError>)
    ensures
        clause_matches(r, group_clause(models@, table@, alias@, group@)),
    decreases group,
{
    match group {
        QueryConditionGroup::Single(c) => {
            let cc = with_config(c);
            build_single_condition_clause(models, table, alias, &cc)
        }
        QueryConditionGroup::Group { operator, conditions } => {
            proof { crate::query_builder::lemma_group_model(*operator, *conditions); }
            let ghost gs = groups_model(conditions@);
            let mut clauses: Vec<String> = Vec::new();
            let mut params: Vec<DataValue> = Vec::new();
            let mut i: usize = 0;
            assert(values_model(params@) =~= Seq::<Value>::empty());
            assert(gs.subrange(0, 0) =~= Seq::<Group>::empty());
            assert(crate::text::strings_view(clauses@) =~= Seq::<Seq<char>>::empty());
            while i < conditions.len()
                invariant
                    i <= conditions.len(),
                    gs == groups_model(conditions@),
                    gs.len() == conditions@.len(),
                    group_members(models@, table@, alias@, gs.subrange(0, i as int))
                        == Ok::<(Seq<Seq<char>>, Seq<Value>), ErrorKind>((crate::text::strings_view(clauses@), values_model(params@))),
                decreases conditions.len() - i,
            {
                proof {
                    assert(decreases_to!(conditions@ => conditions@[i as int]));
                    assert(gs.subrange(0, i + 1).drop_last() =~= gs.subrange(0, i as int));
                    assert(gs[i as int] == conditions@[i as int]@);
                }
                match build_condition_group_clause(models, table, alias, &conditions[i]) {
                    Err(e) => {
                        proof {
                            lemma_group_members_err_at(models@, table@, alias@, gs, i as int + 1, gs.len() as int);
                            assert(gs.subrange(0, gs.len() as int) =~= gs);
                        }
                        return Err(e);
                    }
                    Ok((clause, mut ps)) => {
                        if !clause.as_str().is_empty() {
                            let ghost old_clauses = crate::text::strings_view(clauses@);
                            let ghost old_params = values_model(params@);
                            let ghost new_params = values_model(ps@);
                            clauses.push(clause);
                            params.append(&mut ps);
                            assert(values_model(params@) =~= old_params + new_params);
                            assert(crate::text::strings_view(clauses@) =~= old_clauses.push(clauses@.last()@));
                        }
                    }
                }
                i = i + 1;
            }
            assert(gs.subrange(0, conditions.len() as int) =~= gs);
            if clauses.len() == 0 {
                Ok((String::new(), no_values()))
            } else if clauses.len() == 1 {
                let c = clauses[0].clone();
                Ok((c, params))
            } else {
                Ok((parenthesized(&clauses, *operator), params))
            }
        }
    }
}

/// The clauses of a list of condition trees, empty clauses included,
/// and their parameters.
pub open spec fn top_group_items(
    models: Seq<ModelView>,
    table: Seq<char>,
    alias: Seq<char>,
    gs: Seq<Group>,
) -> Result<(Seq<Seq<char>>, Seq<Value>), ErrorKind>
    decreases gs.len(),
{
    if gs.len() == 0 {
        Ok((Seq::empty(), Seq::empty()))
    } else {
        match top_group_items(models, table, alias, gs.drop_last()) {
            Err(e) => Err(e),
            Ok((cl, ps)) => match group_clause(models, table, alias, gs.last()) {
                Err(e) => Err(e),
                Ok((c, p)) => Ok((cl.push(c), ps + p)),
            },
        }
    }
}

/// The WHERE clause of a list of condition trees: their clauses joined
/// with ` AND `.
pub open spec fn groups_where_clause(
    models: Seq<ModelView>,
    table: Seq<char>,
    alias: Seq<char>,
    gs: Seq<Group>,
) -> Result<(Seq<char>, Seq<Value>), ErrorKind> {
    match top_group_items(models, table, alias, gs) {
        Ok((cl, ps)) => Ok((join(cl, crate::query_builder::and_word()), ps)),
        Err(e) => Err(e),
    }
}

/// The WHERE clause of no condition trees is empty and binds nothing.
pub proof fn law_groups_where_clause_empty(models: Seq<ModelView>, table: Seq<char>, alias: Seq<char>)
    ensures
        groups_where_clause(models, table, alias, Seq::empty()) == Ok::<(Seq<char>, Seq<Value>), ErrorKind>((Seq::empty(), Seq::empty())),
{
}

/// A group with one member, whatever its operator, gives the member's
/// clause and parameters, without parentheses, when that clause is not
/// empty; a refusal of the member refuses the group the same way.
pub proof fn law_single_member_group(models: Seq<ModelView>, table: Seq<char>, alias: Seq<char>, op: LogicalOperator, x: Group)
    requires
        group_clause(models, table, alias, x) matches Ok((c, _)) ==> c.len() > 0,
    ensures
        group_clause(models, table, alias, Group::Group { operator: op, conditions: seq![x] })
            == group_clause(models, table, alias, x),
{
    let xs = seq![x];
    assert(xs.drop_last() =~= Seq::<Group>::empty());
    assert(xs.last() == x);
    assert(group_members(models, table, alias, Seq::<Group>::empty()) == Ok::<(Seq<Seq<char>>, Seq<Value>), ErrorKind>((Seq::empty(), Seq::empty())));
    if let Ok((c, p)) = group_clause(models, table, alias, x) {
        assert(Seq::<Value>::empty() + p =~= p);
        assert(Seq::<Seq<char>>::empty().push(c) =~= seq![c]);
    }
}

/// A group whose members give two or more non-empty clauses gives them
/// joined with its operator (` AND ` or ` OR `) in parentheses, with the
/// members' parameters in order.
pub proof fn law_group_parenthesised(models: Seq<ModelView>, table: Seq<char>, alias: Seq<char>, op: LogicalOperator, xs: Seq<Group>)
    requires
        group_members(models, table, alias, xs) matches Ok((cl, _)) && cl.len() >= 2,
    ensures
        group_clause(models, table, alias, Group::Group { operator: op, conditions: xs }) == Ok::<(Seq<char>, Seq<Value>), ErrorKind>((
            seq!['('] + join(group_members(models, table, alias, xs)->Ok_0.0, logical_word(op)) + seq![')'],
            group_members(models, table, alias, xs)->Ok_0.1,
        )),
{
}

/// The WHERE clause of a single group with one member is the WHERE
/// clause of that member alone, when its clause is not empty.
pub proof fn law_where_of_single_member_group(models: Seq<ModelView>, table: Seq<char>, alias: Seq<char>, op: LogicalOperator, x: Group)
    requires
        group_clause(models, table, alias, x) matches Ok((c, _)) ==> c.len() > 0,
    ensures
        groups_where_clause(models, table, alias, seq![Group::Group { operator: op, conditions: seq![x] }])
            == groups_where_clause(models, table, alias, seq![x]),
{
    let g = Group::Group { operator: op, conditions: seq![x] };
    law_single_member_group(models, table, alias, op, x);
    assert(seq![g].drop_last() =~= Seq::<Group>::empty());
    assert(seq![x].drop_last() =~= Seq::<Group>::empty());
    assert(seq![g].last() == g);
    assert(seq![x].last() == x);
    assert(top_group_items(models, table, alias, Seq::<Group>::empty()) == Ok::<(Seq<Seq<char>>, Seq<Value>), ErrorKind>((Seq::empty(), Seq::empty())));
    if let Ok((c, p)) = group_clause(models, table, alias, x) {
        assert(Seq::<Value>::empty() + p =~= p);
        assert(Seq::<Seq<char>>::empty().push(c) =~= seq![c]);
        assert(top_group_items(models, table, alias, seq![x]) == Ok::<(Seq<Seq<char>>, Seq<Value>), ErrorKind>((seq![c], p)));
        assert(top_group_items(models, table, alias, seq![g]) == Ok::<(Seq<Seq<char>>, Seq<Value>), ErrorKind>((seq![c], p)));
    } else {
        assert(top_group_items(models, table, alias, seq![x]) is Err);
        assert(top_group_items(models, table, alias, seq![g]) == top_group_items(models, table, alias, seq![x]));
    }
}

proof fn lemma_top_group_items_err_at(
    models: Seq<ModelView>,
    table: Seq<char>,
    alias: Seq<char>,
    gs: Seq<Group>,
    k: int,
    n: int,
)
    requires
        0 <= k <= n <= gs.len(),
        top_group_items(models, table, alias, gs.subrange(0, k)) is Err,
    ensures
        top_group_items(models, table, alias, gs.subrange(0, n)) == top_group_items(models, table, alias, gs.subrange(0, k)),
    decreases n - k,
{
    if n > k {
        lemma_top_group_items_err_at(models, table, alias, gs, k, n - 1);
        assert(gs.subrange(0, n).drop_last() =~= gs.subrange(0, n - 1));
    }
}

/// The WHERE clause of a list of condition trees (see
/// `groups_where_clause`).
pub fn build_groups_where_clause(
    models: &ModelRegistry,
    table: &str,
    alias: &str,
    groups: &[QueryConditionGroup],
) -> (r: Result<(String, Vec<DataValue>), QuickDbError>)
    ensures
        clause_matches(r, groups_where_clause(models@, table@, alias@, groups_model(groups@))),
{
    let ghost gs = groups_model(groups@);
    let mut clauses: Vec<String> = Vec::new();
    let mut params: Vec<DataValue> = Vec::new();
    let mut i: usize = 0;
    assert(values_model(params@) =~= Seq::<Value>::empty());
    assert(crate::text::strings_view(clauses@) =~= Seq::<Seq<char>>::empty());
    assert(gs.subrange(0, 0) =~= Seq::<Group>::empty());
    while i < groups.len()
        invariant
            i <= groups.len(),
            gs == groups_model(groups@),
            gs.len() == groups@.len(),
            top_group_items(models@, table@, alias@, gs.subrange(0, i as int))
                == Ok::<(Seq<Seq<char>>, Seq<Value>), ErrorKind>((crate::text::strings_view(clauses@), values_model(params@))),
        decreases groups.len() - i,
    {
        proof {
            assert(gs.subrange(0, i + 1).drop_last() =~= gs.subrange(0, i as int));
            assert(gs[i as int] == groups@[i as int]@);
        }
        match build_condition_group_clause(models, table, alias, &groups[i]) {
            Err(e) => {
                proof {
                    lemma_top_group_items_err_at(models@, table@, alias@, gs, i as int + 1, gs.len() as int);
                    assert(gs.subrange(0, gs.len() as int) =~= gs);
                }
                return Err(e);
            }
            Ok((clause, mut ps)) => {
                let ghost old_clauses = crate::text::strings_view(clauses@);
                let ghost old_params = values_model(params@);
                let ghost new_params = values_model(ps@);
                clauses.push(clause);
                params.append(&mut ps);
                assert(values_model(params@) =~= old_params + new_params);
                assert(crate::text::strings_view(clauses@) =~= old_clauses.push(clauses@.last()@));
            }
        }
        i = i + 1;
    }
    assert(gs.subrange(0, groups.len() as int) =~= gs);
    proof { reveal_strlit(" AND "); }
    assert(" AND "@ =~= crate::query_builder::and_word());
    let sql = crate::text::join_strings(&clauses, " AND ");
    Ok((sql, params))
}

/// The clause and parameters of a configured condition tree: as
/// `group_clause`, except that a group with any non-empty member clause
/// is always parenthesized.
pub open spec fn config_group_clause(
    models: Seq<ModelView>,
    table: Seq<char>,
    alias: Seq<char>,
    g: Group,
) -> Result<(Seq<char>, Seq<Value>), ErrorKind>
    decreases g,
{
    match g {
        Group::Single(c) => condition_clause(models, table, alias, c),
        Group::Group { operator, conditions } => match config_group_members(models, table, alias, conditions) {
            Err(e) => Err(e),
            Ok((cl, ps)) => if cl.len() == 0 {
                Ok((Seq::empty(), Seq::empty()))
            } else {
                Ok((seq!['('] + join(cl, logical_word(operator)) + seq![')'], ps))
            },
        },
    }
}

/// The non-empty clauses of the members of a configured group, with
/// their parameters.
pub open spec fn config_group_members(
    models: Seq<ModelView>,
    table: Seq<char>,
    alias: Seq<char>,
    gs: Seq<Group>,
) -> Result<(Seq<Seq<char>>, Seq<Value>), ErrorKind>
    decreases gs,
{
    if gs.len() == 0 {
        Ok((Seq::empty(), Seq::empty()))
    } else {
        proof {
            assert(decreases_to!(gs => gs.subrange(0, gs.len() - 1)));
        }
        match config_group_members(models, table, alias, gs.drop_last()) {
            Err(e) => Err(e),
            Ok((cl, ps)) => match config_group_clause(models, table, alias, gs.last()) {
                Err(e) => Err(e),
                Ok((c, p)) => if c.len() == 0 { Ok((cl, ps)) } else { Ok((cl.push(c), ps + p)) },
            },
        }
    }
}

proof fn lemma_config_group_members_err_at(
    models: Seq<ModelView>,
    table: Seq<char>,
    alias: Seq<char>,
    gs: Seq<Group>,
    k: int,
    n: int,
)
    requires
        0 <= k <= n <= gs.len(),
        config_group_members(models, table, alias, gs.subrange(0, k)) is Err,
    ensures
        config_group_members(models, table, alias, gs.subrange(0, n))
            == config_group_members(models, table, alias, gs.subrange(0, k)),
    decreases n - k,
{
    if n > k {
        lemma_config_group_members_err_at(models, table, alias, gs, k, n - 1);
        assert(gs.subrange(0, n).drop_last() =~= gs.subrange(0, n - 1));
    }
}

/// The model of a configured group node is its operator and the models
/// of its members.
proof fn lemma_config_group_model(operator: LogicalOperator, conditions: Vec<QueryConditionGroupWithConfig>)
    ensures
        (QueryConditionGroupWithConfig::GroupWithConfig { operator, conditions })@
            == (Group::Group { operator, conditions: config_groups_model(conditions@) }),
{
    let g = QueryConditionGroupWithConfig::GroupWithConfig { operator, conditions };
    assert(g@->conditions.len() == conditions@.len());
    assert(forall|k: int| 0 <= k < conditions@.len() ==> g@->conditions[k] == conditions@[k]@);
    assert(g@->conditions =~= config_groups_model(conditions@));
}

/// The clause and parameters of a configured condition tree (see
/// `config_group_clause`).
#[verifier::loop_isolation(false)]
pub fn build_condition_group_with_config_clause(
    models: &ModelRegistry,
    table: &str,
    alias: &str,
    group: &QueryConditionGroupWithConfig,
) -> (r: Result<(String, Vec<DataValue>), QuickDbError>)
    ensures
        clause_matches(r, config_group_clause(models@, table@, alias@, group@)),
    decreases group,
{
    match group {
        QueryConditionGroupWithConfig::Single(c) => build_single_condition_clause(models, table, alias, c),
        QueryConditionGroupWithConfig::GroupWithConfig { operator, conditions } => {
            proof { lemma_config_group_model(*operator, *conditions); }
            let ghost gs = config_groups_model(conditions@);
            let mut clauses: Vec<String> = Vec::new();
            let mut params: Vec<DataValue> = Vec::new();
            let mut i: usize = 0;
            assert(values_model(params@) =~= Seq::<Value>::empty());
            assert(gs.subrange(0, 0) =~= Seq::<Group>::empty());
            assert(crate::text::strings_view(clauses@) =~= Seq::<Seq<char>>::empty());
            while i < conditions.len()
                invariant
                    i <= conditions.len(),
                    gs == config_groups_model(conditions@),
                    gs.len() == conditions@.len(),
                    config_group_members(models@, table@, alias@, gs.subrange(0, i as int))
                        == Ok::<(Seq<Seq<char>>, Seq<Value>), ErrorKind>((crate::text::strings_view(clauses@), values_model(params@))),
                decreases conditions.len() - i,
            {
                proof {
                    assert(decreases_to!(conditions@ => conditions@[i as int]));
                    assert(gs.subrange(0, i + 1).drop_last() =~= gs.subrange(0, i as int));
                    assert(gs[i as int] == conditions@[i as int]@);
                }
                match build_condition_group_with_config_clause(models, table, alias, &conditions[i]) {
                    Err(e) => {
                        proof {
                            lemma_config_group_members_err_at(models@, table@, alias@, gs, i as int + 1, gs.len() as int);
                            assert(gs.subrange(0, gs.len() as int) =~= gs);
                        }
                        return Err(e);
                    }
                    Ok((clause, mut ps)) => {
                        if !clause.as_str().is_empty() {
                            let ghost old_clauses = crate::text::strings_view(clauses@);
                            let ghost old_params = values_model(params@);
                            let ghost new_params = values_model(ps@);
                            clauses.push(clause);
                            params.append(&mut ps);
                            assert(values_model(params@) =~= old_params + new_params);
                            assert(crate::text::strings_view(clauses@) =~= old_clauses.push(clauses@.last()@));
                        }
                    }
                }
                i = i + 1;
            }
            assert(gs.subrange(0, conditions.len() as int) =~= gs);
            if clauses.len() == 0 {
                Ok((String::new(), no_values()))
            } else {
                Ok((parenthesized(&clauses, *operator), params))
            }
        }
    }
}

/// The WHERE clause of a list of configured condition trees: their
/// clauses joined with ` AND `.
pub open spec fn config_groups_where_clause(
    models: Seq<ModelView>,
    table: Seq<char>,
    alias: Seq<char>,
    gs: Seq<Group>,
) -> Result<(Seq<char>, Seq<Value>), ErrorKind>
    decreases gs.len(),
{
    if gs.len() == 0 {
        Ok((Seq::empty(), Seq::empty()))
    } else {
        match config_groups_where_clause(models, table, alias, gs.drop_last()) {
            Err(e) => Err(e),
            Ok((w, ps)) => match config_group_clause(models, table, alias, gs.last()) {
                Err(e) => Err(e),
                Ok((c, p)) => Ok((if gs.len() == 1 { c } else { w + crate::query_builder::and_word() + c }, ps + p)),
            },
        }
    }
}

proof fn lemma_config_where_err_at(
    models: Seq<ModelView>,
    table: Seq<char>,
    alias: Seq<char>,
    gs: Seq<Group>,
    k: int,
    n: int,
)
    requires
        0 <= k <= n <= gs.len(),
        config_groups_where_clause(models, table, alias, gs.subrange(0, k)) is Err,
    ensures
        config_groups_where_clause(models, table, alias, gs.subrange(0, n))
            == config_groups_where_clause(models, table, alias, gs.subrange(0, k)),
    decreases n - k,
{
    if n > k {
        lemma_config_where_err_at(models, table, alias, gs, k, n - 1);
        assert(gs.subrange(0, n).drop_last() =~= gs.subrange(0, n - 1));
    }
}

/// The WHERE clause of a list of configured condition trees (see
/// `config_groups_where_clause`).
pub fn build_where_clause_from_groups_with_config(
    models: &ModelRegistry,
    table: &str,
    alias: &str,
    groups: &[QueryConditionGroupWithConfig],
) -> (r: Result<(String, Vec<DataValue>), QuickDbError>)
    ensures
        clause_matches(r, config_groups_where_clause(models@, table@, alias@, config_groups_model(groups@))),
{
    let ghost gs = config_groups_model(groups@);
    let mut sql = String::new();
    let mut params: Vec<DataValue> = Vec::new();
    let mut i: usize = 0;
    assert(values_model(params@) =~= Seq::<Value>::empty());
    assert(gs.subrange(0, 0) =~= Seq::<Group>::empty());
    while i < groups.len()
        invariant
            i <= groups.len(),
            gs == config_groups_model(groups@),
            gs.len() == groups@.len(),
            config_groups_where_clause(models@, table@, alias@, gs.subrange(0, i as int))
                == Ok::<(Seq<char>, Seq<Value>), ErrorKind>((sql@, values_model(params@))),
        decreases groups.len() - i,
    {
        proof {
            assert(gs.subrange(0, i + 1).drop_last() =~= gs.subrange(0, i as int));
            assert(gs[i as int] == groups@[i as int]@);
        }
        match build_condition_group_with_config_clause(models, table, alias, &groups[i]) {
            Err(e) => {
                proof {
                    lemma_config_where_err_at(models@, table@, alias@, gs, i as int + 1, gs.len() as int);
                    assert(gs.subrange(0, gs.len() as int) =~= gs);
                }
                return Err(e);
            }
            Ok((clause, mut ps)) => {
                let ghost old_params = values_model(params@);
                let ghost new_params = values_model(ps@);
                if i > 0 {
                    crate::query_builder::push_and_word(&mut sql);
                }
                sql.append(clause.as_str());
                params.append(&mut ps);
                assert(values_model(params@) =~= old_params + new_params);
            }
        }
        i = i + 1;
    }
    assert(gs.subrange(0, groups.len() as int) =~= gs);
    Ok((sql, params))
}

/// Builds SQLite statements and their parameter lists.
pub struct SqlQueryBuilder {
    query_type: QueryType,
    fields: Vec<String>,
    conditions: Vec<QueryConditionWithConfig>,
    condition_groups: Vec<QueryConditionGroup>,
    joins: Vec<JoinClause>,
    order_by: Vec<OrderClause>,
    group_by: Vec<String>,
    having: Vec<QueryConditionWithConfig>,
    limit: Option<u64>,
    offset: Option<u64>,
    values: Vec<(String, DataValue)>,
    returning_fields: Vec<String>,
}

/// The model of a SQLite builder.
pub struct SqliteBuilderView {
    pub query_type: QueryType,
    pub fields: Seq<Seq<char>>,
    pub conditions: Seq<Condition>,
    pub groups: Seq<Group>,
    pub joins: Seq<JoinView>,
    pub order_by: Seq<OrderView>,
    pub group_by: Seq<Seq<char>>,
    pub having: Seq<Condition>,
    pub limit: Option<u64>,
    pub offset: Option<u64>,
    pub values: Seq<(Seq<char>, Value)>,
    pub returning: Seq<Seq<char>>,
}

impl View for SqlQueryBuilder {
    type V = SqliteBuilderView;

    closed spec fn view(&self) -> SqliteBuilderView {
        SqliteBuilderView {
            query_type: self.query_type,
            fields: crate::text::strings_view(self.fields@),
            conditions: config_conditions_model(self.conditions@),
            groups: groups_model(self.condition_groups@),
            joins: self.joins@.map_values(|j: JoinClause| j@),
            order_by: self.order_by@.map_values(|o: OrderClause| o@),
            group_by: crate::text::strings_view(self.group_by@),
            having: config_conditions_model(self.having@),
            limit: self.limit,
            offset: self.offset,
            values: entries_model(self.values@),
            returning: crate::text::strings_view(self.returning_fields@),
        }
    }
}

/// The SELECT statement of a builder on `table` and its parameters: the
/// fields (or `*`), the JOINs, a WHERE clause from the condition trees
/// when there are any and from the conditions otherwise, GROUP BY,
/// HAVING, ORDER BY, LIMIT and OFFSET. An empty table name is refused.
pub open spec fn select_statement(
    b: SqliteBuilderView,
    models: Seq<ModelView>,
    table: Seq<char>,
    alias: Seq<char>,
) -> Result<(Seq<char>, Seq<Value>), ErrorKind> {
    if table.len() == 0 {
        Err(ErrorKind::Query)
    } else {
        let fields = if b.fields.len() == 0 { seq!['*'] } else { join(b.fields, comma()) };
        let head = "SELECT "@ + fields + " FROM "@ + table + joins_text(b.joins);
        let w = if b.groups.len() > 0 {
            groups_where_clause(models, table, alias, b.groups)
        } else if b.conditions.len() > 0 {
            where_clause(models, table, alias, b.conditions)
        } else {
            Ok((Seq::empty(), Seq::empty()))
        };
        match w {
            Err(e) => Err(e),
            Ok((wc, wp)) => {
                let with_where = if b.groups.len() > 0 || b.conditions.len() > 0 { head + " WHERE "@ + wc } else { head };
                let with_group = with_where + optional_list(" GROUP BY "@, b.group_by);
                let h = if b.having.len() > 0 {
                    where_clause(models, table, alias, b.having)
                } else {
                    Ok((Seq::empty(), Seq::empty()))
                };
                match h {
                    Err(e) => Err(e),
                    Ok((hc, hp)) => {
                        let with_having = if b.having.len() > 0 { with_group + " HAVING "@ + hc } else { with_group };
                        let with_order = with_having + optional_list(
                            " ORDER BY "@,
                            b.order_by.map_values(|o: OrderView| order_text(o)),
                        );
                        let with_limit = match b.limit { Some(l) => with_order + " LIMIT "@ + decimal(l as nat), None => with_order };
                        let with_offset = match b.offset { Some(o) => with_limit + " OFFSET "@ + decimal(o as nat), None => with_limit };
                        Ok((with_offset, wp + hp))
                    },
                }
            },
        }
    }
}

/// `n` placeholders joined with `, `.
pub open spec fn qmarks(n: nat) -> Seq<Seq<char>> {
    Seq::new(n, |k: int| qmark())
}

/// The INSERT statement of a builder on `table` and its parameters: the
/// non-null values become the columns and parameters, in order. An empty
/// table name, no values, and only null values are refused.
pub open spec fn insert_statement(b: SqliteBuilderView, table: Seq<char>) -> Result<(Seq<char>, Seq<Value>), ErrorKind> {
    let nn = non_null_entries(b.values);
    if table.len() == 0 || b.values.len() == 0 || nn.len() == 0 {
        Err(ErrorKind::Query)
    } else {
        Ok((
            "INSERT INTO "@ + table + " ("@ + join(nn.map_values(|e: (Seq<char>, Value)| e.0), comma())
                + ") VALUES ("@ + join(qmarks(nn.len()), comma()) + ")"@ + optional_list(" RETURNING "@, b.returning),
            nn.map_values(|e: (Seq<char>, Value)| e.1),
        ))
    }
}

/// The UPDATE statement of a builder on `table` and its parameters: the
/// non-null values are set (`column = ?`), then the WHERE clause follows,
/// from the condition trees when there are any and from the conditions
/// otherwise. An empty table name, no values, and only null values are
/// refused.
pub open spec fn update_statement(
    b: SqliteBuilderView,
    models: Seq<ModelView>,
    table: Seq<char>,
    alias: Seq<char>,
) -> Result<(Seq<char>, Seq<Value>), ErrorKind> {
    let nn = non_null_entries(b.values);
    if table.len() == 0 || b.values.len() == 0 || nn.len() == 0 {
        Err(ErrorKind::Query)
    } else {
        let sets = nn.map_values(|e: (Seq<char>, Value)| e.0 + " = "@ + qmark());
        let head = "UPDATE "@ + table + " SET "@ + join(sets, comma());
        let w = if b.groups.len() > 0 {
            groups_where_clause(models, table, alias, b.groups)
        } else if b.conditions.len() > 0 {
            where_clause(models, table, alias, b.conditions)
        } else {
            Ok((Seq::empty(), Seq::empty()))
        };
        match w {
            Err(e) => Err(e),
            Ok((wc, wp)) => Ok((
                (if b.groups.len() > 0 || b.conditions.len() > 0 { head + " WHERE "@ + wc } else { head }) + optional_list(" RETURNING "@, b.returning),
                nn.map_values(|e: (Seq<char>, Value)| e.1) + wp,
            )),
        }
    }
}

/// The DELETE statement of a builder on `table` and its parameters: a
/// WHERE clause from the condition trees when there are any and from the
/// conditions otherwise. An empty table name is refused.
pub open spec fn delete_statement(
    b: SqliteBuilderView,
    models: Seq<ModelView>,
    table: Seq<char>,
    alias: Seq<char>,
) -> Result<(Seq<char>, Seq<Value>), ErrorKind> {
    if table.len() == 0 {
        Err(ErrorKind::Query)
    } else {
        let head = "DELETE FROM "@ + table;
        let w = if b.groups.len() > 0 {
            groups_where_clause(models, table, alias, b.groups)
        } else if b.conditions.len() > 0 {
            where_clause(models, table, alias, b.conditions)
        } else {
            Ok((Seq::empty(), Seq::empty()))
        };
        match w {
            Err(e) => Err(e),
            Ok((wc, wp)) => Ok((
                (if b.groups.len() > 0 || b.conditions.len() > 0 { head + " WHERE "@ + wc } else { head }) + optional_list(" RETURNING "@, b.returning),
                wp,
            )),
        }
    }
}

/// The statement a builder makes on `table`, by its query type.
pub open spec fn statement(
    b: SqliteBuilderView,
    models: Seq<ModelView>,
    table: Seq<char>,
    alias: Seq<char>,
) -> Result<(Seq<char>, Seq<Value>), ErrorKind> {
    match b.query_type {
        QueryType::Select => select_statement(b, models, table, alias),
        QueryType::Insert => insert_statement(b, table),
        QueryType::Update => update_statement(b, models, table, alias),
        QueryType::Delete => delete_statement(b, models, table, alias),
    }
}

impl SqlQueryBuilder {
    /// The SELECT statement on `table` and its parameters (see
    /// `select_statement`).
    fn build_select(&self, table: &str, alias: &str, models: &ModelRegistry) -> (r: Result<(String, Vec<DataValue>), QuickDbError>)
        ensures
            clause_matches(r, select_statement(self@, models@, table@, alias@)),
    {
        if table.is_empty() {
            return Err(query_error("表名不能为空"));
        }
        let ghost b = self@;
        let mut sql = String::new();
        sql.append("SELECT ");
        if self.fields.len() == 0 {
            push_char(&mut sql, '*');
        } else {
            proof { reveal_strlit(", "); }
            assert(", "@ =~= comma());
            let f = crate::text::join_strings(&self.fields, ", ");
            sql.append(f.as_str());
        }
        sql.append(" FROM ");
        sql.append(table);
        push_joins(&mut sql, &self.joins);
        let ghost fields_text = if b.fields.len() == 0 { seq!['*'] } else { join(b.fields, comma()) };
        assert(sql@ =~= "SELECT "@ + fields_text + " FROM "@ + table@ + joins_text(b.joins));
        let mut params: Vec<DataValue> = Vec::new();
        if self.condition_groups.len() > 0 {
            match build_groups_where_clause(models, table, alias, self.condition_groups.as_slice()) {
                Err(e) => return Err(e),
                Ok((w, wp)) => {
                    sql.append(" WHERE ");
                    sql.append(w.as_str());
                    params = wp;
                }
            }
        } else if self.conditions.len() > 0 {
            match build_where_clause(models, table, alias, self.conditions.as_slice()) {
                Err(e) => return Err(e),
                Ok((w, wp)) => {
                    sql.append(" WHERE ");
                    sql.append(w.as_str());
                    params = wp;
                }
            }
        } else {
            assert(values_model(params@) =~= Seq::<Value>::empty());
        }
        push_optional_list(&mut sql, " GROUP BY ", &self.group_by);
        if self.having.len() > 0 {
            match build_where_clause(models, table, alias, self.having.as_slice()) {
                Err(e) => return Err(e),
                Ok((h, hp)) => {
                    sql.append(" HAVING ");
                    sql.append(h.as_str());
                    append_values(&mut params, hp);
                }
            }
        } else {
            assert(values_model(params@) =~= values_model(params@) + Seq::<Value>::empty());
        }
        let orders = order_texts(&self.order_by);
        push_optional_list(&mut sql, " ORDER BY ", &orders);
        match self.limit {
            Some(l) => {
                sql.append(" LIMIT ");
                crate::text::push_decimal(&mut sql, l);
            }
            None => {}
        }
        match self.offset {
            Some(o) => {
                sql.append(" OFFSET ");
                crate::text::push_decimal(&mut sql, o);
            }
            None => {}
        }
        Ok((sql, params))
    }

    /// `count` placeholders.
    fn generate_placeholders(&self, count: usize) -> (r: Vec<String>)
        ensures
            crate::text::strings_view(r@) == qmarks(count as nat),
    {
        let mut r: Vec<String> = Vec::new();
        let mut k: usize = 0;
        while k < count
            invariant
                k <= count,
                r@.len() == k,
                forall|j: int| 0 <= j < k ==> #[trigger] r@[j]@ == qmark(),
            decreases count - k,
        {
            r.push(self.get_placeholder(k));
            k = k + 1;
        }
        assert(crate::text::strings_view(r@) =~= qmarks(count as nat));
        r
    }

    /// The placeholder of a parameter, whatever its number.
    fn get_placeholder(&self, _index: usize) -> (r: String)
        ensures
            r@ == qmark(),
    {
        let mut r = String::new();
        push_char(&mut r, '?');
        r
    }

    /// The INSERT statement on `table` and its parameters (see
    /// `insert_statement`).
    fn build_insert(&self, table: &str) -> (r: Result<(String, Vec<DataValue>), QuickDbError>)
        ensures
            clause_matches(r, insert_statement(self@, table@)),
    {
        let ghost b = self@;
        if table.is_empty() {
            return Err(query_error("表名不能为空"));
        }
        if self.values.len() == 0 {
            return Err(query_error("插入值不能为空"));
        }
        let (cols, params) = split_non_null(&self.values);
        if cols.len() == 0 {
            return Err(query_error("所有插入值都是 NULL，无法插入"));
        }
        let placeholders = self.generate_placeholders(cols.len());
        proof { reveal_strlit(", "); }
        assert(", "@ =~= comma());
        let mut sql = String::new();
        sql.append("INSERT INTO ");
        sql.append(table);
        sql.append(" (");
        let c = crate::text::join_strings(&cols, ", ");
        sql.append(c.as_str());
        sql.append(") VALUES (");
        let p = crate::text::join_strings(&placeholders, ", ");
        sql.append(p.as_str());
        sql.append(")");
        push_returning(&mut sql, &self.returning_fields);
        Ok((sql, params))
    }

    /// The DELETE statement on `table` and its parameters (see
    /// `delete_statement`).
    fn build_delete(&self, table: &str, alias: &str, models: &ModelRegistry) -> (r: Result<(String, Vec<DataValue>), QuickDbError>)
        ensures
            clause_matches(r, delete_statement(self@, models@, table@, alias@)),
    {
        if table.is_empty() {
            return Err(query_error("表名不能为空"));
        }
        let mut sql = String::new();
        sql.append("DELETE FROM ");
        sql.append(table);
        let mut params: Vec<DataValue> = Vec::new();
        assert(values_model(params@) =~= Seq::<Value>::empty());
        if self.condition_groups.len() > 0 {
            match build_groups_where_clause(models, table, alias, self.condition_groups.as_slice()) {
                Err(e) => return Err(e),
                Ok((w, wp)) => {
                    sql.append(" WHERE ");
                    sql.append(w.as_str());
                    params = wp;
                }
            }
        } else if self.conditions.len() > 0 {
            match build_where_clause(models, table, alias, self.conditions.as_slice()) {
                Err(e) => return Err(e),
                Ok((w, wp)) => {
                    sql.append(" WHERE ");
                    sql.append(w.as_str());
                    params = wp;
                }
            }
        }
        push_returning(&mut sql, &self.returning_fields);
        Ok((sql, params))
    }

    /// The UPDATE statement on `table` and its parameters (see
    /// `update_statement`).
    fn build_update(&self, table: &str, alias: &str, models: &ModelRegistry) -> (r: Result<(String, Vec<DataValue>), QuickDbError>)
        ensures
            clause_matches(r, update_statement(self@, models@, table@, alias@)),
    {
        let ghost b = self@;
        if table.is_empty() {
            return Err(query_error("表名不能为空"));
        }
        if self.values.len() == 0 {
            return Err(query_error("更新值不能为空"));
        }
        let (cols, mut params) = split_non_null(&self.values);
        assert(crate::text::strings_view(cols@).len() == cols@.len());
        if cols.len() == 0 {
            return Err(query_error("所有更新值都是 NULL，无法更新"));
        }
        let ghost nn = non_null_entries(b.values);
        let ghost items = nn.map_values(|e: (Seq<char>, Value)| e.0 + " = "@ + qmark());
        let mut set_parts: Vec<String> = Vec::new();
        let mut k: usize = 0;
        while k < cols.len()
            invariant
                k <= cols.len(),
                nn == non_null_entries(b.values),
                items == nn.map_values(|e: (Seq<char>, Value)| e.0 + " = "@ + qmark()),
                crate::text::strings_view(cols@) == nn.map_values(|e: (Seq<char>, Value)| e.0),
                cols@.len() == nn.len(),
                set_parts@.len() == k,
                forall|j: int| 0 <= j < k ==> #[trigger] set_parts@[j]@ == items[j],
            decreases cols.len() - k,
        {
            proof { reveal_strlit(" = "); }
            let mut t = cols[k].clone();
            t.append(" = ");
            let ph = self.get_placeholder(k + 1);
            t.append(ph.as_str());
            assert(crate::text::strings_view(cols@)[k as int] == cols@[k as int]@);
            assert(nn.map_values(|e: (Seq<char>, Value)| e.0)[k as int] == nn[k as int].0);
            assert(t@ =~= items[k as int]);
            set_parts.push(t);
            k = k + 1;
        }
        assert(crate::text::strings_view(set_parts@) =~= items);
        proof { reveal_strlit(", "); }
        assert(", "@ =~= comma());
        let mut sql = String::new();
        sql.append("UPDATE ");
        sql.append(table);
        sql.append(" SET ");
        let s = crate::text::join_strings(&set_parts, ", ");
        sql.append(s.as_str());
        if self.condition_groups.len() > 0 {
            match build_groups_where_clause(models, table, alias, self.condition_groups.as_slice()) {
                Err(e) => return Err(e),
                Ok((w, wp)) => {
                    sql.append(" WHERE ");
                    sql.append(w.as_str());
                    append_values(&mut params, wp);
                }
            }
        } else if self.conditions.len() > 0 {
            match build_where_clause(models, table, alias, self.conditions.as_slice()) {
                Err(e) => return Err(e),
                Ok((w, wp)) => {
                    sql.append(" WHERE ");
                    sql.append(w.as_str());
                    append_values(&mut params, wp);
                }
            }
        } else {
            assert(values_model(params@) =~= values_model(params@) + Seq::<Value>::empty());
        }
        push_returning(&mut sql, &self.returning_fields);
        Ok((sql, params))
    }
}

fn config_conditions_copy(conditions: &[QueryConditionWithConfig]) -> (r: Vec<QueryConditionWithConfig>)
    ensures
        config_conditions_model(r@) == config_conditions_model(conditions@),
{
    let mut r: Vec<QueryConditionWithConfig> = Vec::new();
    let mut i: usize = 0;
    while i < conditions.len()
        invariant
            i <= conditions.len(),
            r@.len() == i,
            forall|k: int| 0 <= k < i ==> #[trigger] r@[k]@ == conditions@[k]@,
        decreases conditions.len() - i,
    {
        r.push(conditions[i].duplicate());
        i = i + 1;
    }
    assert(config_conditions_model(r@) =~= config_conditions_model(conditions@));
    r
}

fn groups_copy(groups: &[QueryConditionGroup]) -> (r: Vec<QueryConditionGroup>)
    ensures
        groups_model(r@) == groups_model(groups@),
{
    let mut r: Vec<QueryConditionGroup> = Vec::new();
    let mut i: usize = 0;
    while i < groups.len()
        invariant
            i <= groups.len(),
            r@.len() == i,
            forall|k: int| 0 <= k < i ==> #[trigger] r@[k]@ == groups@[k]@,
        decreases groups.len() - i,
    {
        r.push(groups[i].duplicate());
        i = i + 1;
    }
    assert(groups_model(r@) =~= groups_model(groups@));
    r
}

impl SqlQueryBuilder {
    /// An empty SELECT builder.
    pub fn new() -> (b: Self)
        ensures
            b@ == (SqliteBuilderView {
                query_type: QueryType::Select,
                fields: Seq::empty(),
                conditions: Seq::empty(),
                groups: Seq::empty(),
                joins: Seq::empty(),
                order_by: Seq::empty(),
                group_by: Seq::empty(),
                having: Seq::empty(),
                limit: None,
                offset: None,
                values: Seq::empty(),
                returning: Seq::empty(),
            }),
    {
        let b = SqlQueryBuilder {
            query_type: QueryType::Select,
            fields: Vec::new(),
            conditions: Vec::new(),
            condition_groups: Vec::new(),
            joins: Vec::new(),
            order_by: Vec::new(),
            group_by: Vec::new(),
            having: Vec::new(),
            limit: None,
            offset: None,
            values: Vec::new(),
            returning_fields: Vec::new(),
        };
        assert(crate::text::strings_view(b.fields@) =~= Seq::<Seq<char>>::empty());
        assert(crate::text::strings_view(b.group_by@) =~= Seq::<Seq<char>>::empty());
        assert(crate::text::strings_view(b.returning_fields@) =~= Seq::<Seq<char>>::empty());
        assert(config_conditions_model(b.conditions@) =~= Seq::<Condition>::empty());
        assert(config_conditions_model(b.having@) =~= Seq::<Condition>::empty());
        assert(groups_model(b.condition_groups@) =~= Seq::<Group>::empty());
        assert(b.joins@.map_values(|j: JoinClause| j@) =~= Seq::<JoinView>::empty());
        assert(b.order_by@.map_values(|o: OrderClause| o@) =~= Seq::<OrderView>::empty());
        assert(entries_model(b.values@) =~= Seq::<(Seq<char>, Value)>::empty());
        b
    }

    /// Makes a SELECT of the given fields (all fields when empty).
    pub fn select(self, fields: &[&str]) -> (r: Self)
        ensures
            r@ == (SqliteBuilderView { query_type: QueryType::Select, fields: strs_model(fields@), ..self@ }),
    {
        let mut b = self;
        b.query_type = QueryType::Select;
        b.fields = strs_to_strings(fields);
        b
    }

    /// Makes an INSERT of the given column values. The values are kept as
    /// given, in order: each entry becomes a column of the statement, so a
    /// key given twice is written twice (a caller holding a map passes
    /// each key once).
    pub fn insert(self, values: Vec<(String, DataValue)>) -> (r: Self)
        ensures
            r@ == (SqliteBuilderView { query_type: QueryType::Insert, values: entries_model(values@), ..self@ }),
    {
        let mut b = self;
        b.query_type = QueryType::Insert;
        b.values = values;
        b
    }

    /// Makes an UPDATE that sets the given column values. The values are
    /// kept as given, in order: each entry becomes a `SET` item, so a key
    /// given twice is set twice (a caller holding a map passes each key
    /// once).
    pub fn update(self, values: Vec<(String, DataValue)>) -> (r: Self)
        ensures
            r@ == (SqliteBuilderView { query_type: QueryType::Update, values: entries_model(values@), ..self@ }),
    {
        let mut b = self;
        b.query_type = QueryType::Update;
        b.values = values;
        b
    }

    /// Makes a DELETE.
    pub fn delete(self) -> (r: Self)
        ensures
            r@ == (SqliteBuilderView { query_type: QueryType::Delete, ..self@ }),
    {
        let mut b = self;
        b.query_type = QueryType::Delete;
        b
    }

    /// Adds a WHERE condition.
    pub fn where_condition(self, condition: QueryConditionWithConfig) -> (r: Self)
        ensures
            r@ == (SqliteBuilderView { conditions: self@.conditions.push(condition@), ..self@ }),
    {
        let mut b = self;
        let ghost before = config_conditions_model(b.conditions@);
        b.conditions.push(condition);
        assert(config_conditions_model(b.conditions@) =~= before.push(condition@));
        b
    }

    /// Adds WHERE conditions.
    pub fn where_conditions(self, conditions: &[QueryConditionWithConfig]) -> (r: Self)
        ensures
            r@ == (SqliteBuilderView { conditions: self@.conditions + config_conditions_model(conditions@), ..self@ }),
    {
        let mut b = self;
        let ghost before = config_conditions_model(b.conditions@);
        let mut more = config_conditions_copy(conditions);
        b.conditions.append(&mut more);
        assert(config_conditions_model(b.conditions@) =~= before + config_conditions_model(conditions@));
        b
    }

    /// Adds condition trees; they take the place of the plain conditions,
    /// which are cleared.
    pub fn where_condition_groups(self, groups: &[QueryConditionGroup]) -> (r: Self)
        ensures
            r@ == (SqliteBuilderView {
                groups: self@.groups + groups_model(groups@),
                conditions: Seq::empty(),
                ..self@
            }),
    {
        let mut b = self;
        let ghost before = groups_model(b.condition_groups@);
        let mut more = groups_copy(groups);
        b.condition_groups.append(&mut more);
        assert(groups_model(b.condition_groups@) =~= before + groups_model(groups@));
        b.conditions.clear();
        assert(config_conditions_model(b.conditions@) =~= Seq::<Condition>::empty());
        b
    }

    /// Adds a JOIN.
    pub fn join(self, join_type: JoinType, table: &str, on_condition: &str) -> (r: Self)
        ensures
            r@ == (SqliteBuilderView {
                joins: self@.joins.push(JoinView { join_type, table: table@, on_condition: on_condition@ }),
                ..self@
            }),
    {
        let mut b = self;
        let ghost before = b.joins@.map_values(|j: JoinClause| j@);
        b.joins.push(JoinClause { join_type, table: table.to_owned(), on_condition: on_condition.to_owned() });
        assert(b.joins@.map_values(|j: JoinClause| j@) =~= before.push(JoinView { join_type, table: table@, on_condition: on_condition@ }));
        b
    }

    /// Adds an ORDER BY item.
    pub fn order_by(self, field: &str, direction: SortDirection) -> (r: Self)
        ensures
            r@ == (SqliteBuilderView { order_by: self@.order_by.push(OrderView { field: field@, direction }), ..self@ }),
    {
        let mut b = self;
        let ghost before = b.order_by@.map_values(|o: OrderClause| o@);
        b.order_by.push(OrderClause { field: field.to_owned(), direction });
        assert(b.order_by@.map_values(|o: OrderClause| o@) =~= before.push(OrderView { field: field@, direction }));
        b
    }

    /// Sets the GROUP BY fields.
    pub fn group_by(self, fields: &[&str]) -> (r: Self)
        ensures
            r@ == (SqliteBuilderView { group_by: strs_model(fields@), ..self@ }),
    {
        let mut b = self;
        b.group_by = strs_to_strings(fields);
        b
    }

    /// Adds a HAVING condition.
    pub fn having(self, condition: QueryConditionWithConfig) -> (r: Self)
        ensures
            r@ == (SqliteBuilderView { having: self@.having.push(condition@), ..self@ }),
    {
        let mut b = self;
        let ghost before = config_conditions_model(b.having@);
        b.having.push(condition);
        assert(config_conditions_model(b.having@) =~= before.push(condition@));
        b
    }

    /// Sets the LIMIT.
    pub fn limit(self, limit: u64) -> (r: Self)
        ensures
            r@ == (SqliteBuilderView { limit: Some(limit), ..self@ }),
    {
        let mut b = self;
        b.limit = Some(limit);
        b
    }

    /// Sets the OFFSET.
    pub fn offset(self, offset: u64) -> (r: Self)
        ensures
            r@ == (SqliteBuilderView { offset: Some(offset), ..self@ }),
    {
        let mut b = self;
        b.offset = Some(offset);
        b
    }

    /// Sets the RETURNING fields.
    pub fn returning(self, fields: &[&str]) -> (r: Self)
        ensures
            r@ == (SqliteBuilderView { returning: strs_model(fields@), ..self@ }),
    {
        let mut b = self;
        b.returning_fields = strs_to_strings(fields);
        b
    }

    /// The statement on `table` and its parameters (see `statement`).
    /// `models` holds the registered models, which `alias` selects among
    /// for the field kinds that conditions consult.
    pub fn build(self, table: &str, alias: &str, models: &ModelRegistry) -> (r: Result<(String, Vec<DataValue>), QuickDbError>)
        ensures
            clause_matches(r, statement(self@, models@, table@, alias@)),
    {
        match self.query_type {
            QueryType::Select => self.build_select(table, alias, models),
            QueryType::Insert => self.build_insert(table),
            QueryType::Update => self.build_update(table, alias, models),
            QueryType::Delete => self.build_delete(table, alias, models),
        }
    }

    /// The WHERE clause of condition trees on `table` (see
    /// `groups_where_clause`).
    pub fn build_where_clause_from_groups(
        &self,
        groups: &[QueryConditionGroup],
        table: &str,
        alias: &str,
        models: &ModelRegistry,
    ) -> (r: Result<(String, Vec<DataValue>), QuickDbError>)
        ensures
            clause_matches(r, groups_where_clause(models@, table@, alias@, groups_model(groups@))),
    {
        build_groups_where_clause(models, table, alias, groups)
    }
}

proof fn lemma_words_hold_no_qmark()
    ensures
        count_char(like_word(), '?') == 0,
        count_char(regexp_word(), '?') == 0,
        count_char(is_null_word(), '?') == 0,
        count_char(is_not_null_word(), '?') == 0,
        count_char(crate::query_builder::and_word(), '?') == 0,
        count_char(crate::query_builder::or_word(), '?') == 0,
        count_char(qmark(), '?') == 1,
        count_char(seq!['('], '?') == 0,
        count_char(seq![')'], '?') == 0,
        forall|op: QueryOperator| #[trigger] count_char(comparison_word(op), '?') == 0,
{
    reveal_with_fuel(count_char, 16);
    assert(count_char(like_word(), '?') == 0);
    assert(count_char(regexp_word(), '?') == 0);
    assert(count_char(is_null_word(), '?') == 0);
    assert(count_char(is_not_null_word(), '?') == 0);
    assert(count_char(crate::query_builder::and_word(), '?') == 0);
    assert(count_char(crate::query_builder::or_word(), '?') == 0);
    assert(count_char(qmark(), '?') == 1);
    assert(count_char(seq!['('], '?') == 0);
    assert(count_char(seq![')'], '?') == 0);
    assert(count_char(seq![' ', '=', ' '], '?') == 0);
    assert(count_char(seq![' ', '!', '=', ' '], '?') == 0);
    assert(count_char(seq![' ', '>', ' '], '?') == 0);
    assert(count_char(seq![' ', '>', '=', ' '], '?') == 0);
    assert(count_char(seq![' ', '<', ' '], '?') == 0);
    assert(count_char(seq![' ', '<', '=', ' '], '?') == 0);
}

proof fn lemma_safe_field_no_qmark(f: Seq<char>)
    requires
        safe_identifier(f),
    ensures
        count_char(f, '?') == 0,
{
    assert forall|i: int| 0 <= i < f.len() implies f[i] != '?' by {
        assert(crate::security::identifier_char(f[i]));
    }
    lemma_count_char_none(f, '?');
}

/// `f`, a word, then one placeholder, hold one `?` when neither `f` nor
/// the word holds any.
proof fn lemma_field_word_qmark(f: Seq<char>, w: Seq<char>)
    requires
        count_char(f, '?') == 0,
        count_char(w, '?') == 0,
    ensures
        count_char(f + w + qmark(), '?') == 1,
        count_char(f + w, '?') == 0,
{
    lemma_words_hold_no_qmark();
    lemma_count_char_concat(f, w, '?');
    lemma_count_char_concat(f + w, qmark(), '?');
}

proof fn lemma_like_clauses_count(f: Seq<char>, n: nat)
    requires
        count_char(f, '?') == 0,
    ensures
        parts_count(like_clauses(f, n), '?') == n,
    decreases n,
{
    if n > 0 {
        lemma_like_clauses_count(f, (n - 1) as nat);
        assert(like_clauses(f, n).drop_last() =~= like_clauses(f, (n - 1) as nat));
        lemma_words_hold_no_qmark();
        lemma_field_word_qmark(f, like_word());
    }
}

/// A condition inside a tree has as many `?` in its clause as it has
/// parameters.
pub proof fn lemma_condition_clause_placeholders(models: Seq<ModelView>, table: Seq<char>, alias: Seq<char>, c: Condition)
    ensures
        condition_clause(models, table, alias, c) matches Ok((s, p)) ==> count_char(s, '?') == p.len(),
{
    if let Ok((s, p)) = condition_clause(models, table, alias, c) {
        let f = c.field;
        lemma_safe_field_no_qmark(f);
        lemma_words_hold_no_qmark();
        lemma_field_word_qmark(f, comparison_word(c.operator));
        lemma_field_word_qmark(f, like_word());
        lemma_field_word_qmark(f, regexp_word());
        lemma_field_word_qmark(f, is_null_word());
        lemma_field_word_qmark(f, is_not_null_word());
        if c.operator == QueryOperator::In {
            let items = in_items(c)->Ok_0;
            if items.len() != 1 {
                let n = items.len();
                lemma_like_clauses_count(f, n);
                lemma_count_join(like_clauses(f, n), crate::query_builder::or_word(), '?');
                lemma_count_char_concat(seq!['('], join(like_clauses(f, n), crate::query_builder::or_word()), '?');
                lemma_count_char_concat(seq!['('] + join(like_clauses(f, n), crate::query_builder::or_word()), seq![')'], '?');
            }
        }
    }
}

proof fn lemma_list_condition_placeholders(models: Seq<ModelView>, table: Seq<char>, alias: Seq<char>, c: Condition)
    ensures
        list_condition(models, table, alias, c) matches Ok((cl, p)) ==> parts_count(cl, '?') == p.len(),
{
    if let Ok((cl, p)) = list_condition(models, table, alias, c) {
        if safe_identifier(c.field) && c.operator == QueryOperator::In {
            lemma_safe_field_no_qmark(c.field);
            let items = in_items(c)->Ok_0;
            let f = c.field;
            let n = items.len();
            let s = in_clause(f, n);
            lemma_words_hold_no_qmark();
            lemma_field_word_qmark(f, like_word());
            if n != 1 {
                lemma_like_clauses_count(f, n);
                lemma_count_join(like_clauses(f, n), crate::query_builder::or_word(), '?');
                lemma_count_char_concat(seq!['('], join(like_clauses(f, n), crate::query_builder::or_word()), '?');
                lemma_count_char_concat(seq!['('] + join(like_clauses(f, n), crate::query_builder::or_word()), seq![')'], '?');
            }
            assert(count_char(s, '?') == n);
            assert(cl == seq![s]);
            assert(cl.drop_last().len() == 0);
            assert(parts_count(cl.drop_last(), '?') == 0);
            assert(cl.last() == s);
            assert(p.len() == items.len());
        } else {
            lemma_condition_clause_placeholders(models, table, alias, c);
            let s = condition_clause(models, table, alias, c)->Ok_0.0;
            assert(cl == seq![s]);
            assert(cl.drop_last().len() == 0);
            assert(parts_count(cl.drop_last(), '?') == 0);
            assert(cl.last() == s);
        }
    }
}

proof fn lemma_list_items_placeholders(models: Seq<ModelView>, table: Seq<char>, alias: Seq<char>, cs: Seq<Condition>)
    ensures
        list_items(models, table, alias, cs) matches Ok((cl, ps)) ==> parts_count(cl, '?') == ps.len(),
    decreases cs.len(),
{
    if cs.len() > 0 {
        lemma_list_items_placeholders(models, table, alias, cs.drop_last());
        lemma_list_condition_placeholders(models, table, alias, cs.last());
        if let Ok((cl, ps)) = list_items(models, table, alias, cs.drop_last()) {
            if let Ok((c, p)) = list_condition(models, table, alias, cs.last()) {
                lemma_parts_count_concat(cl, c, '?');
            }
        }
    }
}

/// The WHERE clause of a condition list holds exactly one `?` for each of
/// its parameters.
pub proof fn law_where_clause_placeholders(models: Seq<ModelView>, table: Seq<char>, alias: Seq<char>, cs: Seq<Condition>)
    ensures
        where_clause(models, table, alias, cs) matches Ok((s, ps)) ==> count_char(s, '?') == ps.len(),
{
    lemma_list_items_placeholders(models, table, alias, cs);
    lemma_words_hold_no_qmark();
    if let Ok((cl, ps)) = list_items(models, table, alias, cs) {
        lemma_count_join(cl, crate::query_builder::and_word(), '?');
    }
}

proof fn lemma_group_placeholders(models: Seq<ModelView>, table: Seq<char>, alias: Seq<char>, g: Group)
    ensures
        group_clause(models, table, alias, g) matches Ok((s, p)) ==> count_char(s, '?') == p.len(),
    decreases g,
{
    match g {
        Group::Single(c) => {
            lemma_condition_clause_placeholders(models, table, alias, c);
        },
        Group::Group { operator, conditions } => {
            lemma_members_placeholders(models, table, alias, conditions);
            lemma_words_hold_no_qmark();
            if let Ok((cl, ps)) = group_members(models, table, alias, conditions) {
                if cl.len() == 1 {
                    assert(cl.drop_last().len() == 0);
                    assert(parts_count(cl.drop_last(), '?') == 0);
                    assert(cl.last() == cl[0]);
                } else if cl.len() > 1 {
                    lemma_count_join(cl, logical_word(operator), '?');
                    lemma_count_char_concat(seq!['('], join(cl, logical_word(operator)), '?');
                    lemma_count_char_concat(seq!['('] + join(cl, logical_word(operator)), seq![')'], '?');
                }
            }
        },
    }
}

proof fn lemma_members_placeholders(models: Seq<ModelView>, table: Seq<char>, alias: Seq<char>, gs: Seq<Group>)
    ensures
        group_members(models, table, alias, gs) matches Ok((cl, ps)) ==> parts_count(cl, '?') == ps.len(),
    decreases gs,
{
    if gs.len() > 0 {
        assert(decreases_to!(gs => gs.subrange(0, gs.len() - 1)));
        lemma_members_placeholders(models, table, alias, gs.drop_last());
        lemma_group_placeholders(models, table, alias, gs.last());
        if let Ok((cl, ps)) = group_members(models, table, alias, gs.drop_last()) {
            if let Ok((c, p)) = group_clause(models, table, alias, gs.last()) {
                if c.len() > 0 {
                    assert(cl.push(c).drop_last() =~= cl);
                }
            }
        }
    }
}

proof fn lemma_config_group_placeholders(models: Seq<ModelView>, table: Seq<char>, alias: Seq<char>, g: Group)
    ensures
        config_group_clause(models, table, alias, g) matches Ok((s, p)) ==> count_char(s, '?') == p.len(),
    decreases g,
{
    match g {
        Group::Single(c) => {
            lemma_condition_clause_placeholders(models, table, alias, c);
        },
        Group::Group { operator, conditions } => {
            lemma_config_members_placeholders(models, table, alias, conditions);
            lemma_words_hold_no_qmark();
            if let Ok((cl, ps)) = config_group_members(models, table, alias, conditions) {
                if cl.len() > 0 {
                    lemma_count_join(cl, logical_word(operator), '?');
                    lemma_count_char_concat(seq!['('], join(cl, logical_word(operator)), '?');
                    lemma_count_char_concat(seq!['('] + join(cl, logical_word(operator)), seq![')'], '?');
                }
            }
        },
    }
}

proof fn lemma_config_members_placeholders(models: Seq<ModelView>, table: Seq<char>, alias: Seq<char>, gs: Seq<Group>)
    ensures
        config_group_members(models, table, alias, gs) matches Ok((cl, ps)) ==> parts_count(cl, '?') == ps.len(),
    decreases gs,
{
    if gs.len() > 0 {
        assert(decreases_to!(gs => gs.subrange(0, gs.len() - 1)));
        lemma_config_members_placeholders(models, table, alias, gs.drop_last());
        lemma_config_group_placeholders(models, table, alias, gs.last());
        if let Ok((cl, ps)) = config_group_members(models, table, alias, gs.drop_last()) {
            if let Ok((c, p)) = config_group_clause(models, table, alias, gs.last()) {
                if c.len() > 0 {
                    assert(cl.push(c).drop_last() =~= cl);
                }
            }
        }
    }
}

proof fn lemma_top_items_placeholders(models: Seq<ModelView>, table: Seq<char>, alias: Seq<char>, gs: Seq<Group>)
    ensures
        top_group_items(models, table, alias, gs) matches Ok((cl, ps)) ==> parts_count(cl, '?') == ps.len(),
    decreases gs.len(),
{
    if gs.len() > 0 {
        lemma_top_items_placeholders(models, table, alias, gs.drop_last());
        lemma_group_placeholders(models, table, alias, gs.last());
        if let Ok((cl, ps)) = top_group_items(models, table, alias, gs.drop_last()) {
            if let Ok((c, p)) = group_clause(models, table, alias, gs.last()) {
                assert(cl.push(c).drop_last() =~= cl);
            }
        }
    }
}

/// The WHERE clause of a list of condition trees holds exactly one `?`
/// for each of its parameters, and so does that of configured trees.
pub proof fn law_groups_where_clause_placeholders(models: Seq<ModelView>, table: Seq<char>, alias: Seq<char>, gs: Seq<Group>)
    ensures
        groups_where_clause(models, table, alias, gs) matches Ok((s, ps)) ==> count_char(s, '?') == ps.len(),
        config_groups_where_clause(models, table, alias, gs) matches Ok((s, ps)) ==> count_char(s, '?') == ps.len(),
    decreases gs.len(),
{
    lemma_top_items_placeholders(models, table, alias, gs);
    lemma_words_hold_no_qmark();
    if let Ok((cl, ps)) = top_group_items(models, table, alias, gs) {
        lemma_count_join(cl, crate::query_builder::and_word(), '?');
    }
    if gs.len() > 0 {
        law_groups_where_clause_placeholders(models, table, alias, gs.drop_last());
        lemma_config_group_placeholders(models, table, alias, gs.last());
        if let Ok((w, ps)) = config_groups_where_clause(models, table, alias, gs.drop_last()) {
            if let Ok((c, p)) = config_group_clause(models, table, alias, gs.last()) {
                lemma_count_char_concat(w, crate::query_builder::and_word(), '?');
                lemma_count_char_concat(w + crate::query_builder::and_word(), c, '?');
            }
        }
    }
}

/// Whether a text holds no `?`.
pub open spec fn no_qmark(s: Seq<char>) -> bool {
    count_char(s, '?') == 0
}

/// Whether none of the texts holds a `?`.
pub open spec fn none_hold_qmark(ss: Seq<Seq<char>>) -> bool {
    forall|i: int| 0 <= i < ss.len() ==> #[trigger] no_qmark(ss[i])
}

/// Whether the texts that a builder writes into its statement as they
/// stand (the table, fields, JOINs, GROUP BY and ORDER BY items, column
/// names and RETURNING fields) hold no `?`.
pub open spec fn written_texts_hold_no_qmark(b: SqliteBuilderView, table: Seq<char>) -> bool {
    &&& no_qmark(table)
    &&& none_hold_qmark(b.fields)
    &&& forall|i: int| 0 <= i < b.joins.len() ==> #[trigger] no_qmark(b.joins[i].table) && no_qmark(b.joins[i].on_condition)
    &&& none_hold_qmark(b.group_by)
    &&& forall|i: int| 0 <= i < b.order_by.len() ==> #[trigger] no_qmark(b.order_by[i].field)
    &&& forall|i: int| 0 <= i < b.values.len() ==> #[trigger] no_qmark(b.values[i].0)
    &&& none_hold_qmark(b.returning)
}

proof fn lemma_parts_count_none(ss: Seq<Seq<char>>)
    requires
        none_hold_qmark(ss),
    ensures
        parts_count(ss, '?') == 0,
    decreases ss.len(),
{
    if ss.len() > 0 {
        assert(no_qmark(ss[ss.len() - 1]));
        lemma_parts_count_none(ss.drop_last());
    }
}

proof fn lemma_join_none(ss: Seq<Seq<char>>, sep: Seq<char>)
    requires
        none_hold_qmark(ss),
        no_qmark(sep),
    ensures
        no_qmark(join(ss, sep)),
{
    lemma_parts_count_none(ss);
    lemma_count_join(ss, sep, '?');
}

proof fn lemma_statement_words()
    ensures
        no_qmark("SELECT "@),
        no_qmark(" FROM "@),
        no_qmark(" WHERE "@),
        no_qmark(" GROUP BY "@),
        no_qmark(" HAVING "@),
        no_qmark(" ORDER BY "@),
        no_qmark(" LIMIT "@),
        no_qmark(" OFFSET "@),
        no_qmark(" RETURNING "@),
        no_qmark("INSERT INTO "@),
        no_qmark(" ("@),
        no_qmark(") VALUES ("@),
        no_qmark(")"@),
        no_qmark("UPDATE "@),
        no_qmark(" SET "@),
        no_qmark(" = "@),
        no_qmark("DELETE FROM "@),
        no_qmark(comma()),
        no_qmark(seq!['*']),
        no_qmark(seq![' ', 'A', 'S', 'C']),
        no_qmark(seq![' ', 'D', 'E', 'S', 'C']),
        no_qmark(seq![' ']),
        no_qmark(seq![' ', 'O', 'N', ' ']),
        no_qmark(seq!['I', 'N', 'N', 'E', 'R', ' ', 'J', 'O', 'I', 'N']),
        no_qmark(seq!['L', 'E', 'F', 'T', ' ', 'J', 'O', 'I', 'N']),
        no_qmark(seq!['R', 'I', 'G', 'H', 'T', ' ', 'J', 'O', 'I', 'N']),
        no_qmark(seq!['F', 'U', 'L', 'L', ' ', 'O', 'U', 'T', 'E', 'R', ' ', 'J', 'O', 'I', 'N']),
{
    reveal_strlit("SELECT ");
    reveal_strlit(" FROM ");
    reveal_strlit(" WHERE ");
    reveal_strlit(" GROUP BY ");
    reveal_strlit(" HAVING ");
    reveal_strlit(" ORDER BY ");
    reveal_strlit(" LIMIT ");
    reveal_strlit(" OFFSET ");
    reveal_strlit(" RETURNING ");
    reveal_strlit("INSERT INTO ");
    reveal_strlit(" (");
    reveal_strlit(") VALUES (");
    reveal_strlit(")");
    reveal_strlit("UPDATE ");
    reveal_strlit(" SET ");
    reveal_strlit(" = ");
    reveal_strlit("DELETE FROM ");
    reveal_with_fuel(count_char, 16);
}

proof fn lemma_decimal_no_qmark(n: nat)
    ensures
        no_qmark(decimal(n)),
    decreases n,
{
    reveal_with_fuel(count_char, 2);
    if n >= 10 {
        lemma_decimal_no_qmark(n / 10);
        assert(decimal(n).drop_last() =~= decimal(n / 10));
    }
}

proof fn lemma_optional_list_none(keyword: Seq<char>, items: Seq<Seq<char>>)
    requires
        no_qmark(keyword),
        none_hold_qmark(items),
    ensures
        no_qmark(optional_list(keyword, items)),
{
    lemma_statement_words();
    if items.len() > 0 {
        lemma_join_none(items, comma());
        lemma_count_char_concat(keyword, join(items, comma()), '?');
    } else {
        assert(count_char(Seq::<char>::empty(), '?') == 0);
    }
}

proof fn lemma_joins_none(js: Seq<JoinView>)
    requires
        forall|i: int| 0 <= i < js.len() ==> #[trigger] no_qmark(js[i].table) && no_qmark(js[i].on_condition),
    ensures
        no_qmark(joins_text(js)),
    decreases js.len(),
{
    lemma_statement_words();
    if js.len() == 0 {
        assert(count_char(Seq::<char>::empty(), '?') == 0);
    } else {
        lemma_joins_none(js.drop_last());
        let j = js.last();
        assert(no_qmark(js[js.len() - 1].table));
        let kind = match j.join_type {
            JoinType::Inner => seq!['I', 'N', 'N', 'E', 'R', ' ', 'J', 'O', 'I', 'N'],
            JoinType::Left => seq!['L', 'E', 'F', 'T', ' ', 'J', 'O', 'I', 'N'],
            JoinType::Right => seq!['R', 'I', 'G', 'H', 'T', ' ', 'J', 'O', 'I', 'N'],
            JoinType::Full => seq!['F', 'U', 'L', 'L', ' ', 'O', 'U', 'T', 'E', 'R', ' ', 'J', 'O', 'I', 'N'],
        };
        assert(join_text(j) == seq![' '] + kind + seq![' '] + j.table + seq![' ', 'O', 'N', ' '] + j.on_condition);
        lemma_count_char_concat(seq![' '], kind, '?');
        lemma_count_char_concat(seq![' '] + kind, seq![' '], '?');
        lemma_count_char_concat(seq![' '] + kind + seq![' '], j.table, '?');
        lemma_count_char_concat(seq![' '] + kind + seq![' '] + j.table, seq![' ', 'O', 'N', ' '], '?');
        lemma_count_char_concat(seq![' '] + kind + seq![' '] + j.table + seq![' ', 'O', 'N', ' '], j.on_condition, '?');
        lemma_count_char_concat(joins_text(js.drop_last()), join_text(j), '?');
    }
}

proof fn lemma_orders_none(os: Seq<OrderView>)
    requires
        forall|i: int| 0 <= i < os.len() ==> #[trigger] no_qmark(os[i].field),
    ensures
        none_hold_qmark(os.map_values(|o: OrderView| order_text(o))),
{
    lemma_statement_words();
    let texts = os.map_values(|o: OrderView| order_text(o));
    assert forall|i: int| 0 <= i < texts.len() implies #[trigger] no_qmark(texts[i]) by {
        assert(no_qmark(os[i].field));
        assert(texts[i] == order_text(os[i]));
        lemma_count_char_concat(os[i].field, seq![' ', 'A', 'S', 'C'], '?');
        lemma_count_char_concat(os[i].field, seq![' ', 'D', 'E', 'S', 'C'], '?');
    }
}

proof fn lemma_non_null_keys_none(vs: Seq<(Seq<char>, Value)>)
    requires
        forall|i: int| 0 <= i < vs.len() ==> #[trigger] no_qmark(vs[i].0),
    ensures
        forall|i: int| 0 <= i < non_null_entries(vs).len() ==> #[trigger] no_qmark(non_null_entries(vs)[i].0),
    decreases vs.len(),
{
    if vs.len() > 0 {
        let prev = vs.drop_last();
        assert forall|i: int| 0 <= i < prev.len() implies #[trigger] no_qmark(prev[i].0) by {
            assert(prev[i] == vs[i]);
        }
        lemma_non_null_keys_none(prev);
        assert(no_qmark(vs[vs.len() - 1].0));
        let nn = non_null_entries(vs);
        let pn = non_null_entries(prev);
        assert forall|i: int| 0 <= i < nn.len() implies #[trigger] no_qmark(nn[i].0) by {
            if i < pn.len() {
                assert(nn[i] == pn[i]);
            } else {
                assert(nn[i] == vs.last());
            }
        }
    }
}

proof fn lemma_qmarks_count(n: nat)
    ensures
        parts_count(qmarks(n), '?') == n,
    decreases n,
{
    lemma_words_hold_no_qmark();
    if n > 0 {
        lemma_qmarks_count((n - 1) as nat);
        assert(qmarks(n).drop_last() =~= qmarks((n - 1) as nat));
    }
}

proof fn lemma_sets_count(nn: Seq<(Seq<char>, Value)>)
    requires
        forall|i: int| 0 <= i < nn.len() ==> #[trigger] no_qmark(nn[i].0),
    ensures
        parts_count(nn.map_values(|e: (Seq<char>, Value)| e.0 + " = "@ + qmark()), '?') == nn.len(),
    decreases nn.len(),
{
    if nn.len() > 0 {
        lemma_sets_count(nn.drop_last());
        assert(nn.map_values(|e: (Seq<char>, Value)| e.0 + " = "@ + qmark()).drop_last()
            =~= nn.drop_last().map_values(|e: (Seq<char>, Value)| e.0 + " = "@ + qmark()));
        lemma_statement_words();
        assert(no_qmark(nn[nn.len() - 1].0));
        lemma_field_word_qmark(nn.last().0, " = "@);
    }
}

proof fn lemma_cc(a: Seq<char>, b: Seq<char>)
    ensures
        count_char(a + b, '?') == count_char(a, '?') + count_char(b, '?'),
{
    lemma_count_char_concat(a, b, '?');
}

proof fn lemma_select_placeholders(b: SqliteBuilderView, models: Seq<ModelView>, table: Seq<char>, alias: Seq<char>)
    requires
        written_texts_hold_no_qmark(b, table),
    ensures
        select_statement(b, models, table, alias) matches Ok((sql, ps)) ==> count_char(sql, '?') == ps.len(),
{
    if let Ok((sql, ps)) = select_statement(b, models, table, alias) {
        lemma_statement_words();
        let fields = if b.fields.len() == 0 { seq!['*'] } else { join(b.fields, comma()) };
        if b.fields.len() > 0 {
            lemma_join_none(b.fields, comma());
        }
        lemma_joins_none(b.joins);
        lemma_cc("SELECT "@, fields);
        lemma_cc("SELECT "@ + fields, " FROM "@);
        lemma_cc("SELECT "@ + fields + " FROM "@, table);
        lemma_cc("SELECT "@ + fields + " FROM "@ + table, joins_text(b.joins));
        let head = "SELECT "@ + fields + " FROM "@ + table + joins_text(b.joins);
        assert(no_qmark(head));
        law_groups_where_clause_placeholders(models, table, alias, b.groups);
        law_where_clause_placeholders(models, table, alias, b.conditions);
        law_where_clause_placeholders(models, table, alias, b.having);
        let w = if b.groups.len() > 0 {
            groups_where_clause(models, table, alias, b.groups)
        } else if b.conditions.len() > 0 {
            where_clause(models, table, alias, b.conditions)
        } else {
            Ok((Seq::empty(), Seq::empty()))
        };
        let (wc, wp) = w->Ok_0;
        assert(count_char(wc, '?') == wp.len()) by {
            if !(b.groups.len() > 0 || b.conditions.len() > 0) {
                assert(count_char(Seq::<char>::empty(), '?') == 0);
            }
        }
        lemma_cc(head, " WHERE "@);
        lemma_cc(head + " WHERE "@, wc);
        let with_where = if b.groups.len() > 0 || b.conditions.len() > 0 { head + " WHERE "@ + wc } else { head };
        assert(count_char(with_where, '?') == wp.len());
        lemma_optional_list_none(" GROUP BY "@, b.group_by);
        lemma_cc(with_where, optional_list(" GROUP BY "@, b.group_by));
        let with_group = with_where + optional_list(" GROUP BY "@, b.group_by);
        let h = if b.having.len() > 0 {
            where_clause(models, table, alias, b.having)
        } else {
            Ok((Seq::empty(), Seq::empty()))
        };
        let (hc, hp) = h->Ok_0;
        assert(count_char(hc, '?') == hp.len()) by {
            if b.having.len() == 0 {
                assert(count_char(Seq::<char>::empty(), '?') == 0);
            }
        }
        lemma_cc(with_group, " HAVING "@);
        lemma_cc(with_group + " HAVING "@, hc);
        let with_having = if b.having.len() > 0 { with_group + " HAVING "@ + hc } else { with_group };
        let orders = b.order_by.map_values(|o: OrderView| order_text(o));
        lemma_orders_none(b.order_by);
        lemma_optional_list_none(" ORDER BY "@, orders);
        lemma_cc(with_having, optional_list(" ORDER BY "@, orders));
        let with_order = with_having + optional_list(" ORDER BY "@, orders);
        assert(count_char(with_order, '?') == wp.len() + hp.len());
        if let Some(l) = b.limit {
            lemma_decimal_no_qmark(l as nat);
            lemma_cc(with_order, " LIMIT "@);
            lemma_cc(with_order + " LIMIT "@, decimal(l as nat));
        }
        let with_limit = match b.limit { Some(l) => with_order + " LIMIT "@ + decimal(l as nat), None => with_order };
        if let Some(o) = b.offset {
            lemma_decimal_no_qmark(o as nat);
            lemma_cc(with_limit, " OFFSET "@);
            lemma_cc(with_limit + " OFFSET "@, decimal(o as nat));
        }
    }
}

proof fn lemma_insert_placeholders(b: SqliteBuilderView, table: Seq<char>)
    requires
        written_texts_hold_no_qmark(b, table),
    ensures
        insert_statement(b, table) matches Ok((sql, ps)) ==> count_char(sql, '?') == ps.len(),
{
    if let Ok((sql, ps)) = insert_statement(b, table) {
        lemma_statement_words();
        let nn = non_null_entries(b.values);
        lemma_non_null_keys_none(b.values);
        let cols = nn.map_values(|e: (Seq<char>, Value)| e.0);
        assert forall|i: int| 0 <= i < cols.len() implies #[trigger] no_qmark(cols[i]) by {
            assert(no_qmark(nn[i].0));
        }
        lemma_join_none(cols, comma());
        lemma_qmarks_count(nn.len());
        lemma_count_join(qmarks(nn.len()), comma(), '?');
        lemma_optional_list_none(" RETURNING "@, b.returning);
        let a0 = "INSERT INTO "@ + table;
        lemma_cc("INSERT INTO "@, table);
        lemma_cc(a0, " ("@);
        lemma_cc(a0 + " ("@, join(cols, comma()));
        let a1 = a0 + " ("@ + join(cols, comma());
        lemma_cc(a1, ") VALUES ("@);
        lemma_cc(a1 + ") VALUES ("@, join(qmarks(nn.len()), comma()));
        let a2 = a1 + ") VALUES ("@ + join(qmarks(nn.len()), comma());
        lemma_cc(a2, ")"@);
        lemma_cc(a2 + ")"@, optional_list(" RETURNING "@, b.returning));
    }
}

proof fn lemma_update_placeholders(b: SqliteBuilderView, models: Seq<ModelView>, table: Seq<char>, alias: Seq<char>)
    requires
        written_texts_hold_no_qmark(b, table),
    ensures
        update_statement(b, models, table, alias) matches Ok((sql, ps)) ==> count_char(sql, '?') == ps.len(),
{
    if let Ok((sql, ps)) = update_statement(b, models, table, alias) {
        lemma_statement_words();
        let nn = non_null_entries(b.values);
        lemma_non_null_keys_none(b.values);
        let sets = nn.map_values(|e: (Seq<char>, Value)| e.0 + " = "@ + qmark());
        lemma_sets_count(nn);
        lemma_count_join(sets, comma(), '?');
        lemma_cc("UPDATE "@, table);
        lemma_cc("UPDATE "@ + table, " SET "@);
        lemma_cc("UPDATE "@ + table + " SET "@, join(sets, comma()));
        let head = "UPDATE "@ + table + " SET "@ + join(sets, comma());
        assert(count_char(head, '?') == nn.len());
        law_where_clause_placeholders(models, table, alias, b.conditions);
        law_groups_where_clause_placeholders(models, table, alias, b.groups);
        lemma_optional_list_none(" RETURNING "@, b.returning);
        if b.groups.len() > 0 {
            let (wc, wp) = groups_where_clause(models, table, alias, b.groups)->Ok_0;
            lemma_cc(head, " WHERE "@);
            lemma_cc(head + " WHERE "@, wc);
            lemma_cc(head + " WHERE "@ + wc, optional_list(" RETURNING "@, b.returning));
        } else if b.conditions.len() > 0 {
            let (wc, wp) = where_clause(models, table, alias, b.conditions)->Ok_0;
            lemma_cc(head, " WHERE "@);
            lemma_cc(head + " WHERE "@, wc);
            lemma_cc(head + " WHERE "@ + wc, optional_list(" RETURNING "@, b.returning));
        } else {
            lemma_cc(head, optional_list(" RETURNING "@, b.returning));
        }
    }
}

proof fn lemma_delete_placeholders(b: SqliteBuilderView, models: Seq<ModelView>, table: Seq<char>, alias: Seq<char>)
    requires
        written_texts_hold_no_qmark(b, table),
    ensures
        delete_statement(b, models, table, alias) matches Ok((sql, ps)) ==> count_char(sql, '?') == ps.len(),
{
    if let Ok((sql, ps)) = delete_statement(b, models, table, alias) {
        lemma_statement_words();
        lemma_cc("DELETE FROM "@, table);
        let head = "DELETE FROM "@ + table;
        law_where_clause_placeholders(models, table, alias, b.conditions);
        law_groups_where_clause_placeholders(models, table, alias, b.groups);
        lemma_optional_list_none(" RETURNING "@, b.returning);
        if b.groups.len() > 0 {
            let (wc, wp) = groups_where_clause(models, table, alias, b.groups)->Ok_0;
            lemma_cc(head, " WHERE "@);
            lemma_cc(head + " WHERE "@, wc);
            lemma_cc(head + " WHERE "@ + wc, optional_list(" RETURNING "@, b.returning));
        } else if b.conditions.len() > 0 {
            let (wc, wp) = where_clause(models, table, alias, b.conditions)->Ok_0;
            lemma_cc(head, " WHERE "@);
            lemma_cc(head + " WHERE "@, wc);
            lemma_cc(head + " WHERE "@ + wc, optional_list(" RETURNING "@, b.returning));
        } else {
            lemma_cc(head, optional_list(" RETURNING "@, b.returning));
        }
    }
}

/// A statement that the builder makes holds exactly one `?` for each of
/// its parameters, when the texts it writes as they stand hold none.
pub proof fn law_statement_placeholders(b: SqliteBuilderView, models: Seq<ModelView>, table: Seq<char>, alias: Seq<char>)
    requires
        written_texts_hold_no_qmark(b, table),
    ensures
        statement(b, models, table, alias) matches Ok((sql, ps)) ==> count_char(sql, '?') == ps.len(),
{
    lemma_select_placeholders(b, models, table, alias);
    lemma_insert_placeholders(b, table);
    lemma_update_placeholders(b, models, table, alias);
    lemma_delete_placeholders(b, models, table, alias);
}

/// An INSERT binds no null value, and an UPDATE sets no column to null:
/// null values are left out.
pub proof fn law_writes_bind_no_null(b: SqliteBuilderView, models: Seq<ModelView>, table: Seq<char>, alias: Seq<char>)
    ensures
        insert_statement(b, table) matches Ok((s, ps)) ==> forall|i: int| 0 <= i < ps.len() ==> !((#[trigger] ps[i]) is Null),
        update_statement(b, models, table, alias) matches Ok((s, ps)) ==> {
            &&& non_null_entries(b.values).len() <= ps.len()
            &&& forall|i: int| 0 <= i < non_null_entries(b.values).len() ==> !((#[trigger] ps[i]) is Null)
        },
{
    crate::query_builder::lemma_non_null_entries_hold_no_null(b.values);
    let nn = non_null_entries(b.values);
    let vals = nn.map_values(|e: (Seq<char>, Value)| e.1);
    assert forall|i: int| 0 <= i < vals.len() implies !((#[trigger] vals[i]) is Null) by {
        assert(!(nn[i].1 is Null));
    }
    if let Ok((s, ps)) = update_statement(b, models, table, alias) {
        assert forall|i: int| 0 <= i < nn.len() implies !((#[trigger] ps[i]) is Null) by {
            assert(ps[i] == vals[i]);
        }
    }
}

/// The UPDATE statement of a list of operations on `table` (see
/// `crate::update_operations::operations_statement`), its WHERE clause
/// that of the SQLite conditions.
pub open spec fn operations_statement(
    models: Seq<ModelView>,
    table: Seq<char>,
    alias: Seq<char>,
    conditions: Seq<Condition>,
    ops: Seq<OperationView>,
) -> Result<(Seq<char>, Seq<Value>), ErrorKind> {
    if ops.len() == 0 {
        Err(ErrorKind::Validation { field: "operations"@ })
    } else {
        let head = "UPDATE "@ + table + " SET "@ + join(operation_items(DatabaseType::SQLite, ops), comma());
        let vals = ops.map_values(|o: OperationView| o.value);
        if conditions.len() == 0 {
            Ok((head, vals))
        } else {
            match where_clause(models, table, alias, conditions) {
                Err(e) => Err(e),
                Ok((w, wp)) => Ok((head + " WHERE "@ + w, vals + wp)),
            }
        }
    }
}

/// The UPDATE statement of a list of operations on `table` (see
/// `operations_statement`).
pub fn build_update_with_operations(
    models: &ModelRegistry,
    table: &str,
    alias: &str,
    conditions: &[QueryConditionWithConfig],
    operations: &[UpdateOperation],
) -> (r: Result<(String, Vec<DataValue>), QuickDbError>)
    ensures
        clause_matches(r, operations_statement(models@, table@, alias@, config_conditions_model(conditions@), operations_model(operations@))),
{
    if operations.len() == 0 {
        return Err(validation_error("operations", "更新操作不能为空"));
    }
    let (items, mut params) = operation_set_items(DatabaseType::SQLite, operations);
    proof { reveal_strlit(", "); }
    assert(", "@ =~= comma());
    let mut sql = String::new();
    sql.append("UPDATE ");
    sql.append(table);
    sql.append(" SET ");
    let set = crate::text::join_strings(&items, ", ");
    sql.append(set.as_str());
    if conditions.len() > 0 {
        match build_where_clause(models, table, alias, conditions) {
            Err(e) => return Err(e),
            Ok((w, wp)) => {
                sql.append(" WHERE ");
                sql.append(w.as_str());
                append_values(&mut params, wp);
            }
        }
    }
    Ok((sql, params))
}

/// A range value that already has its field's type is bound unchanged:
/// a float on a float or double field, an integer on an integer or big
/// integer field. An integer on a float field is bound as that float, a
/// date-time on a date-time field as its Unix seconds, and any value on
/// a field of a kind with no conversion keeps its value. An unregistered
/// field is refused with a validation error about it.
pub proof fn law_range_values_of_their_type(
    models: Seq<ModelView>,
    table: Seq<char>,
    alias: Seq<char>,
    field: Seq<char>,
    v: Value,
)
    ensures
        field_kind(models, table, alias, field) matches Some(k) && (k is Float || k is Double) && v is Float
            ==> range_value(models, table, alias, field, v) == Ok::<Value, ErrorKind>(v),
        field_kind(models, table, alias, field) matches Some(k) && (k is Integer || k is BigInteger) && v is Int
            ==> range_value(models, table, alias, field, v) == Ok::<Value, ErrorKind>(v),
        field_kind(models, table, alias, field) matches Some(k) && (k is Float || k is Double) && v is Int
            ==> range_value(models, table, alias, field, v) == Ok::<Value, ErrorKind>(Value::Float(signed_decimal(v->Int_0 as int))),
        field_kind(models, table, alias, field) matches Some(k) && (k is DateTime || k is DateTimeWithTz) && v is DateTime
            ==> range_value(models, table, alias, field, v) == Ok::<Value, ErrorKind>(Value::Int(v->DateTime_0.seconds)),
        field_kind(models, table, alias, field) matches Some(k) && (k is DateTime || k is DateTimeWithTz) && v is DateTimeUTC
            ==> range_value(models, table, alias, field, v) == Ok::<Value, ErrorKind>(Value::Int(v->DateTimeUTC_0.seconds)),
        field_kind(models, table, alias, field) matches Some(k) && !(k is Float || k is Double || k is Integer || k is BigInteger
            || k is DateTime || k is DateTimeWithTz) ==> range_value(models, table, alias, field, v) == Ok::<Value, ErrorKind>(v),
        field_kind(models, table, alias, field) is None
            ==> range_value(models, table, alias, field, v) == Err::<Value, ErrorKind>(ErrorKind::Validation { field }),
{
}

/// A condition on a safe field name `f` in an SQLite tree: equality and
/// inequality are `f = ?` and `f != ?` binding the value; a range
/// comparison is `f > ?`, `f >= ?`, `f < ?` or `f <= ?` binding the
/// field's range value; StartsWith and EndsWith are `f LIKE ?` binding
/// `s%` and `%s`; IsNull is `f IS NULL`; Regex is `f REGEXP ?`.
pub proof fn law_sqlite_condition_clauses(models: Seq<ModelView>, table: Seq<char>, alias: Seq<char>, c: Condition)
    requires
        safe_identifier(c.field),
    ensures
        c.operator == QueryOperator::Eq ==> condition_clause(models, table, alias, c)
            == Ok::<(Seq<char>, Seq<Value>), ErrorKind>((c.field + seq![' ', '=', ' ', '?'], seq![c.value])),
        c.operator == QueryOperator::Ne ==> condition_clause(models, table, alias, c)
            == Ok::<(Seq<char>, Seq<Value>), ErrorKind>((c.field + seq![' ', '!', '=', ' ', '?'], seq![c.value])),
        c.operator == QueryOperator::Gt ==> condition_clause(models, table, alias, c) == match range_value(models, table, alias, c.field, c.value) {
            Ok(p) => Ok((c.field + seq![' ', '>', ' ', '?'], seq![p])),
            Err(e) => Err(e),
        },
        c.operator == QueryOperator::Gte ==> condition_clause(models, table, alias, c) == match range_value(models, table, alias, c.field, c.value) {
            Ok(p) => Ok((c.field + seq![' ', '>', '=', ' ', '?'], seq![p])),
            Err(e) => Err(e),
        },
        c.operator == QueryOperator::Lt ==> condition_clause(models, table, alias, c) == match range_value(models, table, alias, c.field, c.value) {
            Ok(p) => Ok((c.field + seq![' ', '<', ' ', '?'], seq![p])),
            Err(e) => Err(e),
        },
        c.operator == QueryOperator::Lte ==> condition_clause(models, table, alias, c) == match range_value(models, table, alias, c.field, c.value) {
            Ok(p) => Ok((c.field + seq![' ', '<', '=', ' ', '?'], seq![p])),
            Err(e) => Err(e),
        },
        c.operator == QueryOperator::StartsWith && c.value is Str ==> condition_clause(models, table, alias, c)
            == Ok::<(Seq<char>, Seq<Value>), ErrorKind>((
                c.field + seq![' ', 'L', 'I', 'K', 'E', ' ', '?'],
                seq![Value::Str(c.value->Str_0 + seq!['%'])],
            )),
        c.operator == QueryOperator::EndsWith && c.value is Str ==> condition_clause(models, table, alias, c)
            == Ok::<(Seq<char>, Seq<Value>), ErrorKind>((
                c.field + seq![' ', 'L', 'I', 'K', 'E', ' ', '?'],
                seq![Value::Str(seq!['%'] + c.value->Str_0)],
            )),
        c.operator == QueryOperator::IsNull ==> condition_clause(models, table, alias, c)
            == Ok::<(Seq<char>, Seq<Value>), ErrorKind>((c.field + seq![' ', 'I', 'S', ' ', 'N', 'U', 'L', 'L'], Seq::empty())),
        c.operator == QueryOperator::Regex ==> condition_clause(models, table, alias, c)
            == Ok::<(Seq<char>, Seq<Value>), ErrorKind>((c.field + seq![' ', 'R', 'E', 'G', 'E', 'X', 'P', ' ', '?'], seq![c.value])),
{
    let f = c.field;
    assert(f + comparison_word(c.operator) + qmark() =~= f + (comparison_word(c.operator) + qmark()));
    assert(f + like_word() + qmark() =~= f + seq![' ', 'L', 'I', 'K', 'E', ' ', '?']);
    assert(f + regexp_word() + qmark() =~= f + seq![' ', 'R', 'E', 'G', 'E', 'X', 'P', ' ', '?']);
    assert(comparison_word(QueryOperator::Eq) + qmark() =~= seq![' ', '=', ' ', '?']);
    assert(comparison_word(QueryOperator::Ne) + qmark() =~= seq![' ', '!', '=', ' ', '?']);
    assert(comparison_word(QueryOperator::Gt) + qmark() =~= seq![' ', '>', ' ', '?']);
    assert(comparison_word(QueryOperator::Gte) + qmark() =~= seq![' ', '>', '=', ' ', '?']);
    assert(comparison_word(QueryOperator::Lt) + qmark() =~= seq![' ', '<', ' ', '?']);
    assert(comparison_word(QueryOperator::Lte) + qmark() =~= seq![' ', '<', '=', ' ', '?']);
    if let Value::Str(t) = c.value {
        assert(seq!['%'] + t + Seq::<char>::empty() =~= seq!['%'] + t);
        assert(Seq::<char>::empty() + t + seq!['%'] =~= t + seq!['%']);
    }
}

/// An IN search of an array field for one item is `f LIKE ?`; for more
/// it is `(f LIKE ? OR f LIKE ? ...)`, one test per item, so a row
/// matches when its array holds any of them.
pub proof fn law_in_clause(f: Seq<char>, n: nat)
    ensures
        n == 1 ==> in_clause(f, n) == f + seq![' ', 'L', 'I', 'K', 'E', ' ', '?'],
        n == 2 ==> in_clause(f, n) == seq!['('] + f + seq![' ', 'L', 'I', 'K', 'E', ' ', '?', ' ', 'O', 'R', ' '] + f
            + seq![' ', 'L', 'I', 'K', 'E', ' ', '?', ')'],
{
    let item = f + like_word() + qmark();
    assert(item =~= f + seq![' ', 'L', 'I', 'K', 'E', ' ', '?']);
    if n == 2 {
        let cl = like_clauses(f, 2);
        assert(cl.drop_last() =~= seq![item]);
        assert(cl.last() == item);
        assert(join(cl.drop_last(), crate::query_builder::or_word()) == item);
        assert(in_clause(f, n) =~= seq!['('] + f + seq![' ', 'L', 'I', 'K', 'E', ' ', '?', ' ', 'O', 'R', ' '] + f
            + seq![' ', 'L', 'I', 'K', 'E', ' ', '?', ')']);
    }
}

} // verus!
