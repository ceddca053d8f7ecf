//! Stored procedures of the document store: the aggregation pipeline a
//! procedure runs, written as JSON over its main collection, and the
//! pipeline a stored template yields once its placeholder stages are
//! dropped.

use vstd::prelude::*;
use crate::error::{QuickDbError, ErrorKind, validation_error};
use crate::json::{pretty_json, pretty_json_text, json_reading, read_json, json_string_value, read_json_string, json_array_items, read_json_array};
use crate::procedures::{ProcedureJoinView, ProcedureView, StoredProcedureConfig, dependencies_key};
use crate::render::{display_text, json_text, push_display, push_json};
use crate::types::{DataValue, SortDirection, Value};

verus! {

/// A condition of a pipeline's `$match` or `$cond`.
#[derive(Debug)]
pub enum MongoCondition {
    Eq { field: String, value: DataValue },
    Ne { field: String, value: DataValue },
    Gt { field: String, value: DataValue },
    Gte { field: String, value: DataValue },
    Lt { field: String, value: DataValue },
    Lte { field: String, value: DataValue },
    In { field: String, values: Vec<DataValue> },
    And { conditions: Vec<MongoCondition> },
    Or { conditions: Vec<MongoCondition> },
    Exists { field: String, exists: bool },
    Regex { field: String, pattern: String },
}

/// An aggregate over a field, or a choice between expressions.
#[derive(Debug)]
pub enum MongoAggregateExpression {
    Size { field: String },
    Sum { field: String },
    Avg { field: String },
    Max { field: String },
    Min { field: String },
    IfNull { field: String, default: Box<MongoFieldExpression> },
    Condition { if_condition: MongoCondition, then_expr: Box<MongoFieldExpression>, else_expr: Box<MongoFieldExpression> },
}

/// The value of an output field: another field, a constant, or an
/// aggregate.
#[derive(Debug)]
pub enum MongoFieldExpression {
    Field(String),
    Constant(DataValue),
    Aggregate(Box<MongoAggregateExpression>),
}

/// What a `$group` stage groups by.
#[derive(Debug)]
pub enum MongoGroupKey {
    Field(String),
    Null,
    Multiple(Vec<String>),
}

/// What a `$group` stage accumulates.
#[derive(Debug)]
pub enum MongoAccumulator {
    Count,
    Sum { field: String },
    Avg { field: String },
    Max { field: String },
    Min { field: String },
    Push { field: String },
    AddToSet { field: String },
}

/// One stage of an aggregation pipeline.
#[derive(Debug)]
#[allow(inconsistent_fields)]
pub enum MongoAggregationOperation {
    Project { fields: Vec<(String, MongoFieldExpression)> },
    Match { conditions: Vec<MongoCondition> },
    Lookup { from: String, local_field: String, foreign_field: String, as_field: String },
    Unwind { field: String },
    Group { id: MongoGroupKey, accumulators: Vec<(String, MongoAccumulator)> },
    Sort { fields: Vec<(String, SortDirection)> },
    Limit { count: u64 },
    Skip { count: u64 },
    AddFields { fields: Vec<(String, MongoFieldExpression)> },
    Count { field: String },
    Placeholder { placeholder_type: String },
}

/// A JSON object with one member.
pub open spec fn member(key: Seq<char>, v: Value) -> Value {
    Value::Object(seq![(key, v)])
}

/// A reference to a field in a pipeline expression: `$` and its name.
pub open spec fn field_path(f: Seq<char>) -> Value {
    Value::Str("$"@ + f)
}

/// The JSON of a value in a condition: strings, integers, floats,
/// booleans and null as they are, arrays and objects item by item, and
/// anything else as its display text.
pub open spec fn value_json(v: Value) -> Value
    decreases v,
{
    match v {
        Value::Str(_) => v,
        Value::Int(_) => v,
        Value::Float(_) => v,
        Value::Bool(_) => v,
        Value::Null => v,
        Value::Array(items) => Value::Array(
            Seq::new(items.len(), |k: int| if 0 <= k < items.len() { value_json(items[k]) } else { Value::Null }),
        ),
        Value::Object(es) => Value::Object(
            Seq::new(es.len(), |k: int| if 0 <= k < es.len() { (es[k].0, value_json(es[k].1)) } else { (Seq::empty(), Value::Null) }),
        ),
        _ => Value::Str(display_text(v)),
    }
}

/// The JSON of a constant expression: strings, integers, floats, booleans
/// and null as they are, anything else as its display text.
pub open spec fn constant_json(v: Value) -> Value {
    match v {
        Value::Str(_) => v,
        Value::Int(_) => v,
        Value::Float(_) => v,
        Value::Bool(_) => v,
        Value::Null => v,
        _ => Value::Str(display_text(v)),
    }
}

/// A JSON object with one member, built.
pub fn object_of(key: &str, v: DataValue) -> (r: DataValue)
    ensures
        r@ == member(key@, v@),
{
    let ghost vm = v@;
    let mut es: Vec<(String, DataValue)> = Vec::new();
    es.push((key.to_owned(), v));
    let r = DataValue::Object(es);
    assert(r@->Object_0 =~= seq![(key@, vm)]);
    r
}

/// A field reference, built.
pub fn path_of(f: &str) -> (r: DataValue)
    ensures
        r@ == field_path(f@),
{
    let mut s = String::new();
    s.append("$");
    s.append(f);
    assert(s@ =~= "$"@ + f@);
    DataValue::String(s)
}

/// The JSON of a value in a condition (see `value_json`).
#[verifier::loop_isolation(false)]
pub fn value_to_json(v: &DataValue) -> (r: DataValue)
    ensures
        r@ == value_json(v@),
    decreases v,
{
    match v {
        DataValue::String(s) => DataValue::String(s.clone()),
        DataValue::Int(i) => DataValue::Int(*i),
        DataValue::Float(t) => DataValue::Float(t.clone()),
        DataValue::Bool(b) => DataValue::Bool(*b),
        DataValue::Null => DataValue::Null,
        DataValue::Array(items) => {
            let ghost want = value_json(v@)->Array_0;
            let mut out: Vec<DataValue> = Vec::new();
            let mut i: usize = 0;
            while i < items.len()
                invariant
                    i <= items.len(),
                    out@.len() == i,
                    forall|j: int| 0 <= j < i ==> #[trigger] out@[j]@ == value_json(items@[j]@),
                decreases items.len() - i,
            {
                proof {
                    assert(decreases_to!(items@ => items@[i as int]));
                }
                let c = value_to_json(&items[i]);
                out.push(c);
                i = i + 1;
            }
            let r = DataValue::Array(out);
            assert(v@->Array_0.len() == items@.len());
            assert(forall|k: int| 0 <= k < items@.len() ==> v@->Array_0[k] == items@[k]@);
            assert(forall|k: int| 0 <= k < out@.len() ==> r@->Array_0[k] == out@[k]@);
            assert(r@->Array_0 =~= want);
            r
        }
        DataValue::Object(es) => {
            let ghost want = value_json(v@)->Object_0;
            let mut out: Vec<(String, DataValue)> = Vec::new();
            let mut i: usize = 0;
            while i < es.len()
                invariant
                    i <= es.len(),
                    out@.len() == i,
                    forall|j: int| 0 <= j < i ==> out@[j].0@ == es@[j].0@ && #[trigger] out@[j].1@ == value_json(es@[j].1@),
                decreases es.len() - i,
            {
                proof {
                    assert(decreases_to!(es@ => es@[i as int]));
                    assert(decreases_to!(es@[i as int] => es@[i as int].1));
                }
                let k = es[i].0.clone();
                let c = value_to_json(&es[i].1);
                out.push((k, c));
                i = i + 1;
            }
            let r = DataValue::Object(out);
            assert(v@->Object_0.len() == es@.len());
            assert(forall|k: int| 0 <= k < es@.len() ==> v@->Object_0[k] == (es@[k].0@, es@[k].1@));
            assert(forall|k: int| 0 <= k < out@.len() ==> r@->Object_0[k] == (out@[k].0@, out@[k].1@));
            assert(r@->Object_0 =~= want);
            r
        }
        _ => {
            let mut t = String::new();
            push_display(&mut t, v);
            DataValue::String(t)
        }
    }
}

/// The JSON of a constant expression (see `constant_json`).
pub fn constant_to_json(v: &DataValue) -> (r: DataValue)
    ensures
        r@ == constant_json(v@),
{
    match v {
        DataValue::String(s) => DataValue::String(s.clone()),
        DataValue::Int(i) => DataValue::Int(*i),
        DataValue::Float(t) => DataValue::Float(t.clone()),
        DataValue::Bool(b) => DataValue::Bool(*b),
        DataValue::Null => DataValue::Null,
        _ => {
            let mut t = String::new();
            push_display(&mut t, v);
            DataValue::String(t)
        }
    }
}

/// A comparison of a field with a value: `{field: {op: value}}`.
pub open spec fn comparison(field: Seq<char>, op: Seq<char>, v: Value) -> Value {
    member(field, member(op, value_json(v)))
}

/// The JSON of a condition: `{field: value}` for equality, `{field: {op:
/// value}}` for the other comparisons (`$ne`, `$gt`, `$gte`, `$lt`,
/// `$lte`, `$in` with the values as an array, `$exists`, `$regex`), and
/// `{"$and": [..]}` / `{"$or": [..]}` over the nested conditions.
pub open spec fn condition_json(c: MongoCondition) -> Value
    decreases c,
{
    match c {
        MongoCondition::Eq { field, value } => member(field@, value_json(value@)),
        MongoCondition::Ne { field, value } => comparison(field@, "$ne"@, value@),
        MongoCondition::Gt { field, value } => comparison(field@, "$gt"@, value@),
        MongoCondition::Gte { field, value } => comparison(field@, "$gte"@, value@),
        MongoCondition::Lt { field, value } => comparison(field@, "$lt"@, value@),
        MongoCondition::Lte { field, value } => comparison(field@, "$lte"@, value@),
        MongoCondition::In { field, values } => member(
            field@,
            member("$in"@, Value::Array(Seq::new(values@.len(), |k: int| value_json(values@[k]@)))),
        ),
        MongoCondition::And { conditions } => member(
            "$and"@,
            Value::Array(
                Seq::new(conditions@.len(), |k: int| if 0 <= k < conditions@.len() { condition_json(conditions@[k]) } else { Value::Null }),
            ),
        ),
        MongoCondition::Or { conditions } => member(
            "$or"@,
            Value::Array(
                Seq::new(conditions@.len(), |k: int| if 0 <= k < conditions@.len() { condition_json(conditions@[k]) } else { Value::Null }),
            ),
        ),
        MongoCondition::Exists { field, exists } => member(field@, member("$exists"@, Value::Bool(exists))),
        MongoCondition::Regex { field, pattern } => member(field@, member("$regex"@, Value::Str(pattern@))),
    }
}

fn comparison_of(field: &str, op: &str, v: &DataValue) -> (r: DataValue)
    ensures
        r@ == comparison(field@, op@, v@),
{
    object_of(field, object_of(op, value_to_json(v)))
}

#[verifier::loop_isolation(false)]
fn conditions_array(conditions: &Vec<MongoCondition>) -> (r: DataValue)
    ensures
        r@ == Value::Array(
            Seq::new(conditions@.len(), |k: int| if 0 <= k < conditions@.len() { condition_json(conditions@[k]) } else { Value::Null }),
        ),
    decreases conditions@, 0int,
{
    let mut out: Vec<DataValue> = Vec::new();
    let mut i: usize = 0;
    while i < conditions.len()
        invariant
            i <= conditions.len(),
            out@.len() == i,
            forall|j: int| 0 <= j < i ==> #[trigger] out@[j]@ == condition_json(conditions@[j]),
        decreases conditions.len() - i,
    {
        proof {
            assert(decreases_to!(conditions@ => conditions@[i as int]));
        }
        let c = condition_to_json(&conditions[i]);
        out.push(c);
        i = i + 1;
    }
    let r = DataValue::Array(out);
    assert(forall|k: int| 0 <= k < out@.len() ==> r@->Array_0[k] == out@[k]@);
    assert(r@->Array_0 =~= Seq::new(
        conditions@.len(),
        |k: int| if 0 <= k < conditions@.len() { condition_json(conditions@[k]) } else { Value::Null },
    ));
    r
}

/// The JSON of a condition (see `condition_json`).
pub fn condition_to_json(c: &MongoCondition) -> (r: DataValue)
    ensures
        r@ == condition_json(*c),
    decreases *c, 1int,
{
    match c {
        MongoCondition::Eq { field, value } => object_of(field.as_str(), value_to_json(value)),
        MongoCondition::Ne { field, value } => comparison_of(field.as_str(), "$ne", value),
        MongoCondition::Gt { field, value } => comparison_of(field.as_str(), "$gt", value),
        MongoCondition::Gte { field, value } => comparison_of(field.as_str(), "$gte", value),
        MongoCondition::Lt { field, value } => comparison_of(field.as_str(), "$lt", value),
        MongoCondition::Lte { field, value } => comparison_of(field.as_str(), "$lte", value),
        MongoCondition::In { field, values } => {
            let mut out: Vec<DataValue> = Vec::new();
            let mut i: usize = 0;
            while i < values.len()
                invariant
                    i <= values.len(),
                    out@.len() == i,
                    forall|j: int| 0 <= j < i ==> #[trigger] out@[j]@ == value_json(values@[j]@),
                decreases values.len() - i,
            {
                out.push(value_to_json(&values[i]));
                i = i + 1;
            }
            let arr = DataValue::Array(out);
            assert(forall|k: int| 0 <= k < out@.len() ==> arr@->Array_0[k] == out@[k]@);
            assert(arr@->Array_0 =~= Seq::new(values@.len(), |k: int| value_json(values@[k]@)));
            let r = object_of(field.as_str(), object_of("$in", arr));
            assert(r@ =~~= condition_json(*c));
            r
        }
        MongoCondition::And { conditions } => {
            proof {
                assert(decreases_to!(*c => *conditions));
                assert(decreases_to!(*conditions => conditions@));
            }
            let a = conditions_array(conditions);
            let ghost want = condition_json(*c)->Object_0[0].1->Array_0;
            assert(want.len() == a@->Array_0.len());
            assert(forall|k: int| 0 <= k < want.len() ==> want[k] == a@->Array_0[k]);
            assert(want =~= a@->Array_0);
            let r = object_of("$and", a);
            assert(r@ =~~= condition_json(*c));
            r
        }
        MongoCondition::Or { conditions } => {
            proof {
                assert(decreases_to!(*c => *conditions));
                assert(decreases_to!(*conditions => conditions@));
            }
            let a = conditions_array(conditions);
            let ghost want = condition_json(*c)->Object_0[0].1->Array_0;
            assert(want.len() == a@->Array_0.len());
            assert(forall|k: int| 0 <= k < want.len() ==> want[k] == a@->Array_0[k]);
            assert(want =~= a@->Array_0);
            let r = object_of("$or", a);
            assert(r@ =~~= condition_json(*c));
            r
        }
        MongoCondition::Exists { field, exists } => object_of(field.as_str(), object_of("$exists", DataValue::Bool(*exists))),
        MongoCondition::Regex { field, pattern } => object_of(
            field.as_str(),
            object_of("$regex", DataValue::String(pattern.clone())),
        ),
    }
}

/// The JSON of an output field's expression: `$field` for a field, the
/// constant's JSON, or the aggregate's JSON.
pub open spec fn expression_json(e: MongoFieldExpression) -> Value
    decreases e, 1int,
{
    match e {
        MongoFieldExpression::Field(f) => field_path(f@),
        MongoFieldExpression::Constant(v) => constant_json(v@),
        MongoFieldExpression::Aggregate(a) => aggregate_json(*a),
    }
}

/// The JSON of an aggregate: `{"$size"|"$sum"|"$avg"|"$max"|"$min":
/// "$field"}`, `{"$ifNull": ["$field", default]}`, or `{"$cond": {"if":
/// .., "then": .., "else": ..}}`.
pub open spec fn aggregate_json(a: MongoAggregateExpression) -> Value
    decreases a, 0int,
{
    match a {
        MongoAggregateExpression::Size { field } => member("$size"@, field_path(field@)),
        MongoAggregateExpression::Sum { field } => member("$sum"@, field_path(field@)),
        MongoAggregateExpression::Avg { field } => member("$avg"@, field_path(field@)),
        MongoAggregateExpression::Max { field } => member("$max"@, field_path(field@)),
        MongoAggregateExpression::Min { field } => member("$min"@, field_path(field@)),
        MongoAggregateExpression::IfNull { field, default } => member(
            "$ifNull"@,
            Value::Array(seq![field_path(field@), expression_json(*default)]),
        ),
        MongoAggregateExpression::Condition { if_condition, then_expr, else_expr } => member(
            "$cond"@,
            Value::Object(
                seq![
                    ("if"@, condition_json(if_condition)),
                    ("then"@, expression_json(*then_expr)),
                    ("else"@, expression_json(*else_expr)),
                ],
            ),
        ),
    }
}

/// The JSON of an output field's expression (see `expression_json`).
pub fn expression_to_json(e: &MongoFieldExpression) -> (r: DataValue)
    ensures
        r@ == expression_json(*e),
    decreases *e, 1int,
{
    match e {
        MongoFieldExpression::Field(f) => path_of(f.as_str()),
        MongoFieldExpression::Constant(v) => constant_to_json(v),
        MongoFieldExpression::Aggregate(a) => aggregate_to_json(a),
    }
}

/// The JSON of an aggregate (see `aggregate_json`).
pub fn aggregate_to_json(a: &MongoAggregateExpression) -> (r: DataValue)
    ensures
        r@ == aggregate_json(*a),
    decreases *a, 0int,
{
    match a {
        MongoAggregateExpression::Size { field } => object_of("$size", path_of(field.as_str())),
        MongoAggregateExpression::Sum { field } => object_of("$sum", path_of(field.as_str())),
        MongoAggregateExpression::Avg { field } => object_of("$avg", path_of(field.as_str())),
        MongoAggregateExpression::Max { field } => object_of("$max", path_of(field.as_str())),
        MongoAggregateExpression::Min { field } => object_of("$min", path_of(field.as_str())),
        MongoAggregateExpression::IfNull { field, default } => {
            let p = path_of(field.as_str());
            let d = expression_to_json(default);
            let ghost (pm, dm) = (p@, d@);
            let mut items: Vec<DataValue> = Vec::new();
            items.push(p);
            items.push(d);
            let arr = DataValue::Array(items);
            assert(arr@->Array_0 =~= seq![pm, dm]);
            object_of("$ifNull", arr)
        }
        MongoAggregateExpression::Condition { if_condition, then_expr, else_expr } => {
            let i = condition_to_json(if_condition);
            let t = expression_to_json(then_expr);
            let e = expression_to_json(else_expr);
            let ghost (im, tm, em) = (i@, t@, e@);
            let mut es: Vec<(String, DataValue)> = Vec::new();
            es.push(("if".to_owned(), i));
            es.push(("then".to_owned(), t));
            es.push(("else".to_owned(), e));
            let obj = DataValue::Object(es);
            assert(obj@->Object_0 =~= seq![("if"@, im), ("then"@, tm), ("else"@, em)]);
            object_of("$cond", obj)
        }
    }
}

/// The JSON of what a `$group` stage groups by: `"$field"`, null, or an
/// object mapping each field to `"$field"`.
pub open spec fn group_key_json(k: MongoGroupKey) -> Value {
    match k {
        MongoGroupKey::Field(f) => field_path(f@),
        MongoGroupKey::Null => Value::Null,
        MongoGroupKey::Multiple(fs) => Value::Object(Seq::new(fs@.len(), |j: int| (fs@[j]@, field_path(fs@[j]@)))),
    }
}

/// The JSON of what a `$group` stage groups by (see `group_key_json`).
pub fn group_key_to_json(k: &MongoGroupKey) -> (r: DataValue)
    ensures
        r@ == group_key_json(*k),
{
    match k {
        MongoGroupKey::Field(f) => path_of(f.as_str()),
        MongoGroupKey::Null => DataValue::Null,
        MongoGroupKey::Multiple(fs) => {
            let mut es: Vec<(String, DataValue)> = Vec::new();
            let mut i: usize = 0;
            while i < fs.len()
                invariant
                    i <= fs.len(),
                    es@.len() == i,
                    forall|j: int| 0 <= j < i ==> #[trigger] es@[j].0@ == fs@[j]@ && es@[j].1@ == field_path(fs@[j]@),
                decreases fs.len() - i,
            {
                es.push((fs[i].clone(), path_of(fs[i].as_str())));
                i = i + 1;
            }
            let r = DataValue::Object(es);
            assert(forall|j: int| 0 <= j < es@.len() ==> r@->Object_0[j] == (es@[j].0@, es@[j].1@));
            assert(r@->Object_0 =~= Seq::new(fs@.len(), |j: int| (fs@[j]@, field_path(fs@[j]@))));
            r
        }
    }
}

/// The JSON of an accumulator: `{"$sum": 1}` for a count, and
/// `{"$sum"|"$avg"|"$max"|"$min"|"$push"|"$addToSet": "$field"}`.
pub open spec fn accumulator_json(a: MongoAccumulator) -> Value {
    match a {
        MongoAccumulator::Count => member("$sum"@, Value::Int(1)),
        MongoAccumulator::Sum { field } => member("$sum"@, field_path(field@)),
        MongoAccumulator::Avg { field } => member("$avg"@, field_path(field@)),
        MongoAccumulator::Max { field } => member("$max"@, field_path(field@)),
        MongoAccumulator::Min { field } => member("$min"@, field_path(field@)),
        MongoAccumulator::Push { field } => member("$push"@, field_path(field@)),
        MongoAccumulator::AddToSet { field } => member("$addToSet"@, field_path(field@)),
    }
}

/// The JSON of an accumulator (see `accumulator_json`).
pub fn accumulator_to_json(a: &MongoAccumulator) -> (r: DataValue)
    ensures
        r@ == accumulator_json(*a),
{
    match a {
        MongoAccumulator::Count => object_of("$sum", DataValue::Int(1)),
        MongoAccumulator::Sum { field } => object_of("$sum", path_of(field.as_str())),
        MongoAccumulator::Avg { field } => object_of("$avg", path_of(field.as_str())),
        MongoAccumulator::Max { field } => object_of("$max", path_of(field.as_str())),
        MongoAccumulator::Min { field } => object_of("$min", path_of(field.as_str())),
        MongoAccumulator::Push { field } => object_of("$push", path_of(field.as_str())),
        MongoAccumulator::AddToSet { field } => object_of("$addToSet", path_of(field.as_str())),
    }
}

/// The uppercase text of `s` as `str::to_uppercase` gives it.
pub uninterp spec fn unicode_uppercase(s: Seq<char>) -> Seq<char>;

/// Calls `str::to_uppercase`; the result is named by `unicode_uppercase`.
#[verifier::external_body]
pub(crate) fn to_uppercase(s: &str) -> (r: String)
    ensures
        r@ == unicode_uppercase(s@),
{
    s.to_uppercase()
}

/// The members of an object of output fields, each with its expression's
/// JSON.
pub open spec fn expression_members(fields: Seq<(String, MongoFieldExpression)>) -> Seq<(Seq<char>, Value)> {
    Seq::new(fields.len(), |k: int| (fields[k].0@, expression_json(fields[k].1)))
}

/// The JSON of nested conditions.
pub open spec fn conditions_json(cs: Seq<MongoCondition>) -> Seq<Value> {
    Seq::new(cs.len(), |k: int| condition_json(cs[k]))
}

/// A `$lookup` of `from`, matching `local` with `foreign`, into `as_field`.
pub open spec fn lookup_json(from: Seq<char>, local: Seq<char>, foreign: Seq<char>, as_field: Seq<char>) -> Value {
    member(
        "$lookup"@,
        Value::Object(
            seq![
                ("from"@, Value::Str(from)),
                ("localField"@, Value::Str(local)),
                ("foreignField"@, Value::Str(foreign)),
                ("as"@, Value::Str(as_field)),
            ],
        ),
    )
}

/// The marker stage of a placeholder: `{"$addFields": {"_P_PLACEHOLDER":
/// "{P}"}}` with `P` the uppercase placeholder type.
pub open spec fn placeholder_stage(placeholder_type: Seq<char>) -> Value {
    let up = unicode_uppercase(placeholder_type);
    member("$addFields"@, member("_"@ + up + "_PLACEHOLDER"@, Value::Str("{"@ + up + "}"@)))
}

/// The JSON of a pipeline stage: `$project` and `$addFields` with each
/// field's expression; `$match` with the one condition, or with `$and`
/// over them when there are none or several; `$lookup`; `$unwind` of
/// `$field`; `$group` with `_id` and then the accumulators; `$sort` as an
/// array of `{field: 1}` (ascending) or `{field: -1}`; `$limit`, `$skip`
/// and `$count`; and a placeholder's marker stage.
pub open spec fn stage_json(op: MongoAggregationOperation) -> Value {
    match op {
        MongoAggregationOperation::Project { fields } => member("$project"@, Value::Object(expression_members(fields@))),
        MongoAggregationOperation::Match { conditions } => member(
            "$match"@,
            if conditions@.len() == 1 {
                condition_json(conditions@[0])
            } else {
                member("$and"@, Value::Array(conditions_json(conditions@)))
            },
        ),
        MongoAggregationOperation::Lookup { from, local_field, foreign_field, as_field } => lookup_json(
            from@,
            local_field@,
            foreign_field@,
            as_field@,
        ),
        MongoAggregationOperation::Unwind { field } => member("$unwind"@, field_path(field@)),
        MongoAggregationOperation::Group { id, accumulators } => member(
            "$group"@,
            Value::Object(
                seq![("_id"@, group_key_json(id))] + Seq::new(
                    accumulators@.len(),
                    |k: int| (accumulators@[k].0@, accumulator_json(accumulators@[k].1)),
                ),
            ),
        ),
        MongoAggregationOperation::Sort { fields } => member(
            "$sort"@,
            Value::Array(
                Seq::new(
                    fields@.len(),
                    |k: int| member(fields@[k].0@, Value::Int(if fields@[k].1 == SortDirection::Asc { 1i64 } else { -1i64 })),
                ),
            ),
        ),
        MongoAggregationOperation::Limit { count } => member("$limit"@, Value::UInt(count)),
        MongoAggregationOperation::Skip { count } => member("$skip"@, Value::UInt(count)),
        MongoAggregationOperation::AddFields { fields } => member("$addFields"@, Value::Object(expression_members(fields@))),
        MongoAggregationOperation::Count { field } => member("$count"@, Value::Str(field@)),
        MongoAggregationOperation::Placeholder { placeholder_type } => placeholder_stage(placeholder_type@),
    }
}

fn expression_members_of(fields: &Vec<(String, MongoFieldExpression)>) -> (r: DataValue)
    ensures
        r@ == Value::Object(expression_members(fields@)),
{
    let mut es: Vec<(String, DataValue)> = Vec::new();
    let mut i: usize = 0;
    while i < fields.len()
        invariant
            i <= fields.len(),
            es@.len() == i,
            forall|j: int| 0 <= j < i ==> #[trigger] es@[j].0@ == fields@[j].0@ && es@[j].1@ == expression_json(fields@[j].1),
        decreases fields.len() - i,
    {
        es.push((fields[i].0.clone(), expression_to_json(&fields[i].1)));
        i = i + 1;
    }
    let r = DataValue::Object(es);
    assert(forall|j: int| 0 <= j < es@.len() ==> r@->Object_0[j] == (es@[j].0@, es@[j].1@));
    assert(r@->Object_0 =~= expression_members(fields@));
    r
}

fn lookup_of(from: &str, local: &str, foreign: &str, as_field: String) -> (r: DataValue)
    ensures
        r@ == lookup_json(from@, local@, foreign@, as_field@),
{
    let ghost am = as_field@;
    let mut es: Vec<(String, DataValue)> = Vec::new();
    es.push(("from".to_owned(), DataValue::String(from.to_owned())));
    assert(es@[0].0@ == "from"@ && es@[0].1@ == Value::Str(from@));
    es.push(("localField".to_owned(), DataValue::String(local.to_owned())));
    assert(es@[1].0@ == "localField"@ && es@[1].1@ == Value::Str(local@));
    es.push(("foreignField".to_owned(), DataValue::String(foreign.to_owned())));
    assert(es@[2].0@ == "foreignField"@ && es@[2].1@ == Value::Str(foreign@));
    es.push(("as".to_owned(), DataValue::String(as_field)));
    assert(es@[3].0@ == "as"@ && es@[3].1@ == Value::Str(am));
    assert(es@[0].0@ == "from"@ && es@[0].1@ == Value::Str(from@));
    assert(es@[1].0@ == "localField"@ && es@[1].1@ == Value::Str(local@));
    assert(es@[2].0@ == "foreignField"@ && es@[2].1@ == Value::Str(foreign@));
    let obj = DataValue::Object(es);
    assert(obj@->Object_0.len() == 4);
    assert(obj@->Object_0[0] == ("from"@, Value::Str(from@)));
    assert(obj@->Object_0[1] == ("localField"@, Value::Str(local@)));
    assert(obj@->Object_0[2] == ("foreignField"@, Value::Str(foreign@)));
    assert(obj@->Object_0[3] == ("as"@, Value::Str(am)));
    assert(obj@->Object_0 =~= seq![
        ("from"@, Value::Str(from@)),
        ("localField"@, Value::Str(local@)),
        ("foreignField"@, Value::Str(foreign@)),
        ("as"@, Value::Str(am)),
    ]);
    object_of("$lookup", obj)
}

/// The marker stage of a placeholder (see `placeholder_stage`).
fn placeholder_stage_of(placeholder_type: &str) -> (r: DataValue)
    ensures
        r@ == placeholder_stage(placeholder_type@),
{
    let up = to_uppercase(placeholder_type);
    let mut key = String::new();
    key.append("_");
    key.append(up.as_str());
    key.append("_PLACEHOLDER");
    let mut marker = String::new();
    marker.append("{");
    marker.append(up.as_str());
    marker.append("}");
    assert(key@ =~= "_"@ + up@ + "_PLACEHOLDER"@);
    assert(marker@ =~= "{"@ + up@ + "}"@);
    object_of("$addFields", object_of(key.as_str(), DataValue::String(marker)))
}

/// The JSON of a pipeline stage (see `stage_json`).
pub fn stage_to_json(op: &MongoAggregationOperation) -> (r: DataValue)
    ensures
        r@ == stage_json(*op),
{
    match op {
        MongoAggregationOperation::Project { fields } => object_of("$project", expression_members_of(fields)),
        MongoAggregationOperation::Match { conditions } => {
            if conditions.len() == 1 {
                object_of("$match", condition_to_json(&conditions[0]))
            } else {
                let a = conditions_array(conditions);
                assert(a@->Array_0 =~= conditions_json(conditions@));
                object_of("$match", object_of("$and", a))
            }
        }
        MongoAggregationOperation::Lookup { from, local_field, foreign_field, as_field } => lookup_of(
            from.as_str(),
            local_field.as_str(),
            foreign_field.as_str(),
            as_field.clone(),
        ),
        MongoAggregationOperation::Unwind { field } => object_of("$unwind", path_of(field.as_str())),
        MongoAggregationOperation::Group { id, accumulators } => {
            let ghost accs = Seq::new(
                accumulators@.len(),
                |k: int| (accumulators@[k].0@, accumulator_json(accumulators@[k].1)),
            );
            let key = group_key_to_json(id);
            let ghost km = key@;
            let mut es: Vec<(String, DataValue)> = Vec::new();
            es.push(("_id".to_owned(), key));
            let mut i: usize = 0;
            while i < accumulators.len()
                invariant
                    i <= accumulators.len(),
                    es@.len() == i + 1,
                    es@[0].0@ == "_id"@,
                    es@[0].1@ == km,
                    forall|j: int| 1 <= j <= i ==> #[trigger] es@[j].0@ == accumulators@[j - 1].0@ && es@[j].1@
                        == accumulator_json(accumulators@[j - 1].1),
                decreases accumulators.len() - i,
            {
                es.push((accumulators[i].0.clone(), accumulator_to_json(&accumulators[i].1)));
                i = i + 1;
            }
            let obj = DataValue::Object(es);
            assert(forall|j: int| 0 <= j < es@.len() ==> obj@->Object_0[j] == (es@[j].0@, es@[j].1@));
            assert(obj@->Object_0 =~= seq![("_id"@, km)] + accs);
            object_of("$group", obj)
        }
        MongoAggregationOperation::Sort { fields } => {
            let mut items: Vec<DataValue> = Vec::new();
            let mut i: usize = 0;
            while i < fields.len()
                invariant
                    i <= fields.len(),
                    items@.len() == i,
                    forall|j: int| 0 <= j < i ==> #[trigger] items@[j]@ == member(
                        fields@[j].0@,
                        Value::Int(if fields@[j].1 == SortDirection::Asc { 1i64 } else { -1i64 }),
                    ),
                decreases fields.len() - i,
            {
                let d: i64 = match fields[i].1 {
                    SortDirection::Asc => 1,
                    SortDirection::Desc => -1,
                };
                items.push(object_of(fields[i].0.as_str(), DataValue::Int(d)));
                i = i + 1;
            }
            let arr = DataValue::Array(items);
            assert(forall|j: int| 0 <= j < items@.len() ==> arr@->Array_0[j] == items@[j]@);
            assert(arr@->Array_0 =~= Seq::new(
                fields@.len(),
                |k: int| member(fields@[k].0@, Value::Int(if fields@[k].1 == SortDirection::Asc { 1i64 } else { -1i64 })),
            ));
            object_of("$sort", arr)
        }
        MongoAggregationOperation::Limit { count } => object_of("$limit", DataValue::UInt(*count)),
        MongoAggregationOperation::Skip { count } => object_of("$skip", DataValue::UInt(*count)),
        MongoAggregationOperation::AddFields { fields } => object_of("$addFields", expression_members_of(fields)),
        MongoAggregationOperation::Count { field } => object_of("$count", DataValue::String(field.clone())),
        MongoAggregationOperation::Placeholder { placeholder_type } => placeholder_stage_of(placeholder_type.as_str()),
    }
}

/// The JSON of stages, in order.
pub open spec fn stages_json(ops: Seq<MongoAggregationOperation>) -> Seq<Value> {
    Seq::new(ops.len(), |k: int| stage_json(ops[k]))
}

/// The document of a stored pipeline: the collection it runs on and its
/// stages.
pub open spec fn pipeline_document(collection: Seq<char>, stages: Seq<Value>) -> Value {
    Value::Object(seq![("collection"@, Value::Str(collection)), ("pipeline"@, Value::Array(stages))])
}

/// The projection of a procedure's output fields: `1` for a field whose
/// alias is its expression, and the expression's text otherwise.
pub open spec fn projection_json(fields: Seq<(Seq<char>, Seq<char>)>) -> Value {
    Value::Object(
        Seq::new(
            fields.len(),
            |k: int| (fields[k].0, if fields[k].0 == fields[k].1 { Value::Int(1) } else { Value::Str(fields[k].1) }),
        ),
    )
}

/// The array a joined collection is looked up into: its name and
/// `_joined`.
pub open spec fn joined_name(table: Seq<char>) -> Seq<char> {
    table + "_joined"@
}

/// The stages of a procedure's joins: for each, whatever its kind, a
/// `$lookup` of the joined collection into `<table>_joined` and an
/// `$unwind` of that array.
pub open spec fn join_stages(joins: Seq<ProcedureJoinView>) -> Seq<Value>
    decreases joins.len(),
{
    if joins.len() == 0 {
        Seq::empty()
    } else {
        let j = joins.last();
        join_stages(joins.drop_last()) + seq![
            lookup_json(j.table, j.local_field, j.foreign_field, joined_name(j.table)),
            member("$unwind"@, field_path(joined_name(j.table))),
        ]
    }
}

/// The stage that marks where a query's clauses go: `_WHERE_PLACEHOLDER`
/// and the others, each with its `{..}` marker.
pub open spec fn clause_markers() -> Value {
    member(
        "$addFields"@,
        Value::Object(
            seq![
                ("_WHERE_PLACEHOLDER"@, Value::Str("{WHERE}"@)),
                ("_GROUP_BY_PLACEHOLDER"@, Value::Str("{GROUP_BY}"@)),
                ("_HAVING_PLACEHOLDER"@, Value::Str("{HAVING}"@)),
                ("_ORDER_BY_PLACEHOLDER"@, Value::Str("{ORDER_BY}"@)),
                ("_LIMIT_PLACEHOLDER"@, Value::Str("{LIMIT}"@)),
                ("_OFFSET_PLACEHOLDER"@, Value::Str("{OFFSET}"@)),
            ],
        ),
    )
}

/// The stages of a procedure given by fields and joins: the projection,
/// the join stages, and the clause markers.
pub open spec fn legacy_stages(c: ProcedureView) -> Seq<Value> {
    seq![member("$project"@, projection_json(c.fields))] + join_stages(c.joins) + seq![clause_markers()]
}

/// The pipeline document of a procedure: over the first dependency's
/// collection, with the procedure's own pipeline when it has one and the
/// stages of its fields and joins otherwise; `None` when it has no
/// dependency.
pub open spec fn procedure_pipeline(config: StoredProcedureConfig) -> Option<Value> {
    if config@.dependencies.len() == 0 {
        None
    } else {
        Some(
            pipeline_document(
                config@.dependencies[0].table,
                match config.mongo_pipeline {
                    Some(ops) => stages_json(ops@),
                    None => legacy_stages(config@),
                },
            ),
        )
    }
}

fn marker(key: &str, text: &str) -> (r: (String, DataValue))
    ensures
        r.0@ == key@,
        r.1@ == Value::Str(text@),
{
    (key.to_owned(), DataValue::String(text.to_owned()))
}

fn clause_markers_of() -> (r: DataValue)
    ensures
        r@ == clause_markers(),
{
    let mut es: Vec<(String, DataValue)> = Vec::new();
    es.push(marker("_WHERE_PLACEHOLDER", "{WHERE}"));
    es.push(marker("_GROUP_BY_PLACEHOLDER", "{GROUP_BY}"));
    es.push(marker("_HAVING_PLACEHOLDER", "{HAVING}"));
    es.push(marker("_ORDER_BY_PLACEHOLDER", "{ORDER_BY}"));
    es.push(marker("_LIMIT_PLACEHOLDER", "{LIMIT}"));
    es.push(marker("_OFFSET_PLACEHOLDER", "{OFFSET}"));
    let obj = DataValue::Object(es);
    let ghost want = clause_markers()->Object_0[0].1->Object_0;
    assert(obj@->Object_0.len() == 6);
    assert(forall|k: int| 0 <= k < 6 ==> obj@->Object_0[k] == (es@[k].0@, es@[k].1@));
    assert(obj@->Object_0 =~= want);
    object_of("$addFields", obj)
}

fn projection_of(fields: &Vec<(String, String)>) -> (r: DataValue)
    ensures
        r@ == projection_json(fields@.map_values(|f: (String, String)| (f.0@, f.1@))),
{
    let ghost fs = fields@.map_values(|f: (String, String)| (f.0@, f.1@));
    let mut es: Vec<(String, DataValue)> = Vec::new();
    let mut i: usize = 0;
    while i < fields.len()
        invariant
            i <= fields.len(),
            fs == fields@.map_values(|f: (String, String)| (f.0@, f.1@)),
            es@.len() == i,
            forall|j: int| 0 <= j < i ==> #[trigger] es@[j].0@ == fs[j].0 && es@[j].1@ == (if fs[j].0 == fs[j].1 {
                Value::Int(1)
            } else {
                Value::Str(fs[j].1)
            }),
        decreases fields.len() - i,
    {
        let alias = &fields[i].0;
        let expr = &fields[i].1;
        let v = if crate::models::str_eq(alias.as_str(), expr.as_str()) {
            DataValue::Int(1)
        } else {
            DataValue::String(expr.clone())
        };
        es.push((alias.clone(), v));
        i = i + 1;
    }
    let r = DataValue::Object(es);
    assert(forall|j: int| 0 <= j < es@.len() ==> r@->Object_0[j] == (es@[j].0@, es@[j].1@));
    assert(r@->Object_0 =~= projection_json(fs)->Object_0);
    r
}

fn joined_name_of(table: &str) -> (r: String)
    ensures
        r@ == joined_name(table@),
{
    let mut s = String::new();
    s.append(table);
    s.append("_joined");
    assert(s@ =~= joined_name(table@));
    s
}

/// The stages of a procedure given by fields and joins (see
/// `legacy_stages`).
fn legacy_stages_of(config: &StoredProcedureConfig) -> (r: Vec<DataValue>)
    ensures
        r@.map_values(|v: DataValue| v@) == legacy_stages(config@),
{
    let ghost c = config@;
    let mut stages: Vec<DataValue> = Vec::new();
    stages.push(object_of("$project", projection_of(&config.fields)));
    let mut i: usize = 0;
    assert(c.joins.subrange(0, 0) =~= Seq::<ProcedureJoinView>::empty());
    assert(stages@.map_values(|v: DataValue| v@) =~= seq![member("$project"@, projection_json(c.fields))] + join_stages(
        c.joins.subrange(0, 0),
    ));
    while i < config.joins.len()
        invariant
            i <= config.joins.len(),
            c == config@,
            stages@.map_values(|v: DataValue| v@) == seq![member("$project"@, projection_json(c.fields))] + join_stages(
                c.joins.subrange(0, i as int),
            ),
        decreases config.joins.len() - i,
    {
        let j = &config.joins[i];
        let ghost before = stages@.map_values(|v: DataValue| v@);
        let into = joined_name_of(j.table.as_str());
        let lookup = lookup_of(j.table.as_str(), j.local_field.as_str(), j.foreign_field.as_str(), into);
        let unwind = object_of("$unwind", path_of(joined_name_of(j.table.as_str()).as_str()));
        stages.push(lookup);
        stages.push(unwind);
        assert(c.joins.subrange(0, i + 1).drop_last() =~= c.joins.subrange(0, i as int));
        assert(c.joins.subrange(0, i + 1).last() == c.joins[i as int]);
        assert(stages@.map_values(|v: DataValue| v@) =~= before + seq![lookup@, unwind@]);
        i = i + 1;
    }
    assert(c.joins.subrange(0, config.joins.len() as int) =~= c.joins);
    let ghost before = stages@.map_values(|v: DataValue| v@);
    let markers = clause_markers_of();
    stages.push(markers);
    assert(stages@.map_values(|v: DataValue| v@) =~= before.push(markers@));
    stages
}

fn stages_of(ops: &Vec<MongoAggregationOperation>) -> (r: Vec<DataValue>)
    ensures
        r@.map_values(|v: DataValue| v@) == stages_json(ops@),
{
    let mut out: Vec<DataValue> = Vec::new();
    let mut i: usize = 0;
    while i < ops.len()
        invariant
            i <= ops.len(),
            out@.len() == i,
            forall|j: int| 0 <= j < i ==> #[trigger] out@[j]@ == stage_json(ops@[j]),
        decreases ops.len() - i,
    {
        out.push(stage_to_json(&ops[i]));
        i = i + 1;
    }
    assert(out@.map_values(|v: DataValue| v@) =~= stages_json(ops@));
    out
}

/// The aggregation pipeline of a stored procedure, as the pretty JSON
/// text of its pipeline document (see `procedure_pipeline`); a validation
/// error about `dependencies` when the procedure has none, and a
/// serialization error when the document cannot be written again.
pub fn generate_stored_procedure_pipeline(config: &StoredProcedureConfig) -> (r: Result<String, QuickDbError>)
    ensures
        match procedure_pipeline(*config) {
            None => r matches Err(e) && e@ == (ErrorKind::Validation { field: dependencies_key() }),
            Some(doc) => match pretty_json_text(json_text(doc)) {
                Some(t) => r matches Ok(s) && s@ == t,
                None => r matches Err(e) && e@ == ErrorKind::Serialization,
            },
        },
{
    let stages = match &config.mongo_pipeline {
        Some(ops) => stages_of(ops),
        None => legacy_stages_of(config),
    };
    if config.dependencies.len() == 0 {
        proof { reveal_strlit("dependencies"); }
        assert("dependencies"@ == dependencies_key());
        return Err(validation_error("dependencies", "至少需要一个依赖集合作为主集合"));
    }
    let ghost sm = stages@.map_values(|v: DataValue| v@);
    let collection = config.dependencies[0].collection_name.clone();
    let pipeline = DataValue::Array(stages);
    assert(pipeline@->Array_0 =~= sm);
    let ghost pm = pipeline@;
    let mut es: Vec<(String, DataValue)> = Vec::new();
    assert(config@.dependencies[0].table == collection@);
    es.push(("collection".to_owned(), DataValue::String(collection)));
    assert(es@[0].0@ == "collection"@ && es@[0].1@ == Value::Str(config@.dependencies[0].table));
    es.push(("pipeline".to_owned(), pipeline));
    assert(es@[1].0@ == "pipeline"@ && es@[1].1@ == pm);
    assert(es@[0].0@ == "collection"@ && es@[0].1@ == Value::Str(config@.dependencies[0].table));
    let doc = DataValue::Object(es);
    assert(doc@->Object_0 =~= seq![("collection"@, Value::Str(config@.dependencies[0].table)), ("pipeline"@, pm)]);
    assert(doc@ == procedure_pipeline(*config)->0);
    let mut text = String::new();
    push_json(&mut text, &doc);
    assert(text@ =~= json_text(doc@));
    match pretty_json(text.as_str()) {
        Some(t) => Ok(t),
        None => Err(QuickDbError::SerializationError { message: "failed to write the aggregation pipeline".to_owned() }),
    }
}

/// Whether `s` ends with `suffix`.
pub open spec fn ends_with(s: Seq<char>, suffix: Seq<char>) -> bool {
    s.len() >= suffix.len() && s.subrange(s.len() - suffix.len(), s.len() as int) == suffix
}

fn text_ends_with(s: &str, suffix: &str) -> (b: bool)
    ensures
        b == ends_with(s@, suffix@),
{
    let cs = crate::text::chars_of(s);
    let ts = crate::text::chars_of(suffix);
    if cs.len() < ts.len() {
        return false;
    }
    let start = cs.len() - ts.len();
    let mut i: usize = 0;
    while i < ts.len()
        invariant
            i <= ts.len(),
            start + ts.len() == cs.len(),
            cs@ == s@,
            ts@ == suffix@,
            forall|j: int| 0 <= j < i ==> #[trigger] cs@[start + j] == ts@[j],
        decreases ts.len() - i,
    {
        if cs[start + i] != ts[i] {
            assert(s@.subrange(s@.len() - suffix@.len(), s@.len() as int)[i as int] != suffix@[i as int]);
            return false;
        }
        i = i + 1;
    }
    assert forall|j: int| 0 <= j < suffix@.len() implies #[trigger] s@.subrange(
        s@.len() - suffix@.len(),
        s@.len() as int,
    )[j] == suffix@[j] by {
        assert(cs@[start + j] == ts@[j]);
    }
    assert(s@.subrange(s@.len() - suffix@.len(), s@.len() as int) =~= suffix@);
    true
}

/// Whether a key names a placeholder marker: it starts with `_` and ends
/// with `_PLACEHOLDER`.
pub open spec fn placeholder_key(k: Seq<char>) -> bool {
    k.len() > 0 && k[0] == '_' && ends_with(k, "_PLACEHOLDER"@)
}

/// The text of the first member under `key`.
pub open spec fn first_member(ms: Seq<(Seq<char>, Seq<char>)>, key: Seq<char>) -> Option<Seq<char>>
    decreases ms.len(),
{
    if ms.len() == 0 {
        None
    } else if ms[0].0 == key {
        Some(ms[0].1)
    } else {
        first_member(ms.drop_first(), key)
    }
}

/// Whether a stage only marks placeholders: an `$addFields` stage whose
/// fields (none, or any number) are all placeholder markers.
pub open spec fn marker_stage(t: Seq<char>) -> bool {
    match json_reading(t) {
        Some((_, Some(ms))) => match first_member(ms, "$addFields"@) {
            Some(v) => match json_reading(v) {
                Some((_, Some(fs))) => forall|i: int| 0 <= i < fs.len() ==> placeholder_key(#[trigger] fs[i].0),
                _ => false,
            },
            None => false,
        },
        _ => false,
    }
}

/// The stages that are kept for execution: all but the marker stages, in
/// order.
pub open spec fn kept_stages(items: Seq<Seq<char>>) -> Seq<Seq<char>>
    decreases items.len(),
{
    if items.len() == 0 {
        Seq::empty()
    } else {
        kept_stages(items.drop_last()) + if marker_stage(items.last()) { Seq::empty() } else { seq![items.last()] }
    }
}

/// What a stored pipeline template runs as: the text of its `collection`
/// and its `pipeline` stages without the marker stages; a serialization
/// error when the template is not JSON, and a validation error about
/// `pipeline` when it lacks a text `collection` or an array `pipeline`.
pub open spec fn executable_pipeline(template: Seq<char>) -> Result<(Seq<char>, Seq<Seq<char>>), ErrorKind> {
    match json_reading(template) {
        None => Err(ErrorKind::Serialization),
        Some((_, None)) => Err(ErrorKind::Validation { field: "pipeline"@ }),
        Some((_, Some(ms))) => match first_member(ms, "collection"@) {
            None => Err(ErrorKind::Validation { field: "pipeline"@ }),
            Some(ct) => match json_string_value(ct) {
                None => Err(ErrorKind::Validation { field: "pipeline"@ }),
                Some(c) => match first_member(ms, "pipeline"@) {
                    None => Err(ErrorKind::Validation { field: "pipeline"@ }),
                    Some(pt) => match json_array_items(pt) {
                        None => Err(ErrorKind::Validation { field: "pipeline"@ }),
                        Some(items) => Ok((c, kept_stages(items))),
                    },
                },
            },
        },
    }
}

/// The model of members read from JSON.
pub open spec fn members_model(ms: Seq<(String, String)>) -> Seq<(Seq<char>, Seq<char>)> {
    ms.map_values(|m: (String, String)| (m.0@, m.1@))
}

fn first_member_index(ms: &Vec<(String, String)>, key: &str) -> (r: Option<usize>)
    ensures
        match r {
            Some(i) => i < ms.len() && first_member(members_model(ms@), key@) == Some(ms@[i as int].1@),
            None => first_member(members_model(ms@), key@) is None,
        },
{
    let ghost m = members_model(ms@);
    let mut i: usize = 0;
    assert(m.subrange(0, m.len() as int) =~= m);
    while i < ms.len()
        invariant
            i <= ms.len(),
            m == members_model(ms@),
            first_member(m, key@) == first_member(m.subrange(i as int, m.len() as int), key@),
        decreases ms.len() - i,
    {
        assert(m.subrange(i as int, m.len() as int).drop_first() =~= m.subrange(i + 1, m.len() as int));
        if crate::models::str_eq(ms[i].0.as_str(), key) {
            return Some(i);
        }
        i = i + 1;
    }
    None
}

fn is_marker_stage(t: &str) -> (b: bool)
    ensures
        b == marker_stage(t@),
{
    match read_json(t) {
        Some((_, Some(ms))) => {
            assert(members_model(ms@) =~= crate::json::members_text(Some(ms))->0);
            match first_member_index(&ms, "$addFields") {
                None => false,
                Some(k) => match read_json(ms[k].1.as_str()) {
                    Some((_, Some(fs))) => {
                        let ghost fm = crate::json::members_text(Some(fs))->0;
                        assert(marker_stage(t@) == forall|j: int| 0 <= j < fm.len() ==> placeholder_key(#[trigger] fm[j].0));
                        let mut i: usize = 0;
                        while i < fs.len()
                            invariant
                                i <= fs.len(),
                                marker_stage(t@) == forall|j: int| 0 <= j < fm.len() ==> placeholder_key(#[trigger] fm[j].0),
                                fm == fs@.map_values(|m: (String, String)| (m.0@, m.1@)),
                                forall|j: int| 0 <= j < i ==> placeholder_key(#[trigger] fm[j].0),
                            decreases fs.len() - i,
                        {
                            let key = fs[i].0.as_str();
                            let cs = crate::text::chars_of(key);
                            let ok = cs.len() > 0 && cs[0] == '_' && text_ends_with(key, "_PLACEHOLDER");
                            if !ok {
                                assert(!placeholder_key(fm[i as int].0));
                                return false;
                            }
                            i = i + 1;
                        }
                        true
                    }
                    _ => false,
                },
            }
        }
        _ => false,
    }
}

/// What a stored pipeline template runs as (see `executable_pipeline`):
/// the collection and the compact JSON text of each stage that is kept.
pub fn final_pipeline(template: &str) -> (r: Result<(String, Vec<String>), QuickDbError>)
    ensures
        match (r, executable_pipeline(template@)) {
            (Ok((c, stages)), Ok((wc, ws))) => c@ == wc && stages@.map_values(|t: String| t@) == ws,
            (Err(e), Err(k)) => e@ == k,
            _ => false,
        },
{
    let missing = "the pipeline template lacks its collection or its stages";
    match read_json(template) {
        None => Err(QuickDbError::SerializationError { message: "the pipeline template is not JSON".to_owned() }),
        Some((_, None)) => Err(validation_error("pipeline", missing)),
        Some((_, Some(ms))) => {
            assert(members_model(ms@) =~= crate::json::members_text(Some(ms))->0);
            let c = match first_member_index(&ms, "collection") {
                None => return Err(validation_error("pipeline", missing)),
                Some(k) => match read_json_string(ms[k].1.as_str()) {
                    None => return Err(validation_error("pipeline", missing)),
                    Some(c) => c,
                },
            };
            let items = match first_member_index(&ms, "pipeline") {
                None => return Err(validation_error("pipeline", missing)),
                Some(k) => match read_json_array(ms[k].1.as_str()) {
                    None => return Err(validation_error("pipeline", missing)),
                    Some(items) => items,
                },
            };
            let ghost its = items@.map_values(|t: String| t@);
            let mut kept: Vec<String> = Vec::new();
            let mut i: usize = 0;
            assert(its.subrange(0, 0) =~= Seq::<Seq<char>>::empty());
            assert(kept@.map_values(|t: String| t@) =~= kept_stages(its.subrange(0, 0)));
            while i < items.len()
                invariant
                    i <= items.len(),
                    its == items@.map_values(|t: String| t@),
                    kept@.map_values(|t: String| t@) == kept_stages(its.subrange(0, i as int)),
                decreases items.len() - i,
            {
                assert(its.subrange(0, i + 1).drop_last() =~= its.subrange(0, i as int));
                assert(its.subrange(0, i + 1).last() == its[i as int]);
                let ghost before = kept@.map_values(|t: String| t@);
                if !is_marker_stage(items[i].as_str()) {
                    kept.push(items[i].clone());
                    assert(kept@.map_values(|t: String| t@) =~= before + seq![its[i as int]]);
                } else {
                    assert(before + Seq::<Seq<char>>::empty() =~= before);
                }
                i = i + 1;
            }
            assert(its.subrange(0, items.len() as int) =~= its);
            Ok((c, kept))
        }
    }
}

} // verus!
