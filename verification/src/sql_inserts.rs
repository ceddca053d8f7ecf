//! What the SQL back ends decide around an insert: whether the table must
//! first be created from its model, what values are bound for the
//! driver, which values a PostgreSQL insert writes, and what record the
//! insert answers with.

use vstd::prelude::*;
use crate::error::{QuickDbError, ErrorKind, validation_error};
use crate::models::{ModelRegistry, first_model};
use crate::mongo::{key_index, lemma_key_index_bounds};
use crate::mongo_records::{find_field, id_key, object_id_key};
use crate::numbers::{parse_i64, parse_i64_text};
use crate::query_builder::entries_model;
use crate::render::{json_string, json_text, json_string_of, push_json_string, push_uuid, uuid_text};
use crate::text::{decimal, join, push_decimal, signed_decimal, push_signed_decimal};
use crate::types::{DataValue, IdRule, IdStrategy, Value};

verus! {

/// The name of the check that refuses an insert into a missing table.
pub open spec fn table_creation_key() -> Seq<char> {
    seq!['t', 'a', 'b', 'l', 'e', '_', 'c', 'r', 'e', 'a', 't', 'i', 'o', 'n']
}

/// What an insert must do about its table: nothing when it exists
/// (`Ok(None)`), create it from the model at the given index when a model
/// is registered for it under `alias` (`Ok(Some(i))`), and otherwise fail
/// with a validation error about `table_creation`.
pub fn plan_table_for_insert(models: &ModelRegistry, table: &str, alias: &str, exists: bool)
    -> (r: Result<Option<usize>, QuickDbError>)
    ensures
        exists ==> r == Ok::<Option<usize>, QuickDbError>(None),
        !exists ==> match r {
            Ok(Some(i)) => first_model(models@, table@, alias@) == Some(i as int),
            Ok(None) => false,
            Err(e) => first_model(models@, table@, alias@) is None
                && e@ == (ErrorKind::Validation { field: table_creation_key() }),
        },
{
    if exists {
        return Ok(None);
    }
    match models.find_model(table, alias) {
        Some(i) => Ok(Some(i)),
        None => {
            proof { reveal_strlit("table_creation"); }
            assert("table_creation"@ == table_creation_key());
            Err(validation_error("table_creation", "表不存在，且没有预定义的模型元数据"))
        }
    }
}

/// A value as it is bound for an SQLite statement.
#[derive(Debug, PartialEq)]
pub enum SqliteValue {
    Text(String),
    Integer(i64),
    /// The decimal text of a 64-bit float.
    Real(String),
    Blob(Vec<u8>),
    Null,
}

/// The model of an SQLite value.
pub enum SqliteCell {
    Text(Seq<char>),
    Integer(i64),
    Real(Seq<char>),
    Blob(Seq<u8>),
    Null,
}

impl View for SqliteValue {
    type V = SqliteCell;

    open spec fn view(&self) -> SqliteCell {
        match self {
            SqliteValue::Text(t) => SqliteCell::Text(t@),
            SqliteValue::Integer(i) => SqliteCell::Integer(*i),
            SqliteValue::Real(t) => SqliteCell::Real(t@),
            SqliteValue::Blob(b) => SqliteCell::Blob(b@),
            SqliteValue::Null => SqliteCell::Null,
        }
    }
}

/// The text an array item is stored as in an SQLite array column:
/// strings as they are, integers and floats as their decimal text, UUIDs
/// hyphenated; other items cannot be stored.
pub open spec fn array_item_text(v: Value) -> Option<Seq<char>> {
    match v {
        Value::Str(s) => Some(s),
        Value::Int(i) => Some(signed_decimal(i as int)),
        Value::Float(t) => Some(t),
        Value::Uuid(u) => Some(uuid_text(u)),
        _ => None,
    }
}

/// The name of the check that refuses an array item.
pub open spec fn array_field_key() -> Seq<char> {
    seq!['a', 'r', 'r', 'a', 'y', '_', 'f', 'i', 'e', 'l', 'd']
}

/// The JSON texts of the items' stored texts, while every item has one.
pub open spec fn array_item_jsons(items: Seq<Value>) -> Option<Seq<Seq<char>>>
    decreases items.len(),
{
    if items.len() == 0 {
        Some(Seq::empty())
    } else {
        match (array_item_jsons(items.drop_last()), array_item_text(items.last())) {
            (Some(js), Some(t)) => Some(js.push(json_string(t))),
            _ => None,
        }
    }
}

/// The text an array is stored as in SQLite: the JSON array of its items'
/// texts, or a validation error about `array_field` when an item has no
/// text.
pub open spec fn sqlite_array_text(items: Seq<Value>) -> Result<Seq<char>, ErrorKind> {
    match array_item_jsons(items) {
        Some(js) => Ok(seq!['['] + join(js, seq![',']) + seq![']']),
        None => Err(ErrorKind::Validation { field: array_field_key() }),
    }
}

/// The SQLite value a parameter is bound as: strings, integers, floats
/// and bytes as they are; an unsigned integer as an integer when it fits
/// and as its decimal text otherwise; a boolean as 1 or 0; a date-time as
/// its Unix seconds; a UUID as its hyphenated text; JSON and objects as
/// JSON text; arrays as the text of `sqlite_array_text`.
pub open spec fn sqlite_value(v: Value) -> Result<SqliteCell, ErrorKind> {
    match v {
        Value::Str(s) => Ok(SqliteCell::Text(s)),
        Value::Int(i) => Ok(SqliteCell::Integer(i)),
        Value::UInt(u) => if u <= i64::MAX { Ok(SqliteCell::Integer(u as i64)) } else { Ok(SqliteCell::Text(decimal(u as nat))) },
        Value::Float(t) => Ok(SqliteCell::Real(t)),
        Value::Bool(b) => Ok(SqliteCell::Integer(if b { 1 } else { 0 })),
        Value::DateTime(t) => Ok(SqliteCell::Integer(t.seconds)),
        Value::DateTimeUTC(t) => Ok(SqliteCell::Integer(t.seconds)),
        Value::Uuid(u) => Ok(SqliteCell::Text(uuid_text(u))),
        Value::Json(t) => Ok(SqliteCell::Text(t)),
        Value::Array(items) => match sqlite_array_text(items) {
            Ok(t) => Ok(SqliteCell::Text(t)),
            Err(e) => Err(e),
        },
        Value::Object(_) => Ok(SqliteCell::Text(json_text(v))),
        Value::Null => Ok(SqliteCell::Null),
        Value::Bytes(b) => Ok(SqliteCell::Blob(b)),
    }
}

fn push_array_item_json(out: &mut String, v: &DataValue) -> (ok: bool)
    ensures
        ok == (array_item_text(v@) is Some),
        ok ==> final(out)@ == old(out)@ + json_string(array_item_text(v@)->0),
        !ok ==> final(out)@ == old(out)@,
{
    match v {
        DataValue::String(s) => {
            push_json_string(out, s.as_str());
            true
        }
        DataValue::Int(i) => {
            let mut t = String::new();
            push_signed_decimal(&mut t, *i);
            push_json_string(out, t.as_str());
            true
        }
        DataValue::Float(t) => {
            push_json_string(out, t.as_str());
            true
        }
        DataValue::Uuid(u) => {
            let mut t = String::new();
            push_uuid(&mut t, *u);
            push_json_string(out, t.as_str());
            true
        }
        _ => false,
    }
}

/// The text an array is stored as in SQLite (see `sqlite_array_text`).
pub fn sqlite_array_json(items: &Vec<DataValue>) -> (r: Result<String, QuickDbError>)
    ensures
        match (r, sqlite_array_text(items@.map_values(|v: DataValue| v@))) {
            (Ok(t), Ok(u)) => t@ == u,
            (Err(e), Err(k)) => e@ == k,
            _ => false,
        },
{
    let ghost m = items@.map_values(|v: DataValue| v@);
    let mut out = String::new();
    crate::text::push_char(&mut out, '[');
    let mut i: usize = 0;
    assert(m.subrange(0, 0) =~= Seq::<Value>::empty());
    assert(array_item_jsons(m.subrange(0, 0)) == Some(Seq::<Seq<char>>::empty()));
    assert(join(Seq::<Seq<char>>::empty(), seq![',']) =~= Seq::<char>::empty());
    assert(out@ =~= seq!['['] + join(Seq::<Seq<char>>::empty(), seq![',']));
    while i < items.len()
        invariant
            i <= items.len(),
            m == items@.map_values(|v: DataValue| v@),
            array_item_jsons(m.subrange(0, i as int)) is Some,
            out@ == seq!['['] + join(array_item_jsons(m.subrange(0, i as int))->0, seq![',']),
        decreases items.len() - i,
    {
        let ghost js = array_item_jsons(m.subrange(0, i as int))->0;
        assert(m.subrange(0, i + 1).drop_last() =~= m.subrange(0, i as int));
        assert(m.subrange(0, i + 1).last() == items@[i as int]@);
        if i > 0 {
            crate::text::push_char(&mut out, ',');
        }
        let ghost before = out@;
        if !push_array_item_json(&mut out, &items[i]) {
            proof { lemma_item_jsons_none(m, i as int); }
            proof { reveal_strlit("array_field"); }
            assert("array_field"@ == array_field_key());
            return Err(validation_error("array_field", "Array字段只支持String、Int、Float、Uuid类型"));
        }
        proof {
            let t = json_string(array_item_text(items@[i as int]@)->0);
            assert(js.push(t).drop_last() =~= js);
            if i == 0 {
                assert(js.push(t) =~= seq![t]);
            }
        }
        i = i + 1;
    }
    assert(m.subrange(0, items.len() as int) =~= m);
    crate::text::push_char(&mut out, ']');
    Ok(out)
}

proof fn lemma_item_jsons_none(m: Seq<Value>, i: int)
    requires
        0 <= i < m.len(),
        array_item_text(m[i]) is None,
    ensures
        array_item_jsons(m) is None,
    decreases m.len(),
{
    if i < m.len() - 1 {
        lemma_item_jsons_none(m.drop_last(), i);
    }
}

/// The SQLite value a parameter is bound as (see `sqlite_value`).
pub fn sqlite_bind_value(v: &DataValue) -> (r: Result<SqliteValue, QuickDbError>)
    ensures
        match (r, sqlite_value(v@)) {
            (Ok(x), Ok(y)) => x@ == y,
            (Err(e), Err(k)) => e@ == k,
            _ => false,
        },
{
    match v {
        DataValue::String(s) => Ok(SqliteValue::Text(s.clone())),
        DataValue::Int(i) => Ok(SqliteValue::Integer(*i)),
        DataValue::UInt(u) => {
            if *u <= 9223372036854775807u64 {
                Ok(SqliteValue::Integer(*u as i64))
            } else {
                let mut t = String::new();
                push_decimal(&mut t, *u);
                Ok(SqliteValue::Text(t))
            }
        }
        DataValue::Float(t) => Ok(SqliteValue::Real(t.clone())),
        DataValue::Bool(b) => Ok(SqliteValue::Integer(if *b { 1 } else { 0 })),
        DataValue::DateTime(t) => Ok(SqliteValue::Integer(t.seconds)),
        DataValue::DateTimeUTC(t) => Ok(SqliteValue::Integer(t.seconds)),
        DataValue::Uuid(u) => {
            let mut t = String::new();
            push_uuid(&mut t, *u);
            Ok(SqliteValue::Text(t))
        }
        DataValue::Json(t) => Ok(SqliteValue::Text(t.clone())),
        DataValue::Array(items) => {
            assert(v@->Array_0 =~= items@.map_values(|x: DataValue| x@));
            match sqlite_array_json(items) {
                Ok(t) => Ok(SqliteValue::Text(t)),
                Err(e) => Err(e),
            }
        }
        DataValue::Object(_) => Ok(SqliteValue::Text(json_string_of(v))),
        DataValue::Null => Ok(SqliteValue::Null),
        DataValue::Bytes(b) => Ok(SqliteValue::Blob(b.clone())),
    }
}

/// The value of the first field called `k`, if any.
pub open spec fn field_value(es: Seq<(Seq<char>, Value)>, k: Seq<char>) -> Option<Value> {
    match key_index(es, k) {
        Some(i) => Some(es[i].1),
        None => None,
    }
}

/// The name of the row-count field of an insert's answer.
pub open spec fn affected_rows_key() -> Seq<char> {
    seq!['a', 'f', 'f', 'e', 'c', 't', 'e', 'd', '_', 'r', 'o', 'w', 's']
}

/// The value of a field called `key` (see `field_value`).
pub fn field_value_of(data: &Vec<(String, DataValue)>, key: &str) -> (r: Option<DataValue>)
    ensures
        match (r, field_value(entries_model(data@), key@)) {
            (Some(x), Some(y)) => x@ == y,
            (None, None) => true,
            _ => false,
        },
{
    proof { lemma_key_index_bounds(entries_model(data@), key@); }
    match find_field(data, key) {
        Some(i) => Some(data[i].1.duplicate()),
        None => None,
    }
}

/// What an SQLite insert answers with: the record's `id`, else its
/// `_id`, else the row id SQLite assigned when it is positive, and
/// otherwise an object with that row id and the number of rows written.
pub open spec fn sqlite_created(es: Seq<(Seq<char>, Value)>, rowid: i64, rows: u64) -> Value {
    match field_value(es, id_key()) {
        Some(v) => v,
        None => match field_value(es, object_id_key()) {
            Some(v) => v,
            None => if rowid > 0 {
                Value::Int(rowid)
            } else {
                Value::Object(seq![(id_key(), Value::Int(rowid)), (affected_rows_key(), Value::Int(rows as i64))])
            },
        },
    }
}

fn id_and_rows(id: DataValue, rows: u64) -> (r: DataValue)
    ensures
        r@ == Value::Object(seq![(id_key(), id@), (affected_rows_key(), Value::Int(rows as i64))]),
{
    proof {
        reveal_strlit("id");
        reveal_strlit("affected_rows");
    }
    assert("id"@ == id_key());
    assert("affected_rows"@ == affected_rows_key());
    let mut fields: Vec<(String, DataValue)> = Vec::new();
    fields.push(("id".to_owned(), id));
    fields.push(("affected_rows".to_owned(), DataValue::Int(rows as i64)));
    let ghost f = entries_model(fields@);
    assert(f =~= seq![(id_key(), id@), (affected_rows_key(), Value::Int(rows as i64))]);
    let r = DataValue::Object(fields);
    assert(r@->Object_0 =~= f);
    r
}

/// What an SQLite insert answers with (see `sqlite_created`).
pub fn sqlite_created_id(data: &Vec<(String, DataValue)>, last_insert_rowid: i64, rows_affected: u64) -> (r: DataValue)
    ensures
        r@ == sqlite_created(entries_model(data@), last_insert_rowid, rows_affected),
{
    proof {
        reveal_strlit("id");
        reveal_strlit("_id");
    }
    assert("id"@ == id_key());
    assert("_id"@ == object_id_key());
    if let Some(v) = field_value_of(data, "id") {
        return v;
    }
    if let Some(v) = field_value_of(data, "_id") {
        return v;
    }
    if last_insert_rowid > 0 {
        DataValue::Int(last_insert_rowid)
    } else {
        id_and_rows(DataValue::Int(last_insert_rowid), rows_affected)
    }
}

/// What a MySQL insert answers with: the id (the id MySQL assigned under
/// the auto-increment strategy, and otherwise the record's `id`, or 0
/// when it has none) and the number of rows written.
pub open spec fn mysql_created(es: Seq<(Seq<char>, Value)>, s: IdRule, last_insert_id: u64, rows: u64) -> Value {
    let id = match s {
        IdRule::AutoIncrement => Value::Int(last_insert_id as i64),
        _ => match field_value(es, id_key()) {
            Some(v) => v,
            None => Value::Int(0),
        },
    };
    Value::Object(seq![(id_key(), id), (affected_rows_key(), Value::Int(rows as i64))])
}

/// What a MySQL insert answers with (see `mysql_created`).
pub fn mysql_created_record(data: &Vec<(String, DataValue)>, id_strategy: &IdStrategy, last_insert_id: u64, rows_affected: u64)
    -> (r: DataValue)
    ensures
        r@ == mysql_created(entries_model(data@), id_strategy@, last_insert_id, rows_affected),
{
    proof { reveal_strlit("id"); }
    assert("id"@ == id_key());
    let id = match id_strategy {
        IdStrategy::AutoIncrement => DataValue::Int(last_insert_id as i64),
        _ => match field_value_of(data, "id") {
            Some(v) => v,
            None => DataValue::Int(0),
        },
    };
    id_and_rows(id, rows_affected)
}

/// The UUID a text spells as `uuid` reads it (`str::parse::<Uuid>`), if
/// any.
pub uninterp spec fn uuid_from_text(s: Seq<char>) -> Option<u128>;

/// Calls `str::parse::<uuid::Uuid>` and gives the UUID's 128 bits; the
/// result is named by `uuid_from_text`.
#[verifier::external_body]
pub(crate) fn parse_uuid_text(s: &str) -> (r: Option<u128>)
    ensures
        r == uuid_from_text(s@),
{
    match s.parse::<uuid::Uuid>() {
        Ok(u) => Some(u.as_u128()),
        Err(_) => None,
    }
}

/// The id a PostgreSQL insert writes for a given id value: under the
/// snowflake strategy a text that reads as an `i64` becomes that integer;
/// under the UUID strategy a text becomes the UUID `parsed_uuid` (what
/// the text reads as, if anything); every other id stays as it is.
pub open spec fn postgres_id(v: Value, s: IdRule, parsed_uuid: Option<u128>) -> Value {
    match (s, v) {
        (IdRule::Snowflake { .. }, Value::Str(t)) => match parse_i64(t) {
            Some(n) => Value::Int(n),
            None => v,
        },
        (IdRule::Uuid, Value::Str(_)) => match parsed_uuid {
            Some(u) => Value::Uuid(u),
            None => v,
        },
        _ => v,
    }
}

/// The id a PostgreSQL insert writes (see `postgres_id`).
pub fn postgres_id_value(v: &DataValue, id_strategy: &IdStrategy, parsed_uuid: Option<u128>) -> (r: DataValue)
    ensures
        r@ == postgres_id(v@, id_strategy@, parsed_uuid),
{
    match (id_strategy, v) {
        (IdStrategy::Snowflake { .. }, DataValue::String(t)) => match parse_i64_text(t.as_str()) {
            Some(n) => DataValue::Int(n),
            None => v.duplicate(),
        },
        (IdStrategy::Uuid, DataValue::String(_)) => match parsed_uuid {
            Some(u) => DataValue::Uuid(u),
            None => v.duplicate(),
        },
        _ => v.duplicate(),
    }
}

/// The values a PostgreSQL insert writes: without `id` when the table
/// numbers its rows itself (`serial_id`), and otherwise with the id as
/// `postgres_id` makes it, given what its text reads as a UUID.
pub open spec fn postgres_insert_fields(es: Seq<(Seq<char>, Value)>, s: IdRule, serial_id: bool) -> Seq<(Seq<char>, Value)> {
    match key_index(es, id_key()) {
        None => es,
        Some(i) => if serial_id {
            es.remove(i)
        } else {
            let parsed = match es[i].1 {
                Value::Str(t) => uuid_from_text(t),
                _ => None,
            };
            es.update(i, (id_key(), postgres_id(es[i].1, s, parsed)))
        },
    }
}

/// The values a PostgreSQL insert writes (see `postgres_insert_fields`).
pub fn postgres_insert_values(data: &Vec<(String, DataValue)>, id_strategy: &IdStrategy, serial_id: bool)
    -> (r: Vec<(String, DataValue)>)
    ensures
        entries_model(r@) == postgres_insert_fields(entries_model(data@), id_strategy@, serial_id),
{
    proof { reveal_strlit("id"); }
    assert("id"@ == id_key());
    let ghost m = entries_model(data@);
    proof { lemma_key_index_bounds(m, id_key()); }
    let mut out: Vec<(String, DataValue)> = Vec::new();
    let mut i: usize = 0;
    assert(entries_model(out@) =~= m.subrange(0, 0));
    while i < data.len()
        invariant
            i <= data.len(),
            m == entries_model(data@),
            entries_model(out@) == m.subrange(0, i as int),
        decreases data.len() - i,
    {
        assert(m[i as int] == (data@[i as int].0@, data@[i as int].1@));
        let k = data[i].0.clone();
        let v = data[i].1.duplicate();
        let ghost before = out@;
        let ghost e = (k@, v@);
        out.push((k, v));
        assert(entries_model(out@) =~= entries_model(before).push(e));
        assert(m.subrange(0, i + 1) =~= m.subrange(0, i as int).push(m[i as int]));
        i = i + 1;
    }
    assert(entries_model(out@) =~= m);
    match find_field(&out, "id") {
        None => out,
        Some(k) => {
            if serial_id {
                out.remove(k);
                assert(entries_model(out@) =~= m.remove(k as int));
                out
            } else {
                let parsed = match &out[k].1 {
                    DataValue::String(t) => parse_uuid_text(t.as_str()),
                    _ => None,
                };
                let v = postgres_id_value(&out[k].1, id_strategy, parsed);
                out.set(k, ("id".to_owned(), v));
                assert(entries_model(out@) =~= m.update(k as int, (id_key(), v@)));
                out
            }
        }
    }
}

/// What a PostgreSQL insert answers with: the first row it returned, or
/// an object saying one row was written when it returned none.
pub fn postgres_insert_result(rows: Vec<DataValue>) -> (r: DataValue)
    ensures
        rows@.len() > 0 ==> r@ == rows@[0]@,
        rows@.len() == 0 ==> r@ == Value::Object(seq![(affected_rows_key(), Value::Int(1))]),
{
    if rows.len() > 0 {
        let mut rows = rows;
        rows.swap_remove(0)
    } else {
        proof { reveal_strlit("affected_rows"); }
        assert("affected_rows"@ == affected_rows_key());
        let mut fields: Vec<(String, DataValue)> = Vec::new();
        fields.push(("affected_rows".to_owned(), DataValue::Int(1)));
        let ghost f = entries_model(fields@);
        assert(f =~= seq![(affected_rows_key(), Value::Int(1))]);
        let r = DataValue::Object(fields);
        assert(r@->Object_0 =~= f);
        r
    }
}

} // verus!
