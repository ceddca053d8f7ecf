//! What the SQL back ends decide about the values they read back: date-
//! times shown at a field's time zone offset, SQLite's integer columns,
//! and SQLite array columns stored as JSON string arrays.

use vstd::prelude::*;
use crate::error::{QuickDbError, ErrorKind, query_error, validation_error};
use crate::models::{FieldKind, FieldType, str_eq};
use crate::numbers::{parse_i64, parse_i64_text, parse_u64, parse_u64_text, valid_float_text, is_float_text};
use crate::postgres_utils::{base64_standard, encode_base64};
use vstd::utf8::{valid_utf8, decode_utf8};
use crate::render::{rfc3339_text, chrono_rfc3339, push_uuid, uuid_text};
use crate::sql_inserts::uuid_from_text;
use crate::text::{decimal, signed_decimal};
use crate::mongo::{unicode_lowercase, to_lowercase};
use crate::time::{timezone_offset_seconds, offset_slices_defined, parse_timezone_offset_to_seconds};
use crate::types::{DataValue, OffsetTimestamp, UtcTimestamp, Value};
use crate::mongo::{doc_insert, keys_unique, key_index, lemma_doc_insert_unique};
use crate::schema::{FieldDefinition, FieldDefinitionView};
use crate::mongo_records::record_insert_entry;

verus! {

/// The instant of a UTC date-time shown at a `+HH:MM` offset; a
/// validation error about `timezone_offset` when the text is not such an
/// offset or lies outside -23:59..+23:59.
pub open spec fn offset_instant(t: UtcTimestamp, tz: Seq<char>) -> Result<OffsetTimestamp, ErrorKind> {
    match timezone_offset_seconds(tz) {
        None => Err(ErrorKind::Validation { field: "timezone_offset"@ }),
        Some(o) => if o < -86399 || o > 86399 {
            Err(ErrorKind::Validation { field: "timezone_offset"@ })
        } else {
            Ok(OffsetTimestamp { seconds: t.seconds, nanos: t.nanos, offset_seconds: o })
        },
    }
}

/// A UTC date-time shown at a `+HH:MM` offset (see `offset_instant`).
pub fn apply_timezone_offset_to_utc(utc: UtcTimestamp, timezone_offset: &str) -> (r: Result<OffsetTimestamp, QuickDbError>)
    requires
        offset_slices_defined(timezone_offset@),
    ensures
        match (r, offset_instant(utc, timezone_offset@)) {
            (Ok(x), Ok(y)) => x == y,
            (Err(e), Err(k)) => e@ == k,
            _ => false,
        },
{
    let o = match parse_timezone_offset_to_seconds(timezone_offset) {
        Ok(o) => o,
        Err(e) => return Err(e),
    };
    if o < -86399 || o > 86399 {
        return Err(validation_error("timezone_offset", "时区偏移超出有效范围，允许范围: -23:59 到 +23:59"));
    }
    Ok(OffsetTimestamp { seconds: utc.seconds, nanos: utc.nanos, offset_seconds: o })
}

/// The value a MySQL date-time column reads back as: null for null, the
/// stored UTC instant at offset zero, or at the field's offset for a
/// field with a time zone.
pub open spec fn mysql_datetime(cell: Option<UtcTimestamp>, tz: Option<Seq<char>>) -> Result<Value, ErrorKind> {
    match cell {
        None => Ok(Value::Null),
        Some(t) => match tz {
            None => Ok(Value::DateTime(OffsetTimestamp { seconds: t.seconds, nanos: t.nanos, offset_seconds: 0 })),
            Some(z) => match offset_instant(t, z) {
                Ok(x) => Ok(Value::DateTime(x)),
                Err(e) => Err(e),
            },
        },
    }
}

pub open spec fn option_str(o: Option<&str>) -> Option<Seq<char>> {
    match o {
        Some(s) => Some(s@),
        None => None,
    }
}

/// The value a MySQL date-time column reads back as (see
/// `mysql_datetime`).
pub fn mysql_datetime_value(cell: Option<UtcTimestamp>, timezone_offset: Option<&str>) -> (r: Result<DataValue, QuickDbError>)
    requires
        timezone_offset matches Some(z) ==> offset_slices_defined(z@),
    ensures
        match (r, mysql_datetime(cell, option_str(timezone_offset))) {
            (Ok(x), Ok(y)) => x@ == y,
            (Err(e), Err(k)) => e@ == k,
            _ => false,
        },
{
    match cell {
        None => Ok(DataValue::Null),
        Some(t) => match timezone_offset {
            None => Ok(DataValue::DateTime(OffsetTimestamp { seconds: t.seconds, nanos: t.nanos, offset_seconds: 0 })),
            Some(z) => match apply_timezone_offset_to_utc(t, z) {
                Ok(x) => Ok(DataValue::DateTime(x)),
                Err(e) => Err(e),
            },
        },
    }
}

/// The text an SQLite date-time column (stored as Unix seconds) reads
/// back as: the RFC 3339 text of the instant in UTC, or at the field's
/// offset for a field with a time zone; a query error when chrono cannot
/// represent the instant, and the errors of `offset_instant` for the
/// offset.
pub open spec fn sqlite_datetime(seconds: i64, tz: Option<Seq<char>>) -> Result<Seq<char>, ErrorKind> {
    match rfc3339_text(seconds, 0, 0) {
        None => Err(ErrorKind::Query),
        Some(utc_text) => match tz {
            None => Ok(utc_text),
            Some(z) => match offset_instant(UtcTimestamp { seconds, nanos: 0 }, z) {
                Err(e) => Err(e),
                Ok(x) => match rfc3339_text(seconds, 0, x.offset_seconds) {
                    Some(t) => Ok(t),
                    None => Err(ErrorKind::Query),
                },
            },
        },
    }
}

/// The text an SQLite date-time column reads back as (see
/// `sqlite_datetime`).
pub fn sqlite_datetime_text(seconds: i64, timezone_offset: Option<&str>) -> (r: Result<String, QuickDbError>)
    requires
        timezone_offset matches Some(z) ==> offset_slices_defined(z@),
    ensures
        match (r, sqlite_datetime(seconds, option_str(timezone_offset))) {
            (Ok(x), Ok(y)) => x@ == y,
            (Err(e), Err(k)) => e@ == k,
            _ => false,
        },
{
    let utc_text = match chrono_rfc3339(seconds, 0, 0) {
        Some(t) => t,
        None => return Err(query_error("无效的时间戳")),
    };
    match timezone_offset {
        None => Ok(utc_text),
        Some(z) => match apply_timezone_offset_to_utc(UtcTimestamp { seconds, nanos: 0 }, z) {
            Err(e) => Err(e),
            Ok(x) => match chrono_rfc3339(seconds, 0, x.offset_seconds) {
                Some(t) => Ok(t),
                None => Err(query_error("无效的时间戳")),
            },
        },
    }
}

/// The column names whose 0 / 1 integers read back as booleans.
pub open spec fn boolean_column(name: Seq<char>) -> bool {
    name == "is_active"@ || name == "active"@ || name == "enabled"@ || name == "disabled"@
        || name == "verified"@ || name == "is_admin"@ || name == "is_deleted"@
}

/// The value an SQLite integer reads back as when no model describes its
/// column: a 0 or 1 in a boolean-named column as a boolean, an `id`
/// above 10^18 (a snowflake id) as its decimal text, any other integer as
/// it is.
pub open spec fn sqlite_integer(name: Seq<char>, i: i64) -> Value {
    if boolean_column(name) && (i == 0 || i == 1) {
        Value::Bool(i == 1)
    } else if name == "id"@ && i > 1000000000000000000 {
        Value::Str(signed_decimal(i as int))
    } else {
        Value::Int(i)
    }
}

/// The value an SQLite integer reads back as (see `sqlite_integer`).
pub fn sqlite_integer_value(column_name: &str, i: i64) -> (r: DataValue)
    ensures
        r@ == sqlite_integer(column_name@, i),
{
    let boolean = str_eq(column_name, "is_active") || str_eq(column_name, "active") || str_eq(column_name, "enabled")
        || str_eq(column_name, "disabled") || str_eq(column_name, "verified") || str_eq(column_name, "is_admin")
        || str_eq(column_name, "is_deleted");
    if boolean && (i == 0 || i == 1) {
        DataValue::Bool(i == 1)
    } else if str_eq(column_name, "id") && i > 1000000000000000000i64 {
        let mut t = String::new();
        crate::text::push_signed_decimal(&mut t, i);
        DataValue::String(t)
    } else {
        DataValue::Int(i)
    }
}

/// The value an item of an SQLite array column reads back as, given its
/// text and the array's item kind: an integer, a float or a UUID where
/// the text reads as one (`parsed_uuid` is what the text reads as a
/// UUID), and the text itself otherwise.
pub open spec fn array_item(kind: FieldKind, s: Seq<char>, parsed_uuid: Option<u128>) -> Value {
    match kind {
        FieldKind::Integer => match parse_i64(s) {
            Some(i) => Value::Int(i),
            None => Value::Str(s),
        },
        FieldKind::Float => if valid_float_text(s) { Value::Float(s) } else { Value::Str(s) },
        FieldKind::Uuid => match parsed_uuid {
            Some(u) => Value::Uuid(u),
            None => Value::Str(s),
        },
        _ => Value::Str(s),
    }
}

/// The value an item of an SQLite array column reads back as (see
/// `array_item`).
pub fn array_item_value(item_type: &FieldType, s: &str, parsed_uuid: Option<u128>) -> (r: DataValue)
    ensures
        r@ == array_item(item_type@, s@, parsed_uuid),
{
    match item_type {
        FieldType::Integer => match parse_i64_text(s) {
            Some(i) => DataValue::Int(i),
            None => DataValue::String(s.to_owned()),
        },
        FieldType::Float => if is_float_text(s) { DataValue::Float(s.to_owned()) } else { DataValue::String(s.to_owned()) },
        FieldType::Uuid => match parsed_uuid {
            Some(u) => DataValue::Uuid(u),
            None => DataValue::String(s.to_owned()),
        },
        _ => DataValue::String(s.to_owned()),
    }
}

/// The strings of a JSON array of strings, as serde_json reads the text
/// into a `Vec<String>`; `None` when it does not.
pub uninterp spec fn json_string_array(s: Seq<char>) -> Option<Seq<Seq<char>>>;

/// Calls `serde_json::from_str::<Vec<String>>`; the result is named by
/// `json_string_array`.
#[verifier::external_body]
fn parse_string_array(s: &str) -> (r: Option<Vec<String>>)
    ensures
        (match r { Some(v) => Some(v@.map_values(|t: String| t@)), None => None }) == json_string_array(s@),
{
    match serde_json::from_str::<Vec<String>>(s) {
        Ok(v) => Some(v),
        Err(_) => None,
    }
}

/// The value an SQLite array column reads back as: the array of its
/// items (see `array_item`) when the stored text is a JSON array of
/// strings, and the stored text otherwise.
pub open spec fn sqlite_array(kind: FieldKind, text: Seq<char>) -> Value {
    match json_string_array(text) {
        Some(items) => Value::Array(Seq::new(
            items.len(),
            |i: int| array_item(kind, items[i], if kind is Uuid { uuid_from_text(items[i]) } else { None }),
        )),
        None => Value::Str(text),
    }
}

/// The value an SQLite array column reads back as (see `sqlite_array`).
pub fn sqlite_array_value(item_type: &FieldType, text: &str) -> (r: DataValue)
    ensures
        r@ == sqlite_array(item_type@, text@),
{
    match parse_string_array(text) {
        None => DataValue::String(text.to_owned()),
        Some(items) => {
            let ghost m = items@.map_values(|t: String| t@);
            let is_uuid = match item_type {
                FieldType::Uuid => true,
                _ => false,
            };
            let mut out: Vec<DataValue> = Vec::new();
            let mut i: usize = 0;
            while i < items.len()
                invariant
                    i <= items.len(),
                    m == items@.map_values(|t: String| t@),
                    is_uuid == (item_type@ is Uuid),
                    out@.len() == i,
                    forall|j: int| 0 <= j < i ==> #[trigger] out@[j]@ == array_item(
                        item_type@,
                        m[j],
                        if item_type@ is Uuid { uuid_from_text(m[j]) } else { None },
                    ),
                decreases items.len() - i,
            {
                let parsed = if is_uuid { crate::sql_inserts::parse_uuid_text(items[i].as_str()) } else { None };
                out.push(array_item_value(item_type, items[i].as_str(), parsed));
                i = i + 1;
            }
            assert(json_string_array(text@) == Some(m));
            let ghost want = sqlite_array(item_type@, text@)->Array_0;
            assert(want.len() == m.len());
            assert(forall|k: int| 0 <= k < m.len() ==> #[trigger] want[k] == array_item(
                item_type@,
                m[k],
                if item_type@ is Uuid { uuid_from_text(m[k]) } else { None },
            ));
            let r = DataValue::Array(out);
            assert(forall|k: int| 0 <= k < out@.len() ==> #[trigger] r@->Array_0[k] == out@[k]@);
            assert(r@->Array_0 =~= want);
            r
        }
    }
}

/// What a MySQL integer column held, as the first reading that succeeded
/// gave it: a 64-bit or 32-bit integer, signed or unsigned, or text;
/// `None` for SQL null.
#[derive(Debug)]
pub enum IntegerCell {
    Signed64(Option<i64>),
    Signed32(Option<i32>),
    Unsigned64(Option<u64>),
    Unsigned32(Option<u32>),
    Text(Option<String>),
}

/// The value a MySQL integer column reads back as: null for null; an
/// `id` above 10^18 (a snowflake id) as its decimal text; an unsigned
/// integer above `i64::MAX` as its decimal text; text as the integer it
/// spells, or as itself; any other integer as it is.
pub open spec fn mysql_integer(name: Seq<char>, cell: IntegerCell) -> Value {
    match cell {
        IntegerCell::Signed64(Some(i)) => if name == "id"@ && i > 1000000000000000000 {
            Value::Str(signed_decimal(i as int))
        } else {
            Value::Int(i)
        },
        IntegerCell::Signed32(Some(i)) => Value::Int(i as i64),
        IntegerCell::Unsigned64(Some(u)) => if u <= i64::MAX { Value::Int(u as i64) } else { Value::Str(decimal(u as nat)) },
        IntegerCell::Unsigned32(Some(u)) => Value::Int(u as i64),
        IntegerCell::Text(Some(t)) => match parse_i64(t@) {
            Some(i) => Value::Int(i),
            None => Value::Str(t@),
        },
        _ => Value::Null,
    }
}

/// The value a MySQL integer column reads back as (see `mysql_integer`).
pub fn mysql_integer_value(column_name: &str, cell: IntegerCell) -> (r: DataValue)
    ensures
        r@ == mysql_integer(column_name@, cell),
{
    match cell {
        IntegerCell::Signed64(Some(i)) => {
            if str_eq(column_name, "id") && i > 1000000000000000000i64 {
                let mut t = String::new();
                crate::text::push_signed_decimal(&mut t, i);
                DataValue::String(t)
            } else {
                DataValue::Int(i)
            }
        }
        IntegerCell::Signed32(Some(i)) => DataValue::Int(i as i64),
        IntegerCell::Unsigned64(Some(u)) => {
            if u <= 9223372036854775807u64 {
                DataValue::Int(u as i64)
            } else {
                let mut t = String::new();
                crate::text::push_decimal(&mut t, u);
                DataValue::String(t)
            }
        }
        IntegerCell::Unsigned32(Some(u)) => DataValue::Int(u as i64),
        IntegerCell::Text(Some(t)) => match parse_i64_text(t.as_str()) {
            Some(i) => DataValue::Int(i),
            None => DataValue::String(t),
        },
        _ => DataValue::Null,
    }
}

/// What a MySQL boolean column held, as the first reading that succeeded
/// gave it: a boolean, a small integer, or text; `None` for SQL null.
#[derive(Debug)]
pub enum BooleanCell {
    Bool(Option<bool>),
    Tiny(Option<i8>),
    Text(Option<String>),
}

/// The texts that read as true and as false, whatever their case.
pub open spec fn true_word(w: Seq<char>) -> bool {
    w == "true"@ || w == "1"@ || w == "yes"@ || w == "on"@
}

pub open spec fn false_word(w: Seq<char>) -> bool {
    w == "false"@ || w == "0"@ || w == "no"@ || w == "off"@
}

/// The value a MySQL boolean column reads back as: null for null; a
/// small integer as whether it is not zero; text by its lowercase form
/// (`true`, `1`, `yes`, `on` and `false`, `0`, `no`, `off`), and as
/// itself otherwise.
pub open spec fn mysql_boolean(cell: BooleanCell) -> Value {
    match cell {
        BooleanCell::Bool(Some(b)) => Value::Bool(b),
        BooleanCell::Tiny(Some(i)) => Value::Bool(i != 0),
        BooleanCell::Text(Some(t)) => {
            let w = unicode_lowercase(t@);
            if true_word(w) {
                Value::Bool(true)
            } else if false_word(w) {
                Value::Bool(false)
            } else {
                Value::Str(t@)
            }
        },
        _ => Value::Null,
    }
}

/// The value a MySQL boolean column reads back as (see `mysql_boolean`).
pub fn mysql_boolean_value(cell: BooleanCell) -> (r: DataValue)
    ensures
        r@ == mysql_boolean(cell),
{
    match cell {
        BooleanCell::Bool(Some(b)) => DataValue::Bool(b),
        BooleanCell::Tiny(Some(i)) => DataValue::Bool(i != 0),
        BooleanCell::Text(Some(t)) => {
            let w = to_lowercase(t.as_str());
            let ws = w.as_str();
            if str_eq(ws, "true") || str_eq(ws, "1") || str_eq(ws, "yes") || str_eq(ws, "on") {
                DataValue::Bool(true)
            } else if str_eq(ws, "false") || str_eq(ws, "0") || str_eq(ws, "no") || str_eq(ws, "off") {
                DataValue::Bool(false)
            } else {
                DataValue::String(t)
            }
        }
        _ => DataValue::Null,
    }
}

/// How a MySQL column is read, by the name of its type.
#[derive(Clone, Copy, Debug, PartialEq, Eq, Structural)]
pub enum ColumnReading {
    Integer,
    UnsignedInteger,
    Float,
    Boolean,
    Text,
    Blob,
    DateTime,
}

/// How a MySQL column is read: signed and unsigned integer types,
/// `FLOAT` and `DOUBLE`, `BOOLEAN` and `BOOL`, `BLOB`, `DATETIME` and
/// `TIMESTAMP` each their own way, and every other type as text.
pub open spec fn mysql_column_reading(column_type: Seq<char>) -> ColumnReading {
    if column_type == "INT"@ || column_type == "BIGINT"@ || column_type == "SMALLINT"@ || column_type == "TINYINT"@ {
        ColumnReading::Integer
    } else if column_type == "INT UNSIGNED"@ || column_type == "BIGINT UNSIGNED"@ || column_type == "SMALLINT UNSIGNED"@
        || column_type == "TINYINT UNSIGNED"@ {
        ColumnReading::UnsignedInteger
    } else if column_type == "FLOAT"@ || column_type == "DOUBLE"@ {
        ColumnReading::Float
    } else if column_type == "BOOLEAN"@ || column_type == "BOOL"@ {
        ColumnReading::Boolean
    } else if column_type == "BLOB"@ {
        ColumnReading::Blob
    } else if column_type == "DATETIME"@ || column_type == "TIMESTAMP"@ {
        ColumnReading::DateTime
    } else {
        ColumnReading::Text
    }
}

/// How a MySQL column is read (see `mysql_column_reading`).
pub fn mysql_column_reading_of(column_type: &str) -> (r: ColumnReading)
    ensures
        r == mysql_column_reading(column_type@),
{
    let t = column_type;
    if str_eq(t, "INT") || str_eq(t, "BIGINT") || str_eq(t, "SMALLINT") || str_eq(t, "TINYINT") {
        ColumnReading::Integer
    } else if str_eq(t, "INT UNSIGNED") || str_eq(t, "BIGINT UNSIGNED") || str_eq(t, "SMALLINT UNSIGNED")
        || str_eq(t, "TINYINT UNSIGNED") {
        ColumnReading::UnsignedInteger
    } else if str_eq(t, "FLOAT") || str_eq(t, "DOUBLE") {
        ColumnReading::Float
    } else if str_eq(t, "BOOLEAN") || str_eq(t, "BOOL") {
        ColumnReading::Boolean
    } else if str_eq(t, "BLOB") {
        ColumnReading::Blob
    } else if str_eq(t, "DATETIME") || str_eq(t, "TIMESTAMP") {
        ColumnReading::DateTime
    } else {
        ColumnReading::Text
    }
}

/// What a MySQL unsigned integer column held, as the first reading that
/// succeeded gave it: as a signed integer (and, when that came out
/// negative, as an unsigned one, `None` when that second reading
/// failed), as an unsigned integer, as text, or not at all.
#[derive(Debug)]
pub enum UnsignedCell {
    Signed { value: Option<i64>, as_unsigned: Option<Option<u64>> },
    Unsigned(Option<u64>),
    Text(Option<String>),
    Unreadable,
}

/// The value of an unsigned integer that fits in an `i64` as that
/// integer, and of a larger one as its decimal text.
pub open spec fn unsigned_value(u: u64) -> Value {
    if u <= i64::MAX { Value::Int(u as i64) } else { Value::Str(decimal(u as nat)) }
}

/// The value a MySQL unsigned integer column reads back as: a
/// non-negative signed reading as it is, a negative one as its unsigned
/// reading cast to `i64` (null when there is none); an unsigned reading
/// as `unsigned_value`; text as the unsigned or else signed integer it
/// spells, or as itself; null otherwise.
pub open spec fn mysql_unsigned(cell: UnsignedCell) -> Value {
    match cell {
        UnsignedCell::Signed { value: Some(i), as_unsigned } => if i < 0 {
            match as_unsigned {
                Some(Some(u)) => Value::Int(u as i64),
                _ => Value::Null,
            }
        } else {
            Value::Int(i)
        },
        UnsignedCell::Unsigned(Some(u)) => unsigned_value(u),
        UnsignedCell::Text(Some(t)) => match parse_u64(t@) {
            Some(u) => unsigned_value(u),
            None => match parse_i64(t@) {
                Some(i) => Value::Int(i),
                None => Value::Str(t@),
            },
        },
        _ => Value::Null,
    }
}

fn unsigned_data_value(u: u64) -> (r: DataValue)
    ensures
        r@ == unsigned_value(u),
{
    if u <= 9223372036854775807u64 {
        DataValue::Int(u as i64)
    } else {
        let mut t = String::new();
        crate::text::push_decimal(&mut t, u);
        DataValue::String(t)
    }
}

/// The value a MySQL unsigned integer column reads back as (see
/// `mysql_unsigned`).
pub fn mysql_unsigned_value(cell: UnsignedCell) -> (r: DataValue)
    ensures
        r@ == mysql_unsigned(cell),
{
    match cell {
        UnsignedCell::Signed { value: Some(i), as_unsigned } => {
            if i < 0 {
                match as_unsigned {
                    Some(Some(u)) => DataValue::Int(u as i64),
                    _ => DataValue::Null,
                }
            } else {
                DataValue::Int(i)
            }
        }
        UnsignedCell::Unsigned(Some(u)) => unsigned_data_value(u),
        UnsignedCell::Text(Some(t)) => match parse_u64_text(t.as_str()) {
            Some(u) => unsigned_data_value(u),
            None => match parse_i64_text(t.as_str()) {
                Some(i) => DataValue::Int(i),
                None => DataValue::String(t),
            },
        },
        _ => DataValue::Null,
    }
}

/// Calls `String::from_utf8`: the text of bytes that are valid UTF-8,
/// and `None` for any other bytes.
#[verifier::external_body]
fn utf8_text(bytes: Vec<u8>) -> (r: Option<String>)
    ensures
        r is Some <==> valid_utf8(bytes@),
        r matches Some(t) ==> t@ == decode_utf8(bytes@),
{
    match String::from_utf8(bytes) {
        Ok(s) => Some(s),
        Err(_) => None,
    }
}

/// The value a MySQL `BLOB` column reads back as: null for null, the
/// text of bytes that are valid UTF-8, and the standard base64 text of
/// any other bytes.
pub open spec fn mysql_blob(bytes: Option<Seq<u8>>) -> Value {
    match bytes {
        None => Value::Null,
        Some(b) => if valid_utf8(b) { Value::Str(decode_utf8(b)) } else { Value::Str(base64_standard(b)) },
    }
}

/// The value a MySQL `BLOB` column reads back as (see `mysql_blob`).
pub fn mysql_blob_value(bytes: Option<Vec<u8>>) -> (r: DataValue)
    ensures
        r@ == mysql_blob(match bytes { Some(b) => Some(b@), None => None }),
{
    match bytes {
        None => DataValue::Null,
        Some(b) => {
            let ghost bv = b@;
            let copy = b.clone();
            assert(copy@ == bv);
            match utf8_text(b) {
                Some(t) => DataValue::String(t),
                None => DataValue::String(encode_base64(copy.as_slice())),
            }
        }
    }
}


/// How a PostgreSQL column is read, by the name of its type.
#[derive(Clone, Copy, Debug, PartialEq, Eq, Structural)]
pub enum PostgresReading {
    Integer,
    Float,
    Boolean,
    Text,
    Uuid,
    Json,
    Array,
    Timestamp,
}

/// Whether a type name ends in `[]` (an array type such as `text[]`).
pub open spec fn array_type_name(t: Seq<char>) -> bool {
    t.len() >= 2 && t[t.len() - 2] == '[' && t[t.len() - 1] == ']'
}

/// How a PostgreSQL column is read: `INT4` and `INT8` as integers,
/// `FLOAT4` and `FLOAT8` as floats, `BOOL`, `UUID`, `JSON` and `JSONB`
/// each their own way, a type whose name ends in `[]` as an array, the
/// timestamp types as instants, and every other type as text.
pub open spec fn postgres_reading(column_type: Seq<char>) -> PostgresReading {
    if column_type == "INT4"@ || column_type == "INT8"@ {
        PostgresReading::Integer
    } else if column_type == "FLOAT4"@ || column_type == "FLOAT8"@ {
        PostgresReading::Float
    } else if column_type == "BOOL"@ {
        PostgresReading::Boolean
    } else if column_type == "UUID"@ {
        PostgresReading::Uuid
    } else if column_type == "JSON"@ || column_type == "JSONB"@ {
        PostgresReading::Json
    } else if array_type_name(column_type) {
        PostgresReading::Array
    } else if column_type == "timestamp without time zone"@ || column_type == "TIMESTAMP"@ || column_type == "TIMESTAMPTZ"@ {
        PostgresReading::Timestamp
    } else {
        PostgresReading::Text
    }
}

/// How a PostgreSQL column is read (see `postgres_reading`).
pub fn postgres_reading_of(column_type: &str) -> (r: PostgresReading)
    ensures
        r == postgres_reading(column_type@),
{
    let t = column_type;
    if str_eq(t, "INT4") || str_eq(t, "INT8") {
        PostgresReading::Integer
    } else if str_eq(t, "FLOAT4") || str_eq(t, "FLOAT8") {
        PostgresReading::Float
    } else if str_eq(t, "BOOL") {
        PostgresReading::Boolean
    } else if str_eq(t, "UUID") {
        PostgresReading::Uuid
    } else if str_eq(t, "JSON") || str_eq(t, "JSONB") {
        PostgresReading::Json
    } else if ends_with_brackets(t) {
        PostgresReading::Array
    } else if str_eq(t, "timestamp without time zone") || str_eq(t, "TIMESTAMP") || str_eq(t, "TIMESTAMPTZ") {
        PostgresReading::Timestamp
    } else {
        PostgresReading::Text
    }
}

fn ends_with_brackets(t: &str) -> (b: bool)
    ensures
        b == array_type_name(t@),
{
    let cs = crate::text::chars_of(t);
    let n = cs.len();
    n >= 2 && cs[n - 2] == '[' && cs[n - 1] == ']'
}

/// What a PostgreSQL column held, as the reading of its kind gave it
/// (`None` for SQL null): a 32-bit or 64-bit integer, a boolean, text, a
/// UUID, an array read as strings, a UTC instant; or nothing, when the
/// reading failed.
#[derive(Debug)]
pub enum PostgresCell {
    Int4(Option<i32>),
    Int8(Option<i64>),
    Bool(Option<bool>),
    Text(Option<String>),
    Uuid(Option<u128>),
    StringArray(Option<Vec<String>>),
    Timestamp(Option<UtcTimestamp>),
    Unreadable,
}

/// The value a PostgreSQL column reads back as: null for null and for a
/// failed reading; an `id` above 10^18 (a snowflake id) as its decimal
/// text; a UUID as its hyphenated text; an array as the array of its
/// strings; an instant at offset zero; anything else as it is.
pub open spec fn postgres_value(name: Seq<char>, cell: PostgresCell) -> Value {
    match cell {
        PostgresCell::Int4(Some(i)) => Value::Int(i as i64),
        PostgresCell::Int8(Some(i)) => if name == "id"@ && i > 1000000000000000000 {
            Value::Str(signed_decimal(i as int))
        } else {
            Value::Int(i)
        },
        PostgresCell::Bool(Some(b)) => Value::Bool(b),
        PostgresCell::Text(Some(t)) => Value::Str(t@),
        PostgresCell::Uuid(Some(u)) => Value::Str(uuid_text(u)),
        PostgresCell::StringArray(Some(items)) => Value::Array(
            Seq::new(items@.len(), |k: int| Value::Str(items@[k]@)),
        ),
        PostgresCell::Timestamp(Some(t)) => Value::DateTime(
            OffsetTimestamp { seconds: t.seconds, nanos: t.nanos, offset_seconds: 0 },
        ),
        _ => Value::Null,
    }
}

/// The value a PostgreSQL column reads back as (see `postgres_value`).
pub fn postgres_value_of(column_name: &str, cell: PostgresCell) -> (r: DataValue)
    ensures
        r@ == postgres_value(column_name@, cell),
{
    match cell {
        PostgresCell::Int4(Some(i)) => DataValue::Int(i as i64),
        PostgresCell::Int8(Some(i)) => {
            if str_eq(column_name, "id") && i > 1000000000000000000i64 {
                let mut t = String::new();
                crate::text::push_signed_decimal(&mut t, i);
                DataValue::String(t)
            } else {
                DataValue::Int(i)
            }
        }
        PostgresCell::Bool(Some(b)) => DataValue::Bool(b),
        PostgresCell::Text(Some(t)) => DataValue::String(t),
        PostgresCell::Uuid(Some(u)) => {
            let mut t = String::new();
            push_uuid(&mut t, u);
            DataValue::String(t)
        }
        PostgresCell::StringArray(Some(items)) => {
            let ghost want = Seq::new(items@.len(), |k: int| Value::Str(items@[k]@));
            let mut out: Vec<DataValue> = Vec::new();
            let mut i: usize = 0;
            while i < items.len()
                invariant
                    i <= items.len(),
                    out@.len() == i,
                    forall|k: int| 0 <= k < i ==> #[trigger] out@[k]@ == Value::Str(items@[k]@),
                decreases items.len() - i,
            {
                let s = items[i].clone();
                out.push(DataValue::String(s));
                i = i + 1;
            }
            let r = DataValue::Array(out);
            assert(forall|k: int| 0 <= k < out@.len() ==> #[trigger] r@->Array_0[k] == out@[k]@);
            assert(r@->Array_0 =~= want);
            r
        }
        PostgresCell::Timestamp(Some(t)) => DataValue::DateTime(
            OffsetTimestamp { seconds: t.seconds, nanos: t.nanos, offset_seconds: 0 },
        ),
        _ => DataValue::Null,
    }
}

/// What a MySQL column held, read the way its type asks
/// (`mysql_column_reading`): an integer, unsigned, boolean or date-time
/// reading, a float as its decimal text, text, a `BLOB`'s bytes, or
/// nothing when every reading failed.
#[derive(Debug)]
pub enum MysqlCell {
    Integer(IntegerCell),
    Unsigned(UnsignedCell),
    Float(Option<String>),
    Boolean(BooleanCell),
    Text(Option<String>),
    Blob(Option<Vec<u8>>),
    DateTime(Option<UtcTimestamp>),
    Unreadable,
}

/// The value a MySQL column reads back as: each reading as its own
/// function gives it, a float by its text, a date-time at offset zero,
/// and null for SQL null and for a cell that could not be read.
pub open spec fn mysql_value(name: Seq<char>, cell: MysqlCell) -> Value {
    match cell {
        MysqlCell::Integer(c) => mysql_integer(name, c),
        MysqlCell::Unsigned(c) => mysql_unsigned(c),
        MysqlCell::Float(Some(t)) => Value::Float(t@),
        MysqlCell::Boolean(c) => mysql_boolean(c),
        MysqlCell::Text(Some(t)) => Value::Str(t@),
        MysqlCell::Blob(b) => mysql_blob(match b { Some(x) => Some(x@), None => None }),
        MysqlCell::DateTime(Some(t)) => Value::DateTime(OffsetTimestamp { seconds: t.seconds, nanos: t.nanos, offset_seconds: 0 }),
        _ => Value::Null,
    }
}

/// The value a MySQL column reads back as (see `mysql_value`).
pub fn mysql_value_of(column_name: &str, cell: MysqlCell) -> (r: DataValue)
    ensures
        r@ == mysql_value(column_name@, cell),
{
    match cell {
        MysqlCell::Integer(c) => mysql_integer_value(column_name, c),
        MysqlCell::Unsigned(c) => mysql_unsigned_value(c),
        MysqlCell::Float(Some(t)) => DataValue::Float(t),
        MysqlCell::Boolean(c) => mysql_boolean_value(c),
        MysqlCell::Text(Some(t)) => DataValue::String(t),
        MysqlCell::Blob(b) => mysql_blob_value(b),
        MysqlCell::DateTime(Some(t)) => DataValue::DateTime(OffsetTimestamp { seconds: t.seconds, nanos: t.nanos, offset_seconds: 0 }),
        _ => DataValue::Null,
    }
}

/// The record a MySQL row reads back as: the columns in the row's
/// order, each under its name with the value `mysql_value` gives its cell
/// (null for a cell that could not be read); a name that comes again
/// keeps its first place and takes the later column's value, so each
/// name has one entry. Reading a row never fails.
pub open spec fn mysql_row(columns: Seq<(String, MysqlCell)>) -> Seq<(Seq<char>, Value)>
    decreases columns.len(),
{
    if columns.len() == 0 {
        Seq::empty()
    } else {
        doc_insert(mysql_row(columns.drop_last()), columns.last().0@, mysql_value(columns.last().0@, columns.last().1))
    }
}

/// The record a MySQL row reads back as (see `mysql_row`); no name
/// has two entries.
pub fn mysql_row_to_data_map(columns: Vec<(String, MysqlCell)>) -> (r: Vec<(String, DataValue)>)
    ensures
        crate::query_builder::entries_model(r@) == mysql_row(columns@),
        keys_unique(crate::query_builder::entries_model(r@)),
{
    let ghost all = columns@;
    let mut rest = columns;
    let n = rest.len();
    let mut out: Vec<(String, DataValue)> = Vec::new();
    let mut i: usize = 0;
    assert(all.subrange(0, 0) =~= Seq::<(String, MysqlCell)>::empty());
    assert(crate::query_builder::entries_model(out@) =~= Seq::<(Seq<char>, Value)>::empty());
    while rest.len() > 0
        invariant
            all.len() == n,
            i + rest@.len() == all.len(),
            rest@ == all.subrange(i as int, all.len() as int),
            crate::query_builder::entries_model(out@) == mysql_row(all.subrange(0, i as int)),
            keys_unique(crate::query_builder::entries_model(out@)),
        decreases rest.len(),
    {
        let (name, cell) = rest.remove(0);
        assert(all[i as int] == (name, cell));
        assert(all.subrange(0, i + 1).drop_last() =~= all.subrange(0, i as int));
        assert(all.subrange(0, i + 1).last() == all[i as int]);
        let ghost d = crate::query_builder::entries_model(out@);
        let ghost key = name@;
        let v = mysql_value_of(name.as_str(), cell);
        proof { lemma_doc_insert_unique(d, key, v@); }
        record_insert_entry(&mut out, name, v);
        assert(rest@ =~= all.subrange(i + 1, all.len() as int));
        i = i + 1;
    }
    assert(all.subrange(0, n as int) =~= all);
    out
}

/// The record a PostgreSQL row reads back as: the columns in the row's
/// order, each under its name with the value `postgres_value` gives its cell
/// (null for a cell that could not be read); a name that comes again
/// keeps its first place and takes the later column's value, so each
/// name has one entry. Reading a row never fails.
pub open spec fn postgres_row(columns: Seq<(String, PostgresCell)>) -> Seq<(Seq<char>, Value)>
    decreases columns.len(),
{
    if columns.len() == 0 {
        Seq::empty()
    } else {
        doc_insert(postgres_row(columns.drop_last()), columns.last().0@, postgres_value(columns.last().0@, columns.last().1))
    }
}

/// The record a PostgreSQL row reads back as (see `postgres_row`); no name
/// has two entries.
pub fn postgres_row_to_data_map(columns: Vec<(String, PostgresCell)>) -> (r: Vec<(String, DataValue)>)
    ensures
        crate::query_builder::entries_model(r@) == postgres_row(columns@),
        keys_unique(crate::query_builder::entries_model(r@)),
{
    let ghost all = columns@;
    let mut rest = columns;
    let n = rest.len();
    let mut out: Vec<(String, DataValue)> = Vec::new();
    let mut i: usize = 0;
    assert(all.subrange(0, 0) =~= Seq::<(String, PostgresCell)>::empty());
    assert(crate::query_builder::entries_model(out@) =~= Seq::<(Seq<char>, Value)>::empty());
    while rest.len() > 0
        invariant
            all.len() == n,
            i + rest@.len() == all.len(),
            rest@ == all.subrange(i as int, all.len() as int),
            crate::query_builder::entries_model(out@) == postgres_row(all.subrange(0, i as int)),
            keys_unique(crate::query_builder::entries_model(out@)),
        decreases rest.len(),
    {
        let (name, cell) = rest.remove(0);
        assert(all[i as int] == (name, cell));
        assert(all.subrange(0, i + 1).drop_last() =~= all.subrange(0, i as int));
        assert(all.subrange(0, i + 1).last() == all[i as int]);
        let ghost d = crate::query_builder::entries_model(out@);
        let ghost key = name@;
        let v = postgres_value_of(name.as_str(), cell);
        proof { lemma_doc_insert_unique(d, key, v@); }
        record_insert_entry(&mut out, name, v);
        assert(rest@ =~= all.subrange(i + 1, all.len() as int));
        i = i + 1;
    }
    assert(all.subrange(0, n as int) =~= all);
    out
}

/// What an SQLite column gave when read the way its field's type asks:
/// an integer (date-times, booleans and integers), a float's decimal
/// text (floats), text (strings, UUIDs, arrays, JSON and objects), bytes
/// (binary fields), or nothing when that reading failed.
#[derive(Debug)]
pub enum SqliteRead {
    Integer(i64),
    Real(String),
    Text(String),
    Bytes(Vec<u8>),
    Failed,
}

/// The models of a model's field definitions, each under its name.
pub open spec fn field_defs_model(fields: Seq<(String, FieldDefinition)>) -> Seq<(Seq<char>, FieldDefinitionView)> {
    fields.map_values(|f: (String, FieldDefinition)| (f.0@, f.1@))
}

/// The definition of the field named `name`: the first one under that
/// name.
pub open spec fn field_def_of(defs: Seq<(Seq<char>, FieldDefinitionView)>, name: Seq<char>) -> Option<FieldDefinitionView> {
    match key_index(defs, name) {
        Some(i) => Some(defs[i].1),
        None => None,
    }
}

/// Whether every date-time field with a time zone has an offset text
/// that can be sliced at its bytes.
pub open spec fn offsets_sliceable(defs: Seq<(Seq<char>, FieldDefinitionView)>) -> bool {
    forall|i: int| 0 <= i < defs.len() ==> (#[trigger] defs[i].1.kind matches FieldKind::DateTimeWithTz { timezone_offset }
        ==> offset_slices_defined(timezone_offset))
}

/// The value an SQLite column of a model reads back as, by the type of
/// its field: a date-time as its RFC 3339 text (in UTC, or at the
/// field's offset); a boolean as whether the integer is 1; integers as
/// they are; a float by its text; strings, text and UUIDs as their text;
/// an array from its JSON string array by the item type (text when there
/// is none); JSON and objects as their JSON text; binary data as its
/// bytes. A column with no field definition, or a field of another type
/// (dates, times, decimals, references), is refused with a validation
/// error about the column; a reading that failed, with a query error.
pub open spec fn sqlite_field_value(name: Seq<char>, def: Option<FieldDefinitionView>, cell: SqliteRead) -> Result<Value, ErrorKind> {
    let refused = Err(ErrorKind::Validation { field: name });
    match def {
        None => refused,
        Some(d) => match d.kind {
            FieldKind::DateTime => match cell {
                SqliteRead::Integer(t) => match sqlite_datetime(t, None) {
                    Ok(x) => Ok(Value::Str(x)),
                    Err(e) => Err(e),
                },
                _ => Err(ErrorKind::Query),
            },
            FieldKind::DateTimeWithTz { timezone_offset } => match cell {
                SqliteRead::Integer(t) => match sqlite_datetime(t, Some(timezone_offset)) {
                    Ok(x) => Ok(Value::Str(x)),
                    Err(e) => Err(e),
                },
                _ => Err(ErrorKind::Query),
            },
            FieldKind::Boolean => match cell {
                SqliteRead::Integer(v) => Ok(Value::Bool(v == 1)),
                _ => Err(ErrorKind::Query),
            },
            FieldKind::Integer | FieldKind::BigInteger => match cell {
                SqliteRead::Integer(v) => Ok(Value::Int(v)),
                _ => Err(ErrorKind::Query),
            },
            FieldKind::Float | FieldKind::Double => match cell {
                SqliteRead::Real(t) => Ok(Value::Float(t@)),
                _ => Err(ErrorKind::Query),
            },
            FieldKind::String { .. } | FieldKind::Text | FieldKind::Uuid => match cell {
                SqliteRead::Text(t) => Ok(Value::Str(t@)),
                _ => Err(ErrorKind::Query),
            },
            FieldKind::Array => match cell {
                SqliteRead::Text(t) => Ok(sqlite_array(
                    match d.item_kind {
                        Some(k) => k,
                        None => FieldKind::Text,
                    },
                    t@,
                )),
                _ => Err(ErrorKind::Query),
            },
            FieldKind::Json | FieldKind::Object => match cell {
                SqliteRead::Text(t) => Ok(Value::Json(t@)),
                _ => Err(ErrorKind::Query),
            },
            FieldKind::Binary => match cell {
                SqliteRead::Bytes(b) => Ok(Value::Bytes(b@)),
                _ => Err(ErrorKind::Query),
            },
            _ => refused,
        },
    }
}

/// The value an SQLite column of a model reads back as (see
/// `sqlite_field_value`).
pub fn sqlite_field_value_of(name: &str, def: Option<&FieldDefinition>, cell: SqliteRead) -> (r: Result<DataValue, QuickDbError>)
    requires
        def matches Some(d) ==> (d.field_type@ matches FieldKind::DateTimeWithTz { timezone_offset }
            ==> offset_slices_defined(timezone_offset)),
    ensures
        match (r, sqlite_field_value(name@, match def { Some(d) => Some(d@), None => None }, cell)) {
            (Ok(x), Ok(y)) => x@ == y,
            (Err(e), Err(k)) => e@ == k,
            _ => false,
        },
{
    let d = match def {
        None => return Err(validation_error(name, "字段未在模型元数据中定义")),
        Some(d) => d,
    };
    match &d.field_type {
        FieldType::DateTime => match cell {
            SqliteRead::Integer(t) => match sqlite_datetime_text(t, None) {
                Ok(x) => Ok(DataValue::String(x)),
                Err(e) => Err(e),
            },
            _ => Err(query_error("读取DateTime字段失败")),
        },
        FieldType::DateTimeWithTz { timezone_offset } => match cell {
            SqliteRead::Integer(t) => match sqlite_datetime_text(t, Some(timezone_offset.as_str())) {
                Ok(x) => Ok(DataValue::String(x)),
                Err(e) => Err(e),
            },
            _ => Err(query_error("读取DateTimeWithTz字段失败")),
        },
        FieldType::Boolean => match cell {
            SqliteRead::Integer(v) => Ok(DataValue::Bool(v == 1)),
            _ => Err(query_error("读取Boolean字段失败")),
        },
        FieldType::Integer | FieldType::BigInteger => match cell {
            SqliteRead::Integer(v) => Ok(DataValue::Int(v)),
            _ => Err(query_error("读取整数字段失败")),
        },
        FieldType::Float | FieldType::Double => match cell {
            SqliteRead::Real(t) => Ok(DataValue::Float(t)),
            _ => Err(query_error("读取浮点数字段失败")),
        },
        FieldType::String { .. } | FieldType::Text | FieldType::Uuid => match cell {
            SqliteRead::Text(t) => Ok(DataValue::String(t)),
            _ => Err(query_error("读取字符串字段失败")),
        },
        FieldType::Array => match cell {
            SqliteRead::Text(t) => match &d.item_type {
                Some(k) => Ok(sqlite_array_value(k, t.as_str())),
                None => Ok(sqlite_array_value(&FieldType::Text, t.as_str())),
            },
            _ => Err(query_error("读取Array字段失败")),
        },
        FieldType::Json | FieldType::Object => match cell {
            SqliteRead::Text(t) => Ok(DataValue::Json(t)),
            _ => Err(query_error("读取JSON字段失败")),
        },
        FieldType::Binary => match cell {
            SqliteRead::Bytes(b) => Ok(DataValue::Bytes(b)),
            _ => Err(query_error("读取二进制字段失败")),
        },
        _ => Err(validation_error(name, "不支持的字段类型")),
    }
}

/// The record an SQLite row of a model reads back as: its columns in
/// order, each under its name with the value `sqlite_field_value` gives
/// by the column's field definition; a name that comes again keeps its
/// first place and takes the later value. The first column that is
/// refused refuses the row.
pub open spec fn sqlite_row(
    columns: Seq<(String, SqliteRead)>,
    defs: Seq<(Seq<char>, FieldDefinitionView)>,
) -> Result<Seq<(Seq<char>, Value)>, ErrorKind>
    decreases columns.len(),
{
    if columns.len() == 0 {
        Ok(Seq::empty())
    } else {
        match sqlite_row(columns.drop_last(), defs) {
            Err(e) => Err(e),
            Ok(m) => match sqlite_field_value(columns.last().0@, field_def_of(defs, columns.last().0@), columns.last().1) {
                Err(e) => Err(e),
                Ok(v) => Ok(doc_insert(m, columns.last().0@, v)),
            },
        }
    }
}

proof fn lemma_sqlite_row_err_at(columns: Seq<(String, SqliteRead)>, defs: Seq<(Seq<char>, FieldDefinitionView)>, k: int, n: int)
    requires
        0 <= k <= n <= columns.len(),
        sqlite_row(columns.subrange(0, k), defs) is Err,
    ensures
        sqlite_row(columns.subrange(0, n), defs) == sqlite_row(columns.subrange(0, k), defs),
    decreases n - k,
{
    if n > k {
        lemma_sqlite_row_err_at(columns, defs, k, n - 1);
        assert(columns.subrange(0, n).drop_last() =~= columns.subrange(0, n - 1));
    }
}

fn field_def_index(fields: &Vec<(String, FieldDefinition)>, name: &str) -> (r: Option<usize>)
    ensures
        match r {
            Some(i) => i < fields.len() && key_index(field_defs_model(fields@), name@) == Some(i as int),
            None => key_index(field_defs_model(fields@), name@) is None,
        },
{
    let ghost d = field_defs_model(fields@);
    let mut i: usize = 0;
    while i < fields.len()
        invariant
            i <= fields.len(),
            d == field_defs_model(fields@),
            forall|j: int| 0 <= j < i ==> d[j].0 != name@,
        decreases fields.len() - i,
    {
        if str_eq(fields[i].0.as_str(), name) {
            proof { crate::mongo::lemma_key_index_first(d, name@, i as int); }
            return Some(i);
        }
        i = i + 1;
    }
    proof {
        crate::mongo::lemma_key_index_bounds(d, name@);
        if let Some(j) = key_index(d, name@) {
            assert(d[j].0 != name@);
        }
    }
    None
}

/// The record an SQLite row of a model reads back as (see `sqlite_row`);
/// no name has two entries.
pub fn sqlite_row_to_data_map(columns: Vec<(String, SqliteRead)>, fields: &Vec<(String, FieldDefinition)>)
    -> (r: Result<Vec<(String, DataValue)>, QuickDbError>)
    requires
        offsets_sliceable(field_defs_model(fields@)),
    ensures
        match (r, sqlite_row(columns@, field_defs_model(fields@))) {
            (Ok(x), Ok(y)) => crate::query_builder::entries_model(x@) == y && keys_unique(y),
            (Err(e), Err(k)) => e@ == k,
            _ => false,
        },
{
    let ghost all = columns@;
    let ghost defs = field_defs_model(fields@);
    let mut rest = columns;
    let n = rest.len();
    let mut out: Vec<(String, DataValue)> = Vec::new();
    let mut i: usize = 0;
    assert(all.subrange(0, 0) =~= Seq::<(String, SqliteRead)>::empty());
    assert(crate::query_builder::entries_model(out@) =~= Seq::<(Seq<char>, Value)>::empty());
    while rest.len() > 0
        invariant
            all == columns@,
            all.len() == n,
            defs == field_defs_model(fields@),
            offsets_sliceable(defs),
            i + rest@.len() == all.len(),
            rest@ == all.subrange(i as int, all.len() as int),
            sqlite_row(all.subrange(0, i as int), defs) == Ok::<Seq<(Seq<char>, Value)>, ErrorKind>(
                crate::query_builder::entries_model(out@),
            ),
            keys_unique(crate::query_builder::entries_model(out@)),
        decreases rest.len(),
    {
        let (name, cell) = rest.remove(0);
        assert(all[i as int] == (name, cell));
        assert(all.subrange(0, i + 1).drop_last() =~= all.subrange(0, i as int));
        assert(all.subrange(0, i + 1).last() == all[i as int]);
        let k = field_def_index(fields, name.as_str());
        let def = match k {
            Some(j) => Some(&fields[j].1),
            None => None,
        };
        proof {
            if let Some(j) = k {
                assert(defs[j as int].1 == fields@[j as int].1@);
                assert(defs[j as int].1.kind == fields@[j as int].1.field_type@);
            }
        }
        assert((match def { Some(d) => Some(d@), None => None }) == field_def_of(defs, name@));
        match sqlite_field_value_of(name.as_str(), def, cell) {
            Err(e) => {
                assert(sqlite_row(all.subrange(0, i + 1), defs) == Err::<Seq<(Seq<char>, Value)>, ErrorKind>(e@));
                proof {
                    lemma_sqlite_row_err_at(all, defs, i + 1, all.len() as int);
                    assert(all.subrange(0, all.len() as int) =~= all);
                }
                return Err(e);
            }
            Ok(v) => {
                let ghost d = crate::query_builder::entries_model(out@);
                proof { lemma_doc_insert_unique(d, name@, v@); }
                record_insert_entry(&mut out, name, v);
            }
        }
        assert(rest@ =~= all.subrange(i + 1, all.len() as int));
        i = i + 1;
    }
    assert(all.subrange(0, n as int) =~= all);
    Ok(out)
}

/// The server version a MySQL `SELECT VERSION()` query gave: the text of
/// its first row, when that row is text or a record whose first field is
/// text; a query error when there is no row or it holds anything else.
pub open spec fn mysql_version(rows: Seq<Value>) -> Result<Seq<char>, ErrorKind> {
    if rows.len() == 0 {
        Err(ErrorKind::Query)
    } else {
        match rows[0] {
            Value::Str(v) => Ok(v),
            Value::Object(fields) => if fields.len() > 0 && fields[0].1 is Str {
                Ok(fields[0].1->Str_0)
            } else {
                Err(ErrorKind::Query)
            },
            _ => Err(ErrorKind::Query),
        }
    }
}

/// The server version a MySQL version query gave (see `mysql_version`).
pub fn mysql_server_version(rows: &Vec<DataValue>) -> (r: Result<String, QuickDbError>)
    ensures
        match (r, mysql_version(rows@.map_values(|v: DataValue| v@))) {
            (Ok(v), Ok(w)) => v@ == w,
            (Err(e), Err(k)) => e@ == k,
            _ => false,
        },
{
    if rows.len() == 0 {
        return Err(query_error("MySQL version query returned no rows"));
    }
    let ghost first = rows@[0]@;
    match &rows[0] {
        DataValue::String(v) => Ok(v.clone()),
        DataValue::Object(fields) => {
            if fields.len() > 0 {
                match &fields[0].1 {
                    DataValue::String(v) => {
                        assert(first->Object_0[0].1 == fields@[0].1@);
                        Ok(v.clone())
                    }
                    _ => {
                        assert(first->Object_0[0].1 == fields@[0].1@);
                        Err(query_error("MySQL version query returned no text version"))
                    }
                }
            } else {
                Err(query_error("MySQL version query returned no text version"))
            }
        }
        _ => Err(query_error("MySQL version query returned a value that is not text")),
    }
}

} // verus!
