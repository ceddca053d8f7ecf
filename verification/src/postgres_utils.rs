//! PostgreSQL JSONB helpers: which operator a JSON field condition uses,
//! and how a value is prepared for a JSONB query.

use vstd::prelude::*;
use vstd::utf8::encode_utf8;
use crate::error::{QuickDbError, ErrorKind, validation_error};
use crate::render::{
    bool_text, display_text, float_json, json_string, json_text, null_text, timestamp_text,
    uuid_text, push_display, push_float_json, push_json, push_json_string, push_timestamp, push_uuid,
};
use crate::text::{chars_of, decimal, join, push_char, push_decimal, push_signed_decimal, signed_decimal, trim_start, trim_start_index};
use crate::json::{json_reading, read_json};
use crate::types::{DataValue, Value};

verus! {

/// The compact text of the JSON value that serde_json reads from `s`;
/// `None` when `s` is not valid JSON.
pub open spec fn json_reparse(s: Seq<char>) -> Option<Seq<char>> {
    match json_reading(s) {
        None => None,
        Some((t, _)) => Some(t),
    }
}

/// The compact text of the JSON value read from `s` (see
/// `json_reparse`).
fn reparse_json(s: &str) -> (r: Option<String>)
    ensures
        (match r { Some(t) => Some(t@), None => None }) == json_reparse(s@),
{
    match read_json(s) {
        Some((t, _)) => Some(t),
        None => None,
    }
}

/// The standard base64 text (with padding) of some bytes.
pub uninterp spec fn base64_standard(bytes: Seq<u8>) -> Seq<char>;

/// Calls `Engine::encode` of base64's `STANDARD` engine. Its result is
/// named by `base64_standard`.
#[verifier::external_body]
pub(crate) fn encode_base64(bytes: &[u8]) -> (r: String)
    ensures
        r@ == base64_standard(bytes@),
{
    base64::Engine::encode(&base64::engine::general_purpose::STANDARD, bytes)
}

/// Whether a string, once its leading whitespace is dropped, starts with
/// `{` and ends with `}`, or starts with `[` and ends with `]`.
pub open spec fn looks_like_json(s: Seq<char>) -> bool {
    let t = trim_start(s);
    t.len() > 0 && ((t[0] == '{' && t.last() == '}') || (t[0] == '[' && t.last() == ']'))
}

/// Whether `s` looks like a JSON object or array.
pub fn looks_like_json_text(s: &str) -> (b: bool)
    ensures
        b == looks_like_json(s@),
{
    let cs = chars_of(s);
    let i = trim_start_index(&cs);
    let n = cs.len();
    if i == n {
        return false;
    }
    let ghost t = cs@.subrange(i as int, n as int);
    assert(t[0] == cs@[i as int]);
    assert(t.last() == cs@[n - 1]);
    (cs[i] == '{' && cs[n - 1] == '}') || (cs[i] == '[' && cs[n - 1] == ']')
}

/// `%s%`, the LIKE pattern that matches any text containing `s`.
pub open spec fn like_anywhere(s: Seq<char>) -> Seq<char> {
    seq!['%'] + s + seq!['%']
}

pub fn like_anywhere_string(s: &str) -> (r: String)
    ensures
        r@ == like_anywhere(s@),
{
    let mut r = String::new();
    push_char(&mut r, '%');
    r.append(s);
    push_char(&mut r, '%');
    assert(r@ =~= like_anywhere(s@));
    r
}

/// The JSON text of an array item in a JSONB containment query: strings,
/// numbers, booleans and null as JSON, anything else as a JSON string of
/// its display text.
pub open spec fn array_item_json(v: Value) -> Seq<char> {
    match v {
        Value::Str(s) => json_string(s),
        Value::Int(i) => signed_decimal(i as int),
        Value::UInt(u) => decimal(u as nat),
        Value::Float(t) => float_json(t),
        Value::Bool(b) => bool_text(b),
        Value::Null => null_text(),
        _ => json_string(display_text(v)),
    }
}

pub open spec fn array_items_json(items: Seq<Value>) -> Seq<Seq<char>> {
    Seq::new(items.len(), |k: int| array_item_json(items[k]))
}

/// The SQL condition and its parameter for a JSON field compared with
/// `value`, the placeholder `ph` standing for the parameter.
pub open spec fn json_query_condition(field: Seq<char>, value: Value, ph: Seq<char>) -> (Seq<char>, Value) {
    let contains = field + seq![' ', '@', '>', ' '] + ph;
    let text_search = field + seq![':', ':', 't', 'e', 'x', 't', ' ', 'I', 'L', 'I', 'K', 'E', ' '] + ph;
    match value {
        Value::Str(s) => if looks_like_json(s) {
            match json_reparse(s) {
                Some(j) => (contains, Value::Json(j)),
                None => (text_search, Value::Str(like_anywhere(s))),
            }
        } else {
            (text_search, Value::Str(like_anywhere(s)))
        },
        Value::Int(i) => (contains, Value::Json(signed_decimal(i as int))),
        Value::UInt(u) => (contains, Value::Json(decimal(u as nat))),
        Value::Float(t) => (contains, Value::Json(float_json(t))),
        Value::Bool(b) => (contains, Value::Json(bool_text(b))),
        Value::Null => (field + seq![' ', 'I', 'S', ' ', 'N', 'U', 'L', 'L'], Value::Null),
        Value::Json(j) => (contains, Value::Json(j)),
        Value::Array(items) => (contains, Value::Json(seq!['['] + join(array_items_json(items), seq![',']) + seq![']'])),
        _ => (text_search, Value::Str(like_anywhere(display_text(value)))),
    }
}

fn push_array_item_json(out: &mut String, v: &DataValue)
    ensures
        final(out)@ == old(out)@ + array_item_json(v@),
{
    match v {
        DataValue::String(s) => push_json_string(out, s.as_str()),
        DataValue::Int(i) => push_signed_decimal(out, *i),
        DataValue::UInt(u) => push_decimal(out, *u),
        DataValue::Float(t) => push_float_json(out, t.as_str()),
        DataValue::Bool(b) => {
            proof {
                reveal_strlit("true");
                reveal_strlit("false");
            }
            if *b { out.append("true") } else { out.append("false") }
        }
        DataValue::Null => {
            proof { reveal_strlit("null"); }
            out.append("null")
        }
        _ => {
            let mut text = String::new();
            push_display(&mut text, v);
            push_json_string(out, text.as_str());
        }
    }
}

fn str_lit(s: &str) -> (r: String)
    ensures
        r@ == s@,
{
    s.to_owned()
}

/// Chooses how a JSON field is compared with `value` in PostgreSQL:
/// JSONB containment (`@>`) for JSON-looking strings that parse, numbers,
/// booleans, JSON values and arrays; a text search (`::text ILIKE`) for
/// other strings and other values; `IS NULL` for null.
pub fn build_json_query_condition(field_name: &str, value: &DataValue, placeholder: &str)
    -> (r: Result<(String, DataValue), QuickDbError>)
    ensures
        r matches Ok(p) && p.0@ == json_query_condition(field_name@, value@, placeholder@).0
            && p.1@ == json_query_condition(field_name@, value@, placeholder@).1,
{
    proof {
        reveal_strlit(" @> ");
        reveal_strlit("::text ILIKE ");
        reveal_strlit(" IS NULL");
    }
    let mut contains = str_lit(field_name);
    contains.append(" @> ");
    contains.append(placeholder);
    let mut text_search = str_lit(field_name);
    text_search.append("::text ILIKE ");
    text_search.append(placeholder);
    assert(contains@ =~= field_name@ + seq![' ', '@', '>', ' '] + placeholder@);
    assert(text_search@ =~= field_name@ + seq![':', ':', 't', 'e', 'x', 't', ' ', 'I', 'L', 'I', 'K', 'E', ' '] + placeholder@);
    match value {
        DataValue::String(s) => {
            if looks_like_json_text(s.as_str()) {
                match reparse_json(s.as_str()) {
                    Some(j) => Ok((contains, DataValue::Json(j))),
                    None => Ok((text_search, DataValue::String(like_anywhere_string(s.as_str())))),
                }
            } else {
                Ok((text_search, DataValue::String(like_anywhere_string(s.as_str()))))
            }
        }
        DataValue::Int(i) => {
            let mut j = String::new();
            push_signed_decimal(&mut j, *i);
            Ok((contains, DataValue::Json(j)))
        }
        DataValue::UInt(u) => {
            let mut j = String::new();
            push_decimal(&mut j, *u);
            Ok((contains, DataValue::Json(j)))
        }
        DataValue::Float(t) => {
            let mut j = String::new();
            push_float_json(&mut j, t.as_str());
            Ok((contains, DataValue::Json(j)))
        }
        DataValue::Bool(b) => {
            proof {
                reveal_strlit("true");
                reveal_strlit("false");
            }
            let j = if *b { str_lit("true") } else { str_lit("false") };
            assert(j@ =~= bool_text(*b));
            Ok((contains, DataValue::Json(j)))
        }
        DataValue::Null => {
            let mut sql = str_lit(field_name);
            sql.append(" IS NULL");
            assert(sql@ =~= field_name@ + seq![' ', 'I', 'S', ' ', 'N', 'U', 'L', 'L']);
            Ok((sql, DataValue::Null))
        }
        DataValue::Json(j) => Ok((contains, DataValue::Json(j.clone()))),
        DataValue::Array(items) => {
            let ghost m = value@->Array_0;
            let ghost parts = array_items_json(m);
            assert(m.len() == items@.len());
            let mut j = String::new();
            push_char(&mut j, '[');
            let mut i: usize = 0;
            while i < items.len()
                invariant
                    i <= items.len(),
                    m == value@->Array_0,
                    parts == array_items_json(m),
                    m.len() == items@.len(),
                    value@ == (Value::Array(m)),
                    *value == DataValue::Array(*items),
                    j@ == seq!['['] + join(parts.subrange(0, i as int), seq![',']),
                decreases items.len() - i,
            {
                if i > 0 {
                    push_char(&mut j, ',');
                }
                push_array_item_json(&mut j, &items[i]);
                assert(m[i as int] == items@[i as int]@);
                assert(parts.subrange(0, i + 1).drop_last() =~= parts.subrange(0, i as int));
                i = i + 1;
            }
            assert(parts.subrange(0, items.len() as int) =~= parts);
            push_char(&mut j, ']');
            assert(j@ =~= seq!['['] + join(parts, seq![',']) + seq![']']);
            Ok((contains, DataValue::Json(j)))
        }
        _ => {
            let mut text = String::new();
            push_display(&mut text, value);
            Ok((text_search, DataValue::String(like_anywhere_string(text.as_str()))))
        }
    }
}


/// The largest JSONB query text, in bytes.
pub const MAX_JSONB_LENGTH: usize = 1048576;

/// The UTF-8 length of a text.
pub open spec fn utf8_len(s: Seq<char>) -> nat {
    encode_utf8(s).len()
}

/// What a value becomes for a JSONB query: strings stay as they are when
/// they are valid JSON objects or arrays and become `%s%` patterns
/// otherwise; numbers, booleans, null, instants and UUIDs become their
/// text; arrays, objects and JSON become their JSON text; bytes become a
/// quoted base64 string. Strings and JSON over 1 MiB, arrays and objects
/// with more than 1000 members or over 1 MiB of JSON, and bytes over
/// 1 KiB are refused with a validation error.
pub open spec fn jsonb_value(v: Value) -> Result<Value, ErrorKind> {
    match v {
        Value::Str(s) => if utf8_len(s) > MAX_JSONB_LENGTH {
            Err(ErrorKind::Validation { field: "jsonb_value"@ })
        } else {
            Ok(Value::Str(jsonb_text(s, json_reparse(s) is Some)))
        },
        Value::Int(i) => Ok(Value::Str(signed_decimal(i as int))),
        Value::Float(t) => Ok(Value::Str(t)),
        Value::Bool(b) => Ok(Value::Str(bool_text(b))),
        Value::Null => Ok(Value::Str(null_text())),
        Value::Array(items) => if items.len() > 1000 || utf8_len(json_text(v)) > MAX_JSONB_LENGTH {
            Err(ErrorKind::Validation { field: "jsonb_array"@ })
        } else {
            Ok(Value::Str(json_text(v)))
        },
        Value::Object(entries) => if entries.len() > 1000 || utf8_len(json_text(v)) > MAX_JSONB_LENGTH {
            Err(ErrorKind::Validation { field: "jsonb_object"@ })
        } else {
            Ok(Value::Str(json_text(v)))
        },
        Value::Json(j) => if utf8_len(j) > MAX_JSONB_LENGTH {
            Err(ErrorKind::Validation { field: "jsonb_value"@ })
        } else {
            Ok(Value::Str(j))
        },
        Value::UInt(u) => Ok(Value::Str(decimal(u as nat))),
        Value::DateTime(t) => Ok(Value::Str(timestamp_text(t.seconds, t.nanos, t.offset_seconds))),
        Value::DateTimeUTC(t) => Ok(Value::Str(timestamp_text(t.seconds, t.nanos, 0))),
        Value::Uuid(u) => Ok(Value::Str(uuid_text(u))),
        Value::Bytes(b) => if b.len() > 1024 {
            Err(ErrorKind::Validation { field: "jsonb_bytes"@ })
        } else {
            Ok(Value::Str(seq!['"'] + base64_standard(b) + seq!['"']))
        },
    }
}

/// The JSONB query text of a string, given whether serde_json reads it
/// as JSON: the string itself when it looks like a JSON object or array
/// and reads as JSON, and otherwise the string as a pattern matching it
/// anywhere (`%s%`).
pub open spec fn jsonb_text(s: Seq<char>, readable: bool) -> Seq<char> {
    if looks_like_json(s) && readable { s } else { like_anywhere(s) }
}

/// The JSONB query text of a string (see `jsonb_text`), given whether it
/// reads as JSON.
pub fn jsonb_text_of(s: &str, readable: bool) -> (r: String)
    ensures
        r@ == jsonb_text(s@, readable),
{
    if looks_like_json_text(s) && readable {
        s.to_owned()
    } else {
        like_anywhere_string(s)
    }
}

/// The length of `s` in bytes (`str::len`).
#[verifier::external_body]
pub(crate) fn byte_len(s: &str) -> (n: usize)
    ensures
        n == utf8_len(s@),
{
    s.len()
}

/// Whether a value result matches its model.
pub open spec fn value_result_matches(r: Result<DataValue, QuickDbError>, m: Result<Value, ErrorKind>) -> bool {
    match (r, m) {
        (Ok(x), Ok(y)) => x@ == y,
        (Err(e), Err(k)) => e@ == k,
        _ => false,
    }
}

/// Prepares a value for a PostgreSQL JSONB query (see `jsonb_value`).
pub fn convert_to_jsonb_value(value: &DataValue) -> (r: Result<DataValue, QuickDbError>)
    ensures
        value_result_matches(r, jsonb_value(value@)),
{
    match value {
        DataValue::String(s) => {
            if byte_len(s.as_str()) > MAX_JSONB_LENGTH {
                return Err(validation_error("jsonb_value", "JSONB查询值过长，最大允许1048576字节"));
            }
            let readable = if looks_like_json_text(s.as_str()) {
                reparse_json(s.as_str()).is_some()
            } else {
                false
            };
            Ok(DataValue::String(jsonb_text_of(s.as_str(), readable)))
        }
        DataValue::Int(i) => {
            let mut t = String::new();
            push_signed_decimal(&mut t, *i);
            Ok(DataValue::String(t))
        }
        DataValue::Float(t) => Ok(DataValue::String(t.clone())),
        DataValue::Bool(b) => {
            proof {
                reveal_strlit("true");
                reveal_strlit("false");
            }
            let t = if *b { str_lit("true") } else { str_lit("false") };
            assert(t@ =~= bool_text(*b));
            Ok(DataValue::String(t))
        }
        DataValue::Null => {
            proof { reveal_strlit("null"); }
            let t = str_lit("null");
            assert(t@ =~= null_text());
            Ok(DataValue::String(t))
        }
        DataValue::Array(items) => {
            if items.len() > 1000 {
                return Err(validation_error("jsonb_array", "JSONB查询数组元素过多，最大允许1000个元素"));
            }
            let mut t = String::new();
            push_json(&mut t, value);
            if byte_len(t.as_str()) > MAX_JSONB_LENGTH {
                return Err(validation_error("jsonb_array", "JSONB查询数组过长，最大允许1048576字节"));
            }
            Ok(DataValue::String(t))
        }
        DataValue::Object(entries) => {
            if entries.len() > 1000 {
                return Err(validation_error("jsonb_object", "JSONB查询对象字段过多，最大允许1000个字段"));
            }
            let mut t = String::new();
            push_json(&mut t, value);
            if byte_len(t.as_str()) > MAX_JSONB_LENGTH {
                return Err(validation_error("jsonb_object", "JSONB查询对象过长，最大允许1048576字节"));
            }
            Ok(DataValue::String(t))
        }
        DataValue::Json(j) => {
            if byte_len(j.as_str()) > MAX_JSONB_LENGTH {
                return Err(validation_error("jsonb_value", "JSONB查询值过长，最大允许1048576字节"));
            }
            Ok(DataValue::String(j.clone()))
        }
        DataValue::UInt(u) => {
            let mut t = String::new();
            push_decimal(&mut t, *u);
            Ok(DataValue::String(t))
        }
        DataValue::DateTime(ts) => {
            let mut t = String::new();
            push_timestamp(&mut t, ts.seconds, ts.nanos, ts.offset_seconds);
            Ok(DataValue::String(t))
        }
        DataValue::DateTimeUTC(ts) => {
            let mut t = String::new();
            push_timestamp(&mut t, ts.seconds, ts.nanos, 0);
            Ok(DataValue::String(t))
        }
        DataValue::Uuid(u) => {
            let mut t = String::new();
            push_uuid(&mut t, *u);
            Ok(DataValue::String(t))
        }
        DataValue::Bytes(b) => {
            if b.len() > 1024 {
                return Err(validation_error("jsonb_bytes", "二进制数据过大，不能用于JSONB查询"));
            }
            let mut t = String::new();
            push_char(&mut t, '"');
            let encoded = encode_base64(b.as_slice());
            t.append(encoded.as_str());
            push_char(&mut t, '"');
            assert(t@ =~= seq!['"'] + base64_standard(b@) + seq!['"']);
            Ok(DataValue::String(t))
        }
    }
}

/// The JSON text of a number or a boolean: an integer in decimal, a
/// float by its text (`null` when it is not finite), `true` or `false`.
pub open spec fn scalar_json_text(v: Value) -> Option<Seq<char>> {
    match v {
        Value::Int(i) => Some(signed_decimal(i as int)),
        Value::UInt(u) => Some(decimal(u as nat)),
        Value::Float(t) => Some(float_json(t)),
        Value::Bool(b) => Some(if b { seq!['t', 'r', 'u', 'e'] } else { seq!['f', 'a', 'l', 's', 'e'] }),
        _ => None,
    }
}

/// A JSON field compared with a number or a boolean is matched by JSONB
/// containment, `field @> placeholder`, with the value's JSON text as a
/// JSON parameter; the `::text ILIKE` search is used only for strings
/// that are not JSON objects or arrays serde_json reads, and for values
/// that are shown by their text (date-times, UUIDs, bytes, records).
pub proof fn law_json_condition_kinds(f: Seq<char>, v: Value, p: Seq<char>)
    ensures
        scalar_json_text(v) matches Some(t) ==> json_query_condition(f, v, p)
            == (f + seq![' ', '@', '>', ' '] + p, Value::Json(t)),
        json_query_condition(f, v, p).0 == f + seq![':', ':', 't', 'e', 'x', 't', ' ', 'I', 'L', 'I', 'K', 'E', ' '] + p
            ==> (v is Str && !(looks_like_json(v->Str_0) && json_reparse(v->Str_0) is Some)) || v is DateTime
                || v is DateTimeUTC || v is Uuid || v is Bytes || v is Object,
{
    reveal_strlit("true");
    reveal_strlit("false");
    let contains = f + seq![' ', '@', '>', ' '] + p;
    let text = f + seq![':', ':', 't', 'e', 'x', 't', ' ', 'I', 'L', 'I', 'K', 'E', ' '] + p;
    assert(contains[f.len() as int + 1] == '@');
    assert(text[f.len() as int + 1] == ':');
    assert(contains != text);
    let null_clause = f + seq![' ', 'I', 'S', ' ', 'N', 'U', 'L', 'L'];
    if null_clause == text {
        assert(null_clause[f.len() as int + 1] == 'I');
    }
    assert(null_clause != text);
    if let Value::Bool(b) = v {
        assert(bool_text(b) =~= (if b { seq!['t', 'r', 'u', 'e'] } else { seq!['f', 'a', 'l', 's', 'e'] }));
    }
}

} // verus!
