//! Reading JSON text with serde_json.

use vstd::prelude::*;

verus! {

/// What serde_json reads a text as: `None` when it is not JSON, and
/// otherwise the compact text of the value read (`Value::to_string`)
/// together with, for an object, its members in the order of
/// serde_json's map, each key with the compact text of its value.
pub uninterp spec fn json_reading(s: Seq<char>) -> Option<(Seq<char>, Option<Seq<(Seq<char>, Seq<char>)>>)>;

/// The model of the members of an object.
pub open spec fn members_text(ms: Option<Vec<(String, String)>>) -> Option<Seq<(Seq<char>, Seq<char>)>> {
    match ms {
        None => None,
        Some(v) => Some(v@.map_values(|m: (String, String)| (m.0@, m.1@))),
    }
}

/// The model of a reading.
pub open spec fn reading_view(r: Option<(String, Option<Vec<(String, String)>>)>) -> Option<(Seq<char>, Option<Seq<(Seq<char>, Seq<char>)>>)> {
    match r {
        None => None,
        Some((t, ms)) => Some((t@, members_text(ms))),
    }
}

/// Calls `serde_json::from_str::<serde_json::Value>`; on success gives
/// `Value::to_string` of the value and, for an object, each member's key
/// with `Value::to_string` of its value. The result is named by
/// `json_reading`.
#[verifier::external_body]
pub(crate) fn read_json(s: &str) -> (r: Option<(String, Option<Vec<(String, String)>>)>)
    ensures
        reading_view(r) == json_reading(s@),
{
    match serde_json::from_str::<serde_json::Value>(s) {
        Ok(v) => Some((v.to_string(), v.as_object().map(|m| m.iter().map(|(k, x)| (k.clone(), x.to_string())).collect()))),
        Err(_) => None,
    }
}

/// What `serde_json::from_str::<String>` reads a text as: `None` when
/// it is not a JSON string, and otherwise the string it holds.
pub uninterp spec fn json_string_value(s: Seq<char>) -> Option<Seq<char>>;

/// Calls `serde_json::from_str::<String>`: the unescaped string a JSON
/// string literal holds, `None` for any other text. The result is named
/// by `json_string_value`.
#[verifier::external_body]
pub(crate) fn read_json_string(s: &str) -> (r: Option<String>)
    ensures
        match r {
            Some(t) => json_string_value(s@) == Some(t@),
            None => json_string_value(s@) is None,
        },
{
    serde_json::from_str::<String>(s).ok()
}

/// What `serde_json::from_str::<i64>` reads a text as: `None` when it is
/// not a JSON integer that fits in an `i64`.
pub uninterp spec fn json_integer(s: Seq<char>) -> Option<i64>;

/// Calls `serde_json::from_str::<i64>`: the integer a JSON number holds
/// when it is an integer in the range of `i64`, `None` otherwise. The
/// result is named by `json_integer`.
#[verifier::external_body]
pub(crate) fn read_json_integer(s: &str) -> (r: Option<i64>)
    ensures
        r == json_integer(s@),
{
    serde_json::from_str::<i64>(s).ok()
}

/// What `serde_json::from_str::<Vec<serde_json::Value>>` reads a text
/// as: `None` when it is not a JSON array, and otherwise the compact text
/// of each item (`Value::to_string`), in order.
pub uninterp spec fn json_array_items(s: Seq<char>) -> Option<Seq<Seq<char>>>;

/// Calls `serde_json::from_str::<Vec<serde_json::Value>>` and gives
/// `Value::to_string` of each item. The result is named by
/// `json_array_items`.
#[verifier::external_body]
pub(crate) fn read_json_array(s: &str) -> (r: Option<Vec<String>>)
    ensures
        match r {
            Some(v) => json_array_items(s@) == Some(v@.map_values(|t: String| t@)),
            None => json_array_items(s@) is None,
        },
{
    serde_json::from_str::<Vec<serde_json::Value>>(s).ok().map(|v| v.iter().map(|x| x.to_string()).collect())
}

/// What `serde_json::to_string_pretty` writes for the value that
/// `serde_json::from_str::<serde_json::Value>` reads from a text: `None`
/// when the text is not JSON.
pub uninterp spec fn pretty_json_text(s: Seq<char>) -> Option<Seq<char>>;

/// Reads a JSON text with `serde_json::from_str::<serde_json::Value>` and
/// writes the value again with `serde_json::to_string_pretty` (members
/// in the order of serde_json's map, two spaces of indentation). The
/// result is named by `pretty_json_text`.
#[verifier::external_body]
pub(crate) fn pretty_json(s: &str) -> (r: Option<String>)
    ensures
        match r {
            Some(t) => pretty_json_text(s@) == Some(t@),
            None => pretty_json_text(s@) is None,
        },
{
    serde_json::from_str::<serde_json::Value>(s).ok().and_then(|v| serde_json::to_string_pretty(&v).ok())
}

} // verus!
