//! The JSON objects that callers hand in as a record's fields or as
//! equality conditions, and the test for a JSON query made of condition
//! groups.

use vstd::prelude::*;
use crate::json::{
    json_reading, read_json, json_string_value, read_json_string, json_integer, read_json_integer, json_array_items,
    read_json_array, members_text,
};
use crate::models::str_eq;
use crate::numbers::is_digit;
use crate::query_builder::entries_model;
use crate::types::{DataValue, QueryCondition, QueryOperator, Value, Condition, conditions_model};

verus! {

/// Why a JSON input was refused.
#[derive(Debug)]
pub enum JsonInputError {
    /// The text is not JSON.
    Unreadable,
    /// The JSON is not an object.
    NotObject,
    /// The member under `key` holds an array or an object.
    UnsupportedValue { key: String },
}

/// The model of a [`JsonInputError`].
pub enum JsonInputFault {
    Unreadable,
    NotObject,
    UnsupportedValue(Seq<char>),
}

impl View for JsonInputError {
    type V = JsonInputFault;

    open spec fn view(&self) -> JsonInputFault {
        match self {
            JsonInputError::Unreadable => JsonInputFault::Unreadable,
            JsonInputError::NotObject => JsonInputFault::NotObject,
            JsonInputError::UnsupportedValue { key } => JsonInputFault::UnsupportedValue(key@),
        }
    }
}

/// Whether a compact JSON text is a number: it starts with `-` or a digit.
pub open spec fn number_text(t: Seq<char>) -> bool {
    t.len() > 0 && (t[0] == '-' || is_digit(t[0]))
}

/// The value a member's compact JSON text stands for: null, a boolean, a
/// string, an integer in the range of `i64`, any other number as a float
/// (by its text); `None` for an array or an object.
pub open spec fn json_scalar(t: Seq<char>) -> Option<Value> {
    if t == "null"@ {
        Some(Value::Null)
    } else if t == "true"@ {
        Some(Value::Bool(true))
    } else if t == "false"@ {
        Some(Value::Bool(false))
    } else {
        match json_string_value(t) {
            Some(s) => Some(Value::Str(s)),
            None => match json_integer(t) {
                Some(i) => Some(Value::Int(i)),
                None => if number_text(t) { Some(Value::Float(t)) } else { None },
            },
        }
    }
}

/// The fields of an object's members, in order; the first member that
/// holds an array or an object refuses them all.
pub open spec fn json_fields(ms: Seq<(Seq<char>, Seq<char>)>) -> Result<Seq<(Seq<char>, Value)>, JsonInputFault>
    decreases ms.len(),
{
    if ms.len() == 0 {
        Ok(Seq::empty())
    } else {
        match json_fields(ms.drop_last()) {
            Err(e) => Err(e),
            Ok(fs) => match json_scalar(ms.last().1) {
                Some(v) => Ok(fs.push((ms.last().0, v))),
                None => Err(JsonInputFault::UnsupportedValue(ms.last().0)),
            },
        }
    }
}

/// The fields a JSON text holds: refused when it is not JSON or not an
/// object, and otherwise its members as `json_fields` reads them.
pub open spec fn json_data_map(s: Seq<char>) -> Result<Seq<(Seq<char>, Value)>, JsonInputFault> {
    match json_reading(s) {
        None => Err(JsonInputFault::Unreadable),
        Some((_, None)) => Err(JsonInputFault::NotObject),
        Some((_, Some(ms))) => json_fields(ms),
    }
}

/// Once a prefix of the members is refused, so are all of them, for the
/// same reason.
proof fn lemma_refusal_extends(ms: Seq<(Seq<char>, Seq<char>)>, n: int)
    requires
        0 <= n <= ms.len(),
        json_fields(ms.subrange(0, n)) is Err,
    ensures
        json_fields(ms) == json_fields(ms.subrange(0, n)),
    decreases ms.len() - n,
{
    if n == ms.len() {
        assert(ms.subrange(0, n) =~= ms);
    } else {
        assert(ms.subrange(0, n + 1).drop_last() =~= ms.subrange(0, n));
        lemma_refusal_extends(ms, n + 1);
    }
}

fn starts_like_number(t: &str) -> (b: bool)
    ensures
        b == number_text(t@),
{
    let cs = crate::text::chars_of(t);
    cs.len() > 0 && (cs[0] == '-' || ('0' <= cs[0] && cs[0] <= '9'))
}

/// The value a member's compact JSON text stands for (see `json_scalar`).
fn scalar_value(t: &str) -> (r: Option<DataValue>)
    ensures
        match r {
            Some(v) => json_scalar(t@) == Some(v@),
            None => json_scalar(t@) is None,
        },
{
    if str_eq(t, "null") {
        Some(DataValue::Null)
    } else if str_eq(t, "true") {
        Some(DataValue::Bool(true))
    } else if str_eq(t, "false") {
        Some(DataValue::Bool(false))
    } else {
        match read_json_string(t) {
            Some(s) => Some(DataValue::String(s)),
            None => match read_json_integer(t) {
                Some(i) => Some(DataValue::Int(i)),
                None => if starts_like_number(t) {
                    Some(DataValue::Float(t.to_owned()))
                } else {
                    None
                },
            },
        }
    }
}

/// The fields a JSON object holds, each under its key: strings, booleans
/// and nulls as they are, integers that fit in an `i64` as integers and
/// other numbers as floats; refused when the text is not JSON, not an
/// object, or a member holds an array or an object (see
/// `json_data_map`).
pub fn parse_json_to_data_map(json_str: &str) -> (r: Result<Vec<(String, DataValue)>, JsonInputError>)
    ensures
        match (r, json_data_map(json_str@)) {
            (Ok(v), Ok(fs)) => entries_model(v@) == fs,
            (Err(e), Err(f)) => e@ == f,
            _ => false,
        },
{
    match read_json(json_str) {
        None => Err(JsonInputError::Unreadable),
        Some((_, None)) => Err(JsonInputError::NotObject),
        Some((_, Some(members))) => {
            let ghost ms = members_text(Some(members))->0;
            assert(json_data_map(json_str@) == json_fields(ms));
            let mut out: Vec<(String, DataValue)> = Vec::new();
            let mut i: usize = 0;
            assert(ms.subrange(0, 0) =~= Seq::<(Seq<char>, Seq<char>)>::empty());
            assert(entries_model(out@) =~= Seq::<(Seq<char>, Value)>::empty());
            while i < members.len()
                invariant
                    i <= members.len(),
                    ms == members@.map_values(|m: (String, String)| (m.0@, m.1@)),
                    json_data_map(json_str@) == json_fields(ms),
                    json_fields(ms.subrange(0, i as int)) == Ok::<Seq<(Seq<char>, Value)>, JsonInputFault>(
                        entries_model(out@),
                    ),
                decreases members.len() - i,
            {
                assert(ms.subrange(0, i + 1).drop_last() =~= ms.subrange(0, i as int));
                assert(ms.subrange(0, i + 1).last() == ms[i as int]);
                match scalar_value(members[i].1.as_str()) {
                    Some(v) => {
                        let k = members[i].0.clone();
                        assert(ms[i as int] == (members@[i as int].0@, members@[i as int].1@));
                        let ghost before = entries_model(out@);
                        out.push((k, v));
                        assert(entries_model(out@) =~= before.push((ms[i as int].0, v@)));
                    }
                    None => {
                        let k = members[i].0.clone();
                        assert(ms[i as int] == (members@[i as int].0@, members@[i as int].1@));
                        assert(json_scalar(ms[i as int].1) is None);
                        assert(json_fields(ms.subrange(0, i + 1)) == Err::<Seq<(Seq<char>, Value)>, JsonInputFault>(
                            JsonInputFault::UnsupportedValue(k@),
                        ));
                        proof {
                            lemma_refusal_extends(ms, i + 1);
                        }
                        return Err(JsonInputError::UnsupportedValue { key: k });
                    }
                }
                i = i + 1;
            }
            assert(ms.subrange(0, members.len() as int) =~= ms);
            Ok(out)
        }
    }
}

/// Equality conditions on fields, one for each field in order.
pub open spec fn equality_conditions(fs: Seq<(Seq<char>, Value)>) -> Seq<Condition> {
    fs.map_values(
        |f: (Seq<char>, Value)| Condition { field: f.0, operator: QueryOperator::Eq, value: f.1, case_insensitive: false },
    )
}

/// The equality conditions a JSON object stands for: one `field = value`
/// condition for each of the fields that `parse_json_to_data_map` reads,
/// and refused when it refuses.
pub fn parse_conditions_json(json_str: &str) -> (r: Result<Vec<QueryCondition>, JsonInputError>)
    ensures
        match (r, json_data_map(json_str@)) {
            (Ok(v), Ok(fs)) => conditions_model(v@) == equality_conditions(fs),
            (Err(e), Err(f)) => e@ == f,
            _ => false,
        },
{
    match parse_json_to_data_map(json_str) {
        Err(e) => Err(e),
        Ok(fields) => {
            let ghost fs = entries_model(fields@);
            let mut out: Vec<QueryCondition> = Vec::new();
            let mut i: usize = 0;
            while i < fields.len()
                invariant
                    i <= fields.len(),
                    fs == entries_model(fields@),
                    conditions_model(out@) =~= equality_conditions(fs.subrange(0, i as int)),
                decreases fields.len() - i,
            {
                let c = QueryCondition {
                    field: fields[i].0.clone(),
                    operator: QueryOperator::Eq,
                    value: fields[i].1.duplicate(),
                };
                let ghost before = conditions_model(out@);
                out.push(c);
                assert(fs[i as int] == (fields@[i as int].0@, fields@[i as int].1@));
                assert(conditions_model(out@) =~= before.push(c@));
                assert(fs.subrange(0, i + 1) =~= fs.subrange(0, i as int).push(fs[i as int]));
                assert(equality_conditions(fs.subrange(0, i + 1)) =~= equality_conditions(fs.subrange(0, i as int)).push(c@));
                i = i + 1;
            }
            assert(fs.subrange(0, fields.len() as int) =~= fs);
            Ok(out)
        }
    }
}

/// Whether members hold the key `k`.
pub open spec fn has_key(ms: Seq<(Seq<char>, Seq<char>)>, k: Seq<char>) -> bool {
    exists|i: int| 0 <= i < ms.len() && #[trigger] ms[i].0 == k
}

/// Whether a JSON text is an object with both an `operator` and a
/// `conditions` member.
pub open spec fn group_object(t: Seq<char>) -> bool {
    match json_reading(t) {
        Some((_, Some(ms))) => has_key(ms, "operator"@) && has_key(ms, "conditions"@),
        _ => false,
    }
}

/// Whether a JSON query is made of condition groups: an object with
/// `operator` and `conditions` members, or an array with at least one
/// such object among its items.
pub open spec fn condition_groups_query(s: Seq<char>) -> bool {
    match json_reading(s) {
        None => false,
        Some((_, Some(ms))) => has_key(ms, "operator"@) && has_key(ms, "conditions"@),
        Some((_, None)) => match json_array_items(s) {
            Some(items) => exists|k: int| 0 <= k < items.len() && #[trigger] group_object(items[k]),
            None => false,
        },
    }
}

fn members_have_key(members: &Vec<(String, String)>, key: &str) -> (b: bool)
    ensures
        b == has_key(members@.map_values(|m: (String, String)| (m.0@, m.1@)), key@),
{
    let ghost ms = members@.map_values(|m: (String, String)| (m.0@, m.1@));
    let mut i: usize = 0;
    while i < members.len()
        invariant
            i <= members.len(),
            ms == members@.map_values(|m: (String, String)| (m.0@, m.1@)),
            forall|j: int| 0 <= j < i ==> #[trigger] ms[j].0 != key@,
        decreases members.len() - i,
    {
        if str_eq(members[i].0.as_str(), key) {
            assert(ms[i as int].0 == key@);
            return true;
        }
        i = i + 1;
    }
    false
}

fn is_group_object(t: &str) -> (b: bool)
    ensures
        b == group_object(t@),
{
    match read_json(t) {
        Some((_, Some(ms))) => members_have_key(&ms, "operator") && members_have_key(&ms, "conditions"),
        _ => false,
    }
}

/// Whether a JSON query is made of condition groups (see
/// `condition_groups_query`); text that is not JSON is not.
pub fn is_condition_groups_query(json_str: &str) -> (b: bool)
    ensures
        b == condition_groups_query(json_str@),
{
    match read_json(json_str) {
        None => false,
        Some((_, Some(ms))) => members_have_key(&ms, "operator") && members_have_key(&ms, "conditions"),
        Some((top, None)) => match read_json_array(json_str) {
            None => false,
            Some(items) => {
                assert(json_reading(json_str@) == Some((top@, None::<Seq<(Seq<char>, Seq<char>)>>)));
                let ghost its = items@.map_values(|t: String| t@);
                assert(json_array_items(json_str@) == Some(its));

                let mut i: usize = 0;
                while i < items.len()
                    invariant
                        i <= items.len(),
                        its == items@.map_values(|t: String| t@),
                        json_reading(json_str@) == Some((top@, None::<Seq<(Seq<char>, Seq<char>)>>)),
                        json_array_items(json_str@) == Some(its),
                        forall|j: int| 0 <= j < i ==> !#[trigger] group_object(its[j]),
                    decreases items.len() - i,
                {
                    if is_group_object(items[i].as_str()) {
                        let ghost read_items = json_array_items(json_str@)->0;
                        assert(read_items == its);
                        assert(group_object(read_items[i as int]));
                        return true;
                    }
                    i = i + 1;
                }
                false
            }
        },
    }
}

} // verus!
