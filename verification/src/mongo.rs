//! The document-store query builder: condition lists and condition trees
//! become query documents, with field kinds deciding how Contains and IN
//! are written.

use vstd::prelude::*;
use crate::error::{QuickDbError, ErrorKind, validation_error};
use crate::models::{FieldKind, FieldType, ModelRegistry, ModelView, field_kind, get_field_type};
use crate::render::{push_uuid, uuid_text};
use crate::json::{json_reading, read_json};
use crate::text::{chars_contain, chars_of, contains_seq, decimal, push_char, push_decimal};
use crate::update_operations::{OperationView, UpdateOperation, UpdateOperator, operations_model};
use crate::types::{
    DataValue, Value, UtcTimestamp, Condition, Group, QueryCondition, QueryConditionGroup, QueryOperator, LogicalOperator,
    values_model, conditions_model, groups_model,
};

verus! {

/// A value in a query document.
///
/// `Double` holds the decimal text of a 64-bit float; `DateTime` holds
/// the instant in UTC; `Json` holds the JSON text of a value that the
/// driver converts to BSON as it stands (an object becomes a document);
/// `ObjectId` holds the 24 lowercase hex digits of an object id.
#[derive(Debug, PartialEq)]
pub enum Bson {
    String(String),
    Int64(i64),
    Double(String),
    Boolean(bool),
    DateTime(UtcTimestamp),
    Document(Vec<(String, Bson)>),
    Array(Vec<Bson>),
    Null,
    Binary(Vec<u8>),
    Json(String),
    ObjectId(String),
}

/// The model of a [`Bson`] value.
pub enum BsonValue {
    Str(Seq<char>),
    Int64(i64),
    Double(Seq<char>),
    Boolean(bool),
    DateTime(UtcTimestamp),
    Document(Seq<(Seq<char>, BsonValue)>),
    Array(Seq<BsonValue>),
    Null,
    Binary(Seq<u8>),
    Json(Seq<char>),
    ObjectId(Seq<char>),
}

impl Bson {
    pub open spec fn model(&self) -> BsonValue
        decreases self,
    {
        match self {
            Bson::String(s) => BsonValue::Str(s@),
            Bson::Int64(i) => BsonValue::Int64(*i),
            Bson::Double(t) => BsonValue::Double(t@),
            Bson::Boolean(b) => BsonValue::Boolean(*b),
            Bson::DateTime(t) => BsonValue::DateTime(*t),
            Bson::Document(es) => BsonValue::Document(Seq::new(
                es@.len(),
                |i: int| if 0 <= i < es@.len() { (es@[i].0@, es@[i].1.model()) } else { (Seq::empty(), BsonValue::Null) },
            )),
            Bson::Array(items) => BsonValue::Array(Seq::new(
                items@.len(),
                |i: int| if 0 <= i < items@.len() { items@[i].model() } else { BsonValue::Null },
            )),
            Bson::Null => BsonValue::Null,
            Bson::Binary(b) => BsonValue::Binary(b@),
            Bson::Json(t) => BsonValue::Json(t@),
            Bson::ObjectId(t) => BsonValue::ObjectId(t@),
        }
    }
}

impl View for Bson {
    type V = BsonValue;

    open spec fn view(&self) -> BsonValue {
        self.model()
    }
}

/// A query document: its entries in order, each key at most once.
#[derive(Debug, PartialEq)]
pub struct Document {
    pub entries: Vec<(String, Bson)>,
}

/// The model of a document's entries.
pub open spec fn entries_view(es: Seq<(String, Bson)>) -> Seq<(Seq<char>, BsonValue)> {
    es.map_values(|e: (String, Bson)| (e.0@, e.1@))
}

impl View for Document {
    type V = Seq<(Seq<char>, BsonValue)>;

    open spec fn view(&self) -> Seq<(Seq<char>, BsonValue)> {
        entries_view(self.entries@)
    }
}

/// The position of key `k` in a document.
pub open spec fn key_index<V>(d: Seq<(Seq<char>, V)>, k: Seq<char>) -> Option<int>
    decreases d.len(),
{
    if d.len() == 0 {
        None
    } else {
        match key_index(d.drop_last(), k) {
            Some(i) => Some(i),
            None => if d.last().0 == k { Some(d.len() - 1) } else { None },
        }
    }
}

/// A document with `k` set to `v`: the value of an existing key is
/// replaced in place, a new key goes last.
pub open spec fn doc_insert<V>(d: Seq<(Seq<char>, V)>, k: Seq<char>, v: V) -> Seq<(Seq<char>, V)> {
    match key_index(d, k) {
        Some(i) => d.update(i, (k, v)),
        None => d.push((k, v)),
    }
}

/// A document with every entry of `e` inserted in turn.
pub open spec fn doc_extend(d: Seq<(Seq<char>, BsonValue)>, e: Seq<(Seq<char>, BsonValue)>) -> Seq<(Seq<char>, BsonValue)>
    decreases e.len(),
{
    if e.len() == 0 { d } else { doc_insert(doc_extend(d, e.drop_last()), e.last().0, e.last().1) }
}

/// Whether a JSON text is that of an object.
pub open spec fn json_object_text(t: Seq<char>) -> bool {
    t.len() > 0 && t[0] == '{'
}

/// The BSON of a value: strings, integers, floats, booleans and null as
/// they are; an unsigned integer as a 64-bit integer when it fits and as
/// a float otherwise; date-times as their instant in UTC; a UUID as its
/// hyphenated text; a JSON object as JSON for the driver to convert and
/// other JSON as its text; arrays item by item; an object as a document
/// of its entries; bytes as binary.
pub open spec fn bson_of(v: Value) -> BsonValue
    decreases v,
{
    match v {
        Value::Str(s) => BsonValue::Str(s),
        Value::Int(i) => BsonValue::Int64(i),
        Value::UInt(u) => if u <= i64::MAX { BsonValue::Int64(u as i64) } else { BsonValue::Double(decimal(u as nat)) },
        Value::Float(t) => BsonValue::Double(t),
        Value::Bool(b) => BsonValue::Boolean(b),
        Value::DateTime(t) => BsonValue::DateTime(UtcTimestamp { seconds: t.seconds, nanos: t.nanos }),
        Value::DateTimeUTC(t) => BsonValue::DateTime(t),
        Value::Uuid(u) => BsonValue::Str(uuid_text(u)),
        Value::Json(t) => if json_object_text(t) { BsonValue::Json(t) } else { BsonValue::Str(t) },
        Value::Array(items) => BsonValue::Array(Seq::new(
            items.len(),
            |i: int| if 0 <= i < items.len() { bson_of(items[i]) } else { BsonValue::Null },
        )),
        Value::Object(es) => BsonValue::Document(object_doc(es)),
        Value::Null => BsonValue::Null,
        Value::Bytes(b) => BsonValue::Binary(b),
    }
}

/// The document of an object's entries, inserted in order.
pub open spec fn object_doc(es: Seq<(Seq<char>, Value)>) -> Seq<(Seq<char>, BsonValue)>
    decreases es,
{
    if es.len() == 0 {
        Seq::empty()
    } else {
        proof {
            assert(decreases_to!(es => es.subrange(0, es.len() - 1)));
            assert(decreases_to!(es => es[es.len() - 1]));
        }
        doc_insert(object_doc(es.drop_last()), es.last().0, bson_of(es.last().1))
    }
}

pub(crate) proof fn lemma_key_index_bounds<V>(d: Seq<(Seq<char>, V)>, k: Seq<char>)
    ensures
        key_index(d, k) matches Some(i) ==> 0 <= i < d.len() && d[i].0 == k,
        key_index(d, k) is None ==> forall|j: int| 0 <= j < d.len() ==> d[j].0 != k,
    decreases d.len(),
{
    if d.len() > 0 {
        lemma_key_index_bounds(d.drop_last(), k);
        assert forall|j: int| 0 <= j < d.len() - 1 implies d.drop_last()[j] == d[j] by {}
    }
}

pub(crate) proof fn lemma_key_index_first<V>(d: Seq<(Seq<char>, V)>, k: Seq<char>, i: int)
    requires
        0 <= i < d.len(),
        d[i].0 == k,
        forall|j: int| 0 <= j < i ==> d[j].0 != k,
    ensures
        key_index(d, k) == Some(i),
    decreases d.len(),
{
    if i < d.len() - 1 {
        lemma_key_index_first(d.drop_last(), k, i);
    } else {
        lemma_key_index_bounds(d.drop_last(), k);
        if let Some(j) = key_index(d.drop_last(), k) {
            assert(d.drop_last()[j] == d[j]);
        }
    }
}

/// Sets `key` to `value` in a document's entries (see `doc_insert`).
pub fn doc_insert_entry(entries: &mut Vec<(String, Bson)>, key: String, value: Bson)
    ensures
        entries_view(final(entries)@) == doc_insert(entries_view(old(entries)@), key@, value@),
{
    let ghost d = entries_view(entries@);
    let mut i: usize = 0;
    while i < entries.len()
        invariant
            i <= entries.len(),
            d == entries_view(entries@),
            d == entries_view(old(entries)@),
            d.len() == entries@.len(),
            forall|j: int| 0 <= j < i ==> d[j].0 != key@,
        decreases entries.len() - i,
    {
        if crate::models::str_eq(entries[i].0.as_str(), key.as_str()) {
            proof { lemma_key_index_first(d, key@, i as int); }
            entries.set(i, (key, value));
            assert(entries_view(entries@) =~= d.update(i as int, (key@, value@)));
            return;
        }
        i = i + 1;
    }
    proof {
        lemma_key_index_bounds(d, key@);
        if let Some(j) = key_index(d, key@) {
            assert(d[j].0 != key@);
        }
    }
    entries.push((key, value));
    assert(entries_view(entries@) =~= d.push((key@, value@)));
}

/// Inserts every entry of `more`, in order (see `doc_extend`).
pub fn doc_extend_entries(entries: &mut Vec<(String, Bson)>, more: Vec<(String, Bson)>)
    ensures
        entries_view(final(entries)@) == doc_extend(entries_view(old(entries)@), entries_view(more@)),
{
    let ghost d0 = entries_view(entries@);
    let ghost e = entries_view(more@);
    let ghost n = more@.len();
    let mut more = more;
    let mut taken: usize = 0;
    assert(n == more.len());
    assert(e.subrange(0, 0) =~= Seq::<(Seq<char>, BsonValue)>::empty());
    assert(entries_view(more@) =~= e.subrange(0, n as int));
    while more.len() > 0
        invariant
            taken + more@.len() == n,
            n <= usize::MAX,
            e.len() == n,
            entries_view(more@) == e.subrange(taken as int, n as int),
            entries_view(entries@) == doc_extend(d0, e.subrange(0, taken as int)),
        decreases more@.len(),
    {
        let ghost before = more@;
        let (k, v) = more.remove(0);
        assert(e[taken as int] == (k@, v@)) by {
            assert(entries_view(before)[0] == e.subrange(taken as int, n as int)[0]);
        }
        assert(entries_view(more@) =~= e.subrange(taken + 1, n as int)) by {
            assert forall|j: int| 0 <= j < more@.len() implies entries_view(more@)[j] == e.subrange(taken + 1, n as int)[j] by {
                assert(more@[j] == before[j + 1]);
                assert(entries_view(before)[j + 1] == e.subrange(taken as int, n as int)[j + 1]);
            }
        }
        doc_insert_entry(entries, k, v);
        assert(e.subrange(0, taken + 1).drop_last() =~= e.subrange(0, taken as int));
        taken = taken + 1;
    }
    assert(e.subrange(0, n as int) =~= e);
}

/// The BSON of a value (see `bson_of`).
#[verifier::loop_isolation(false)]
pub fn data_value_to_bson(value: &DataValue) -> (r: Bson)
    ensures
        r@ == bson_of(value@),
    decreases value,
{
    match value {
        DataValue::String(s) => Bson::String(s.clone()),
        DataValue::Int(i) => Bson::Int64(*i),
        DataValue::UInt(u) => {
            if *u <= 9223372036854775807u64 {
                Bson::Int64(*u as i64)
            } else {
                let mut t = String::new();
                push_decimal(&mut t, *u);
                Bson::Double(t)
            }
        }
        DataValue::Float(t) => Bson::Double(t.clone()),
        DataValue::Bool(b) => Bson::Boolean(*b),
        DataValue::DateTime(t) => Bson::DateTime(UtcTimestamp { seconds: t.seconds, nanos: t.nanos }),
        DataValue::DateTimeUTC(t) => Bson::DateTime(*t),
        DataValue::Uuid(u) => {
            let mut t = String::new();
            push_uuid(&mut t, *u);
            Bson::String(t)
        }
        DataValue::Json(t) => {
            let is_object = t.as_str().unicode_len() > 0 && t.as_str().get_char(0) == '{';
            if is_object { Bson::Json(t.clone()) } else { Bson::String(t.clone()) }
        }
        DataValue::Array(items) => {
            let ghost m = value@->Array_0;
            let mut out: Vec<Bson> = Vec::new();
            let mut i: usize = 0;
            while i < items.len()
                invariant
                    i <= items.len(),
                    out@.len() == i,
                    forall|j: int| 0 <= j < i ==> #[trigger] out@[j]@ == bson_of(m[j]),
                decreases items.len() - i,
            {
                proof {
                    assert(decreases_to!(items@ => items@[i as int]));
                }
                assert(m[i as int] == items@[i as int]@);
                out.push(data_value_to_bson(&items[i]));
                i = i + 1;
            }
            let r = Bson::Array(out);
            assert(m.len() == items@.len());
            assert(r@->Array_0.len() == out@.len());
            assert(bson_of(value@)->Array_0.len() == m.len());
            assert(forall|k: int| 0 <= k < out@.len() ==> r@->Array_0[k] == out@[k]@);
            assert(forall|k: int| 0 <= k < m.len() ==> bson_of(value@)->Array_0[k] == bson_of(m[k]));
            assert(r@->Array_0 =~= bson_of(value@)->Array_0);
            r
        }
        DataValue::Object(es) => {
            let ghost m = value@->Object_0;
            let mut out: Vec<(String, Bson)> = Vec::new();
            let mut i: usize = 0;
            assert(entries_view(out@) =~= object_doc(m.subrange(0, 0)));
            while i < es.len()
                invariant
                    i <= es.len(),
                    m.len() == es@.len(),
                    entries_view(out@) == object_doc(m.subrange(0, i as int)),
                decreases es.len() - i,
            {
                proof {
                    assert(decreases_to!(es@ => es@[i as int]));
                    assert(decreases_to!(es@[i as int] => es@[i as int].1));
                }
                assert(m[i as int] == (es@[i as int].0@, es@[i as int].1@));
                let b = data_value_to_bson(&es[i].1);
                doc_insert_entry(&mut out, es[i].0.clone(), b);
                assert(m.subrange(0, i + 1).drop_last() =~= m.subrange(0, i as int));
                i = i + 1;
            }
            assert(m.subrange(0, es.len() as int) =~= m);
            let r = Bson::Document(out);
            assert(r@->Document_0 =~= entries_view(out@));
            r
        }
        DataValue::Null => Bson::Null,
        DataValue::Bytes(b) => Bson::Binary(b.clone()),
    }
}

/// The members of a JSON text as serde_json reads it: `None` when the
/// text is not JSON, `Some(None)` when it is JSON but not an object, and
/// otherwise the object's members in the order of serde_json's map, each
/// key with the compact JSON text of its value.
pub open spec fn json_object_members(s: Seq<char>) -> Option<Option<Seq<(Seq<char>, Seq<char>)>>> {
    match json_reading(s) {
        None => None,
        Some((_, ms)) => Some(ms),
    }
}

/// The model of the members that `parse_json_members` gives.
pub open spec fn members_view(r: Option<Option<Vec<(String, String)>>>) -> Option<Option<Seq<(Seq<char>, Seq<char>)>>> {
    match r {
        None => None,
        Some(None) => Some(None),
        Some(Some(ms)) => Some(Some(ms@.map_values(|m: (String, String)| (m.0@, m.1@)))),
    }
}

/// The members of a JSON text (see `json_object_members`).
fn parse_json_members(text: &str) -> (r: Option<Option<Vec<(String, String)>>>)
    ensures
        members_view(r) == json_object_members(text@),
{
    match read_json(text) {
        None => None,
        Some((_, ms)) => Some(ms),
    }
}

/// `field.key`, the dotted path of a member.
pub open spec fn dot_path(field: Seq<char>, key: Seq<char>) -> Seq<char> {
    field + seq!['.'] + key
}

/// `$and`
pub open spec fn and_key() -> Seq<char> {
    seq!['$', 'a', 'n', 'd']
}

/// `$or`
pub open spec fn or_key() -> Seq<char> {
    seq!['$', 'o', 'r']
}

/// A list of documents combined: the one document when there is one,
/// and otherwise a document whose key `op` holds them all.
pub open spec fn combine_docs(op: Seq<char>, docs: Seq<Seq<(Seq<char>, BsonValue)>>) -> Seq<(Seq<char>, BsonValue)> {
    if docs.len() == 1 {
        docs[0]
    } else {
        seq![(op, BsonValue::Array(docs.map_values(|d: Seq<(Seq<char>, BsonValue)>| BsonValue::Document(d))))]
    }
}

/// The query that matches a JSON object inside `field`: one condition per
/// member on its dotted path, nested objects taken apart the same way,
/// combined with `$and` when there are several. A text that is not an
/// object gives the empty query. `depth` bounds the nesting taken apart;
/// a text of `n` characters nests fewer than `n` objects deep.
pub open spec fn flatten_doc(field: Seq<char>, text: Seq<char>, depth: nat) -> Seq<(Seq<char>, BsonValue)>
    decreases depth, 1nat, 0nat,
{
    if depth == 0 {
        Seq::empty()
    } else {
        match json_object_members(text) {
            Some(Some(ms)) => if ms.len() == 0 {
                Seq::empty()
            } else {
                combine_docs(and_key(), flatten_members(field, ms, depth))
            },
            _ => Seq::empty(),
        }
    }
}

/// The conditions of the members of a JSON object inside `field`.
pub open spec fn flatten_members(
    field: Seq<char>,
    ms: Seq<(Seq<char>, Seq<char>)>,
    depth: nat,
) -> Seq<Seq<(Seq<char>, BsonValue)>>
    decreases depth, 0nat, ms.len(),
{
    if ms.len() == 0 || depth == 0 {
        Seq::empty()
    } else {
        let prev = flatten_members(field, ms.drop_last(), depth);
        let path = dot_path(field, ms.last().0);
        let vt = ms.last().1;
        match json_object_members(vt) {
            Some(Some(_)) => prev + flatten_doc(path, vt, (depth - 1) as nat).map_values(
                |e: (Seq<char>, BsonValue)| seq![e],
            ),
            _ => prev.push(seq![(path, BsonValue::Json(vt))]),
        }
    }
}

fn and_key_string() -> (r: String)
    ensures
        r@ == and_key(),
{
    proof { reveal_strlit("$and"); }
    "$and".to_owned()
}

fn or_key_string() -> (r: String)
    ensures
        r@ == or_key(),
{
    proof { reveal_strlit("$or"); }
    "$or".to_owned()
}

/// The documents combined (see `combine_docs`).
fn combine_documents(op: String, docs: Vec<Vec<(String, Bson)>>) -> (r: Vec<(String, Bson)>)
    ensures
        entries_view(r@) == combine_docs(op@, docs@.map_values(|d: Vec<(String, Bson)>| entries_view(d@))),
{
    let ghost dm = docs@.map_values(|d: Vec<(String, Bson)>| entries_view(d@));
    if docs.len() == 1 {
        let mut docs = docs;
        let d = docs.pop().unwrap();
        d
    } else {
        let mut items: Vec<Bson> = Vec::new();
        let mut docs = docs;
        let ghost all = docs@;
        let mut rest: Vec<Vec<(String, Bson)>> = Vec::new();
        while docs.len() > 0
            invariant
                rest@.len() + docs@.len() == all.len(),
                docs@ == all.subrange(0, docs@.len() as int),
                forall|j: int| 0 <= j < rest@.len() ==> #[trigger] rest@[j] == all[all.len() - 1 - j],
            decreases docs@.len(),
        {
            let d = docs.pop().unwrap();
            rest.push(d);
            assert(docs@ =~= all.subrange(0, docs@.len() as int));
        }
        while rest.len() > 0
            invariant
                items@.len() + rest@.len() == all.len(),
                forall|j: int| 0 <= j < rest@.len() ==> #[trigger] rest@[j] == all[all.len() - 1 - j],
                forall|j: int| 0 <= j < items@.len() ==> #[trigger] items@[j]@ == BsonValue::Document(entries_view(all[j]@)),
            decreases rest@.len(),
        {
            let d = rest.pop().unwrap();
            let b = Bson::Document(d);
            assert(b@->Document_0 =~= entries_view(d@)) by {
                assert(forall|k: int| 0 <= k < d@.len() ==> b@->Document_0[k] == (d@[k].0@, d@[k].1@));
            }
            items.push(b);
        }
        let mut r: Vec<(String, Bson)> = Vec::new();
        let arr = Bson::Array(items);
        let ghost av = arr@;
        r.push((op, arr));
        assert(av->Array_0 =~= dm.map_values(|d: Seq<(Seq<char>, BsonValue)>| BsonValue::Document(d))) by {
            assert(forall|k: int| 0 <= k < items@.len() ==> av->Array_0[k] == items@[k]@);
        }
        assert(entries_view(r@) =~= combine_docs(op@, dm));
        r
    }
}

pub open spec fn docs_view(ds: Seq<Vec<(String, Bson)>>) -> Seq<Seq<(Seq<char>, BsonValue)>> {
    ds.map_values(|d: Vec<(String, Bson)>| entries_view(d@))
}

/// The query that matches a JSON object inside `field` (see
/// `flatten_doc`).
pub fn flatten_json_to_query(field_name: &str, text: &str, depth: usize) -> (r: Vec<(String, Bson)>)
    ensures
        entries_view(r@) == flatten_doc(field_name@, text@, depth as nat),
    decreases depth,
{
    if depth == 0 {
        let r: Vec<(String, Bson)> = Vec::new();
        assert(entries_view(r@) =~= Seq::<(Seq<char>, BsonValue)>::empty());
        return r;
    }
    match parse_json_members(text) {
        Some(Some(ms)) => {
            let ghost mv = ms@.map_values(|m: (String, String)| (m.0@, m.1@));
            if ms.len() == 0 {
                let r: Vec<(String, Bson)> = Vec::new();
                assert(entries_view(r@) =~= Seq::<(Seq<char>, BsonValue)>::empty());
                return r;
            }
            let mut conds: Vec<Vec<(String, Bson)>> = Vec::new();
            let mut i: usize = 0;
            assert(mv.subrange(0, 0) =~= Seq::<(Seq<char>, Seq<char>)>::empty());
            assert(docs_view(conds@) =~= Seq::<Seq<(Seq<char>, BsonValue)>>::empty());
            while i < ms.len()
                invariant
                    i <= ms.len(),
                    depth > 0,
                    mv == ms@.map_values(|m: (String, String)| (m.0@, m.1@)),
                    docs_view(conds@) == flatten_members(field_name@, mv.subrange(0, i as int), depth as nat),
                decreases ms.len() - i,
            {
                let ghost sub = mv.subrange(0, i + 1);
                assert(sub.drop_last() =~= mv.subrange(0, i as int));
                assert(sub.last() == (ms@[i as int].0@, ms@[i as int].1@));
                let mut path = String::new();
                path.append(field_name);
                push_char(&mut path, '.');
                path.append(ms[i].0.as_str());
                assert(path@ =~= dot_path(field_name@, ms@[i as int].0@));
                let value_text = ms[i].1.as_str();
                match parse_json_members(value_text) {
                    Some(Some(_)) => {
                        let nested = flatten_json_to_query(path.as_str(), value_text, depth - 1);
                        let ghost before = docs_view(conds@);
                        let ghost nv = entries_view(nested@);
                        let mut k: usize = 0;
                        while k < nested.len()
                            invariant
                                k <= nested.len(),
                                nv == entries_view(nested@),
                                docs_view(conds@) == before + nv.subrange(0, k as int).map_values(|e: (Seq<char>, BsonValue)| seq![e]),
                            decreases nested.len() - k,
                        {
                            let mut one: Vec<(String, Bson)> = Vec::new();
                            let e = &nested[k];
                            one.push((e.0.clone(), duplicate_bson(&e.1)));
                            assert(entries_view(one@) =~= seq![nv[k as int]]);
                            let ghost prev = docs_view(conds@);
                            conds.push(one);
                            assert(docs_view(conds@) =~= prev.push(seq![nv[k as int]]));
                            assert(nv.subrange(0, k + 1).map_values(|e: (Seq<char>, BsonValue)| seq![e])
                                =~= nv.subrange(0, k as int).map_values(|e: (Seq<char>, BsonValue)| seq![e]).push(seq![nv[k as int]]));
                            k = k + 1;
                        }
                        assert(nv.subrange(0, nested.len() as int) =~= nv);
                    }
                    _ => {
                        let mut one: Vec<(String, Bson)> = Vec::new();
                        let ghost p = path@;
                        one.push((path, Bson::Json(ms[i].1.clone())));
                        assert(entries_view(one@) =~= seq![(p, BsonValue::Json(ms@[i as int].1@))]);
                        let ghost prev = docs_view(conds@);
                        conds.push(one);
                        assert(docs_view(conds@) =~= prev.push(entries_view(one@)));
                    }
                }
                i = i + 1;
            }
            assert(mv.subrange(0, ms.len() as int) =~= mv);
            combine_documents(and_key_string(), conds)
        }
        _ => {
            let r: Vec<(String, Bson)> = Vec::new();
            assert(entries_view(r@) =~= Seq::<(Seq<char>, BsonValue)>::empty());
            r
        }
    }
}

impl Bson {
    /// A copy of the value with the same model.
    #[verifier::loop_isolation(false)]
    pub fn duplicate(&self) -> (r: Bson)
        ensures
            r@ == self@,
        decreases self,
    {
        match self {
            Bson::String(s) => Bson::String(s.clone()),
            Bson::Int64(i) => Bson::Int64(*i),
            Bson::Double(t) => Bson::Double(t.clone()),
            Bson::Boolean(b) => Bson::Boolean(*b),
            Bson::DateTime(t) => Bson::DateTime(*t),
            Bson::Document(es) => {
                let mut out: Vec<(String, Bson)> = Vec::new();
                let mut i: usize = 0;
                while i < es.len()
                    invariant
                        i <= es.len(),
                        entries_view(out@) == entries_view(es@.subrange(0, i as int)),
                    decreases es.len() - i,
                {
                    proof {
                        assert(decreases_to!(es@ => es@[i as int]));
                        assert(decreases_to!(es@[i as int] => es@[i as int].1));
                    }
                    let k = es[i].0.clone();
                    let c = es[i].1.duplicate();
                    let ghost before = entries_view(out@);
                    out.push((k, c));
                    assert(entries_view(out@) =~= before.push((es@[i as int].0@, es@[i as int].1@)));
                    assert(entries_view(es@.subrange(0, i + 1)) =~= entries_view(es@.subrange(0, i as int)).push((es@[i as int].0@, es@[i as int].1@)));
                    i = i + 1;
                }
                assert(es@.subrange(0, es.len() as int) =~= es@);
                let r = Bson::Document(out);
                assert(r.model()->Document_0 =~= self.model()->Document_0) by {
                    assert(entries_view(out@) == entries_view(es@));
                    assert(r.model()->Document_0.len() == out@.len());
                    assert(self.model()->Document_0.len() == es@.len());
                    assert forall|k: int| 0 <= k < out@.len() implies r.model()->Document_0[k] == self.model()->Document_0[k] by {
                        assert(r.model()->Document_0[k] == (out@[k].0@, out@[k].1@));
                        assert(entries_view(out@)[k] == (out@[k].0@, out@[k].1@));
                        assert(entries_view(es@)[k] == (es@[k].0@, es@[k].1@));
                        assert(self.model()->Document_0[k] == (es@[k].0@, es@[k].1@));
                    }
                }
                r
            }
            Bson::Array(items) => {
                let mut out: Vec<Bson> = Vec::new();
                let mut i: usize = 0;
                while i < items.len()
                    invariant
                        i <= items.len(),
                        out@.len() == i,
                        forall|j: int| 0 <= j < i ==> #[trigger] out@[j]@ == items@[j]@,
                    decreases items.len() - i,
                {
                    proof {
                        assert(decreases_to!(items@ => items@[i as int]));
                    }
                    out.push(items[i].duplicate());
                    i = i + 1;
                }
                let r = Bson::Array(out);
                assert(r.model()->Array_0 =~= self.model()->Array_0) by {
                    assert(forall|k: int| 0 <= k < out@.len() ==> r.model()->Array_0[k] == out@[k]@);
                    assert(forall|k: int| 0 <= k < items@.len() ==> self.model()->Array_0[k] == items@[k]@);
                }
                r
            }
            Bson::Null => Bson::Null,
            Bson::Binary(b) => Bson::Binary(b.clone()),
            Bson::Json(t) => Bson::Json(t.clone()),
            Bson::ObjectId(t) => Bson::ObjectId(t.clone()),
        }
    }
}

fn duplicate_bson(b: &Bson) -> (r: Bson)
    ensures
        r@ == b@,
{
    b.duplicate()
}

/// A document's model.
pub type Doc = Seq<(Seq<char>, BsonValue)>;

/// `{"$regex": pattern, "$options": "i"}`, a case-insensitive match.
pub open spec fn regex_doc(pattern: Seq<char>) -> Doc {
    seq![(seq!['$', 'r', 'e', 'g', 'e', 'x'], BsonValue::Str(pattern)), (seq!['$', 'o', 'p', 't', 'i', 'o', 'n', 's'], BsonValue::Str(seq!['i']))]
}

/// `{field: {op: v}}`
pub open spec fn op_doc(field: Seq<char>, op: Seq<char>, v: BsonValue) -> Doc {
    seq![(field, BsonValue::Document(seq![(op, v)]))]
}

/// `{field: {"$regex": pattern, "$options": "i"}}`
pub open spec fn field_regex(field: Seq<char>, pattern: Seq<char>) -> Doc {
    seq![(field, BsonValue::Document(regex_doc(pattern)))]
}

/// The BSON types an array field can be searched for: strings, integers
/// and floats.
pub open spec fn searchable(b: BsonValue) -> bool {
    b is Str || b is Int64 || b is Double
}

/// `{field: {op: items}}` for IN and NOT IN: an array value is taken as
/// the list, any other value as a list of one; on a field registered as
/// an array every item must be searchable.
pub open spec fn membership_doc(
    models: Seq<ModelView>,
    table: Seq<char>,
    alias: Seq<char>,
    field: Seq<char>,
    op: Seq<char>,
    b: BsonValue,
) -> Result<Doc, ErrorKind> {
    match b {
        BsonValue::Array(items) => if field_kind(models, table, alias, field) == Some(FieldKind::Array)
            && exists|k: int| 0 <= k < items.len() && !#[trigger] searchable(items[k]) {
            Err(ErrorKind::Validation { field: field })
        } else {
            Ok(op_doc(field, op, BsonValue::Array(items)))
        },
        _ => Ok(op_doc(field, op, BsonValue::Array(seq![b]))),
    }
}

/// `.*s.*`, the pattern that finds `s` anywhere.
pub open spec fn anywhere(s: Seq<char>) -> Seq<char> {
    seq!['.', '*'] + s + seq!['.', '*']
}

/// The document of a Contains condition, by the registered kind of the
/// field: a string field matches the text anywhere (case-insensitive) and
/// needs a string; an array field holds the value; a JSON field matches a
/// string anywhere and holds any other value. Other kinds and an
/// unregistered field are refused.
pub open spec fn contains_doc(
    models: Seq<ModelView>,
    table: Seq<char>,
    alias: Seq<char>,
    field: Seq<char>,
    b: BsonValue,
) -> Result<Doc, ErrorKind> {
    match field_kind(models, table, alias, field) {
        Some(FieldKind::String { .. }) => match b {
            BsonValue::Str(s) => Ok(field_regex(field, anywhere(s))),
            _ => Err(ErrorKind::Validation { field: field }),
        },
        Some(FieldKind::Array) => Ok(op_doc(field, seq!['$', 'i', 'n'], BsonValue::Array(seq![b]))),
        Some(FieldKind::Json) => match b {
            BsonValue::Str(s) => Ok(field_regex(field, anywhere(s))),
            _ => Ok(op_doc(field, seq!['$', 'i', 'n'], BsonValue::Array(seq![b]))),
        },
        _ => Err(ErrorKind::Validation { field: field }),
    }
}

/// The query document of one condition, its value taken as `bson_of`
/// gives it. JsonContains with a string parses it as JSON (refusing text
/// that is not JSON) and matches each member on its dotted path (see
/// `flatten_doc`); with any other value it is an equality. StartsWith,
/// EndsWith and Regex need a string.
pub open spec fn condition_doc(
    models: Seq<ModelView>,
    table: Seq<char>,
    alias: Seq<char>,
    c: Condition,
) -> Result<Doc, ErrorKind> {
    let f = c.field;
    let b = bson_of(c.value);
    let refused = Err(ErrorKind::Validation { field: f });
    match c.operator {
        QueryOperator::Eq => Ok(seq![(f, b)]),
        QueryOperator::Ne => Ok(op_doc(f, seq!['$', 'n', 'e'], b)),
        QueryOperator::Gt => Ok(op_doc(f, seq!['$', 'g', 't'], b)),
        QueryOperator::Gte => Ok(op_doc(f, seq!['$', 'g', 't', 'e'], b)),
        QueryOperator::Lt => Ok(op_doc(f, seq!['$', 'l', 't'], b)),
        QueryOperator::Lte => Ok(op_doc(f, seq!['$', 'l', 't', 'e'], b)),
        QueryOperator::Contains => contains_doc(models, table, alias, f, b),
        QueryOperator::JsonContains => match b {
            BsonValue::Str(s) => if json_object_members(s) is None { refused } else { Ok(flatten_doc(f, s, s.len())) },
            _ => Ok(seq![(f, b)]),
        },
        QueryOperator::StartsWith => match b {
            BsonValue::Str(s) => Ok(field_regex(f, seq!['^'] + s)),
            _ => refused,
        },
        QueryOperator::EndsWith => match b {
            BsonValue::Str(s) => Ok(field_regex(f, s + seq!['$'])),
            _ => refused,
        },
        QueryOperator::In => membership_doc(models, table, alias, f, seq!['$', 'i', 'n'], b),
        QueryOperator::NotIn => membership_doc(models, table, alias, f, seq!['$', 'n', 'i', 'n'], b),
        QueryOperator::Regex => match b {
            BsonValue::Str(s) => Ok(field_regex(f, s)),
            _ => refused,
        },
        QueryOperator::Exists => Ok(op_doc(f, seq!['$', 'e', 'x', 'i', 's', 't', 's'], BsonValue::Boolean(true))),
        QueryOperator::IsNull => Ok(op_doc(f, seq!['$', 'e', 'q'], BsonValue::Null)),
        QueryOperator::IsNotNull => Ok(op_doc(f, seq!['$', 'n', 'e'], BsonValue::Null)),
    }
}

fn op_document(field: &str, op: &str, v: Bson) -> (r: Vec<(String, Bson)>)
    ensures
        entries_view(r@) == op_doc(field@, op@, v@),
{
    let mut inner: Vec<(String, Bson)> = Vec::new();
    inner.push((op.to_owned(), v));
    let d = Bson::Document(inner);
    assert(d@->Document_0 =~= seq![(op@, v@)]) by {
        assert(d@->Document_0[0] == (inner@[0].0@, inner@[0].1@));
    }
    let mut r: Vec<(String, Bson)> = Vec::new();
    r.push((field.to_owned(), d));
    assert(entries_view(r@) =~= op_doc(field@, op@, v@));
    r
}

fn field_regex_document(field: &str, pattern: String) -> (r: Vec<(String, Bson)>)
    ensures
        entries_view(r@) == field_regex(field@, pattern@),
{
    proof {
        reveal_strlit("$regex");
        reveal_strlit("$options");
        reveal_strlit("i");
    }
    let mut inner: Vec<(String, Bson)> = Vec::new();
    inner.push(("$regex".to_owned(), Bson::String(pattern)));
    let opt = "i".to_owned();
    assert(opt@ == seq!['i']);
    inner.push(("$options".to_owned(), Bson::String(opt)));
    let d = Bson::Document(inner);
    assert(d@->Document_0 =~= regex_doc(pattern@)) by {
        assert(inner@.len() == 2);
        assert(d@->Document_0.len() == 2);
        assert(d@->Document_0[0] == (inner@[0].0@, inner@[0].1@));
        assert(d@->Document_0[1] == (inner@[1].0@, inner@[1].1@));
        assert(inner@[0].0@ == seq!['$', 'r', 'e', 'g', 'e', 'x']);
        assert(inner@[1].0@ == seq!['$', 'o', 'p', 't', 'i', 'o', 'n', 's']);
        assert(inner@[1].1@ == BsonValue::Str(seq!['i']));
        assert(regex_doc(pattern@)[0] == (inner@[0].0@, inner@[0].1@));
        assert(regex_doc(pattern@)[1] == (inner@[1].0@, inner@[1].1@));
    }
    let mut r: Vec<(String, Bson)> = Vec::new();
    r.push((field.to_owned(), d));
    assert(entries_view(r@) =~= field_regex(field@, pattern@));
    r
}

fn single_entry(field: &str, v: Bson) -> (r: Vec<(String, Bson)>)
    ensures
        entries_view(r@) == seq![(field@, v@)],
{
    let mut r: Vec<(String, Bson)> = Vec::new();
    r.push((field.to_owned(), v));
    assert(entries_view(r@) =~= seq![(field@, v@)]);
    r
}

fn one_item_array(v: Bson) -> (r: Bson)
    ensures
        r@ == BsonValue::Array(seq![v@]),
{
    let mut items: Vec<Bson> = Vec::new();
    items.push(v);
    let r = Bson::Array(items);
    assert(r@->Array_0 =~= seq![v@]) by {
        assert(r@->Array_0[0] == items@[0]@);
    }
    r
}

fn is_searchable(b: &Bson) -> (r: bool)
    ensures
        r == searchable(b@),
{
    match b {
        Bson::String(_) | Bson::Int64(_) | Bson::Double(_) => true,
        _ => false,
    }
}

/// `{field: {op: items}}` for IN and NOT IN (see `membership_doc`).
#[verifier::loop_isolation(false)]
fn build_membership_document(
    models: &ModelRegistry,
    table: &str,
    alias: &str,
    field: &str,
    op: &str,
    b: Bson,
) -> (r: Result<Vec<(String, Bson)>, QuickDbError>)
    ensures
        match (r, membership_doc(models@, table@, alias@, field@, op@, b@)) {
            (Ok(x), Ok(y)) => entries_view(x@) == y,
            (Err(e), Err(k)) => e@ == k,
            _ => false,
        },
{
    let ghost bv = b@;
    match b {
        Bson::Array(items) => {
            assert(bv == Bson::Array(items)@);
            let kind = get_field_type(models, table, alias, field);
            let is_array_field = match kind {
                Some(FieldType::Array) => true,
                _ => false,
            };
            assert(is_array_field == (field_kind(models@, table@, alias@, field@) == Some(FieldKind::Array)));
            if is_array_field {
                let mut i: usize = 0;
                while i < items.len()
                    invariant
                        i <= items.len(),
                        bv == Bson::Array(items)@,
                        field_kind(models@, table@, alias@, field@) == Some(FieldKind::Array),
                        forall|k: int| 0 <= k < i ==> #[trigger] searchable(bv->Array_0[k]),
                    decreases items.len() - i,
                {
                    assert(bv->Array_0[i as int] == items@[i as int]@);
                    if !is_searchable(&items[i]) {
                        assert(!searchable(bv->Array_0[i as int]));
                        assert(field_kind(models@, table@, alias@, field@) == Some(FieldKind::Array));
                        assert(exists|k: int| 0 <= k < bv->Array_0.len() && !#[trigger] searchable(bv->Array_0[k]));
                        return Err(validation_error(field, "Array字段的IN操作只支持String、Int、Float、Uuid类型"));
                    }
                    i = i + 1;
                }
                assert(bv->Array_0.len() == items@.len());
            }
            Ok(op_document(field, op, Bson::Array(items)))
        }
        other => {
            let arr = one_item_array(other);
            Ok(op_document(field, op, arr))
        }
    }
}

fn anywhere_pattern(s: &str) -> (r: String)
    ensures
        r@ == anywhere(s@),
{
    let mut r = String::new();
    push_char(&mut r, '.');
    push_char(&mut r, '*');
    r.append(s);
    push_char(&mut r, '.');
    push_char(&mut r, '*');
    assert(r@ =~= anywhere(s@));
    r
}

/// The document of a Contains condition (see `contains_doc`).
fn build_contains_condition(
    models: &ModelRegistry,
    table: &str,
    alias: &str,
    field: &str,
    b: Bson,
) -> (r: Result<Vec<(String, Bson)>, QuickDbError>)
    ensures
        match (r, contains_doc(models@, table@, alias@, field@, b@)) {
            (Ok(x), Ok(y)) => entries_view(x@) == y,
            (Err(e), Err(k)) => e@ == k,
            _ => false,
        },
{
    proof { reveal_strlit("$in"); }
    let ghost bv = b@;
    let ghost in_key: Seq<char> = seq!['$', 'i', 'n'];
    assert("$in"@ == in_key);
    match get_field_type(models, table, alias, field) {
        None => Err(validation_error(field, "无法确定字段的类型，请确保已正确注册模型元数据")),
        Some(FieldType::String { .. }) => match b {
            Bson::String(s) => {
                assert(bv == BsonValue::Str(s@));
                Ok(field_regex_document(field, anywhere_pattern(s.as_str())))
            }
            _ => Err(validation_error(field, "字符串字段的Contains操作符只支持字符串值")),
        },
        Some(FieldType::Array) => {
            let arr = one_item_array(b);
            let d = op_document(field, "$in", arr);
            assert(entries_view(d@) == op_doc(field@, in_key, BsonValue::Array(seq![bv])));
            Ok(d)
        }
        Some(FieldType::Json) => match b {
            Bson::String(s) => {
                assert(bv == BsonValue::Str(s@));
                Ok(field_regex_document(field, anywhere_pattern(s.as_str())))
            }
            other => {
                let arr = one_item_array(other);
                let d = op_document(field, "$in", arr);
                assert(entries_view(d@) == op_doc(field@, in_key, BsonValue::Array(seq![bv])));
                Ok(d)
            }
        },
        Some(_) => Err(validation_error(field, "Contains操作符只支持字符串、Array和JSON字段")),
    }
}

/// Whether a document result matches its model.
pub open spec fn doc_matches(r: Result<Vec<(String, Bson)>, QuickDbError>, m: Result<Doc, ErrorKind>) -> bool {
    match (r, m) {
        (Ok(x), Ok(y)) => entries_view(x@) == y,
        (Err(e), Err(k)) => e@ == k,
        _ => false,
    }
}

/// The query document of one condition (see `condition_doc`).
pub fn build_single_condition_document(
    models: &ModelRegistry,
    table: &str,
    alias: &str,
    condition: &QueryCondition,
) -> (r: Result<Vec<(String, Bson)>, QuickDbError>)
    ensures
        doc_matches(r, condition_doc(models@, table@, alias@, condition@)),
{
    let field = condition.field.as_str();
    let b = data_value_to_bson(&condition.value);
    let ghost bv = b@;
    proof {
        reveal_strlit("$ne");
        reveal_strlit("$gt");
        reveal_strlit("$gte");
        reveal_strlit("$lt");
        reveal_strlit("$lte");
        reveal_strlit("$in");
        reveal_strlit("$nin");
        reveal_strlit("$exists");
        reveal_strlit("$eq");
    }
    assert("$ne"@ == seq!['$', 'n', 'e']);
    assert("$gt"@ == seq!['$', 'g', 't']);
    assert("$gte"@ == seq!['$', 'g', 't', 'e']);
    assert("$lt"@ == seq!['$', 'l', 't']);
    assert("$lte"@ == seq!['$', 'l', 't', 'e']);
    assert("$in"@ == seq!['$', 'i', 'n']);
    assert("$nin"@ == seq!['$', 'n', 'i', 'n']);
    assert("$exists"@ == seq!['$', 'e', 'x', 'i', 's', 't', 's']);
    assert("$eq"@ == seq!['$', 'e', 'q']);
    match condition.operator {
        QueryOperator::Eq => Ok(single_entry(field, b)),
        QueryOperator::Ne => Ok(op_document(field, "$ne", b)),
        QueryOperator::Gt => Ok(op_document(field, "$gt", b)),
        QueryOperator::Gte => Ok(op_document(field, "$gte", b)),
        QueryOperator::Lt => Ok(op_document(field, "$lt", b)),
        QueryOperator::Lte => Ok(op_document(field, "$lte", b)),
        QueryOperator::Contains => build_contains_condition(models, table, alias, field, b),
        QueryOperator::JsonContains => match b {
            Bson::String(s) => {
                assert(bv == BsonValue::Str(s@));
                match parse_json_members(s.as_str()) {
                    None => Err(validation_error(field, "无效的JSON格式")),
                    Some(_) => {
                        let depth = s.as_str().unicode_len();
                        Ok(flatten_json_to_query(field, s.as_str(), depth))
                    }
                }
            }
            other => Ok(single_entry(field, other)),
        },
        QueryOperator::StartsWith => match b {
            Bson::String(s) => {
                let mut p = String::new();
                push_char(&mut p, '^');
                p.append(s.as_str());
                assert(p@ =~= seq!['^'] + s@);
                Ok(field_regex_document(field, p))
            }
            _ => Err(validation_error(field, "StartsWith操作符只支持字符串类型")),
        },
        QueryOperator::EndsWith => match b {
            Bson::String(s) => {
                let mut p = s.clone();
                push_char(&mut p, '$');
                assert(p@ =~= s@ + seq!['$']);
                Ok(field_regex_document(field, p))
            }
            _ => Err(validation_error(field, "EndsWith操作符只支持字符串类型")),
        },
        QueryOperator::In => build_membership_document(models, table, alias, field, "$in", b),
        QueryOperator::NotIn => build_membership_document(models, table, alias, field, "$nin", b),
        QueryOperator::Regex => match b {
            Bson::String(s) => Ok(field_regex_document(field, s)),
            _ => Err(validation_error(field, "Regex操作符只支持字符串类型")),
        },
        QueryOperator::Exists => Ok(op_document(field, "$exists", Bson::Boolean(true))),
        QueryOperator::IsNull => Ok(op_document(field, "$eq", Bson::Null)),
        QueryOperator::IsNotNull => Ok(op_document(field, "$ne", Bson::Null)),
    }
}

/// The key that combines the members of a group: `$and` or `$or`.
pub open spec fn op_key(op: LogicalOperator) -> Seq<char> {
    if op == LogicalOperator::And { and_key() } else { or_key() }
}

/// The query document of a condition tree: a single condition as
/// `condition_doc` gives it; a group with no members as the empty
/// document; otherwise the non-empty documents of its members combined
/// with its operator (see `combine_docs`).
pub open spec fn group_doc(models: Seq<ModelView>, table: Seq<char>, alias: Seq<char>, g: Group) -> Result<Doc, ErrorKind>
    decreases g,
{
    match g {
        Group::Single(c) => condition_doc(models, table, alias, c),
        Group::Group { operator, conditions } => if conditions.len() == 0 {
            Ok(Seq::empty())
        } else {
            match group_docs(models, table, alias, conditions) {
                Err(e) => Err(e),
                Ok(ds) => Ok(combine_docs(op_key(operator), ds)),
            }
        },
    }
}

/// The non-empty documents of a list of condition trees, in order; the
/// first refused tree decides the error.
pub open spec fn group_docs(models: Seq<ModelView>, table: Seq<char>, alias: Seq<char>, gs: Seq<Group>) -> Result<Seq<Doc>, ErrorKind>
    decreases gs,
{
    if gs.len() == 0 {
        Ok(Seq::empty())
    } else {
        proof {
            assert(decreases_to!(gs => gs.subrange(0, gs.len() - 1)));
        }
        match group_docs(models, table, alias, gs.drop_last()) {
            Err(e) => Err(e),
            Ok(ds) => match group_doc(models, table, alias, gs.last()) {
                Err(e) => Err(e),
                Ok(d) => if d.len() == 0 { Ok(ds) } else { Ok(ds.push(d)) },
            },
        }
    }
}

/// The query document of a list of condition trees: their non-empty
/// documents combined with `$and`.
pub open spec fn groups_document(models: Seq<ModelView>, table: Seq<char>, alias: Seq<char>, gs: Seq<Group>) -> Result<Doc, ErrorKind> {
    match group_docs(models, table, alias, gs) {
        Err(e) => Err(e),
        Ok(ds) => Ok(combine_docs(and_key(), ds)),
    }
}

/// The query document of a list of conditions: the entries of their
/// documents inserted in order, so that a later condition on a key
/// replaces an earlier one.
pub open spec fn conditions_document(models: Seq<ModelView>, table: Seq<char>, alias: Seq<char>, cs: Seq<Condition>) -> Result<Doc, ErrorKind>
    decreases cs.len(),
{
    if cs.len() == 0 {
        Ok(Seq::empty())
    } else {
        match conditions_document(models, table, alias, cs.drop_last()) {
            Err(e) => Err(e),
            Ok(d) => match condition_doc(models, table, alias, cs.last()) {
                Err(e) => Err(e),
                Ok(cd) => Ok(doc_extend(d, cd)),
            },
        }
    }
}

proof fn lemma_group_docs_err_at(models: Seq<ModelView>, table: Seq<char>, alias: Seq<char>, gs: Seq<Group>, k: int, n: int)
    requires
        0 <= k <= n <= gs.len(),
        group_docs(models, table, alias, gs.subrange(0, k)) is Err,
    ensures
        group_docs(models, table, alias, gs.subrange(0, n)) == group_docs(models, table, alias, gs.subrange(0, k)),
    decreases n - k,
{
    if n > k {
        lemma_group_docs_err_at(models, table, alias, gs, k, n - 1);
        assert(gs.subrange(0, n).drop_last() =~= gs.subrange(0, n - 1));
    }
}

proof fn lemma_conditions_document_err_at(models: Seq<ModelView>, table: Seq<char>, alias: Seq<char>, cs: Seq<Condition>, k: int, n: int)
    requires
        0 <= k <= n <= cs.len(),
        conditions_document(models, table, alias, cs.subrange(0, k)) is Err,
    ensures
        conditions_document(models, table, alias, cs.subrange(0, n)) == conditions_document(models, table, alias, cs.subrange(0, k)),
    decreases n - k,
{
    if n > k {
        lemma_conditions_document_err_at(models, table, alias, cs, k, n - 1);
        assert(cs.subrange(0, n).drop_last() =~= cs.subrange(0, n - 1));
    }
}

fn op_key_string(op: LogicalOperator) -> (r: String)
    ensures
        r@ == op_key(op),
{
    if op == LogicalOperator::And { and_key_string() } else { or_key_string() }
}

/// The query document of a condition tree (see `group_doc`).
#[verifier::loop_isolation(false)]
pub fn build_single_condition_group_document(models: &ModelRegistry, table: &str, alias: &str, group: &QueryConditionGroup)
    -> (r: Result<Vec<(String, Bson)>, QuickDbError>)
    ensures
        doc_matches(r, group_doc(models@, table@, alias@, group@)),
    decreases group,
{
    match group {
        QueryConditionGroup::Single(c) => build_single_condition_document(models, table, alias, c),
        QueryConditionGroup::Group { operator, conditions } => {
            proof { crate::query_builder::lemma_group_model(*operator, *conditions); }
            if conditions.len() == 0 {
                let r: Vec<(String, Bson)> = Vec::new();
                assert(entries_view(r@) =~= Seq::<(Seq<char>, BsonValue)>::empty());
                return Ok(r);
            }
            let ghost gs = crate::types::groups_model(conditions@);
            let mut docs: Vec<Vec<(String, Bson)>> = Vec::new();
            let mut i: usize = 0;
            assert(gs.subrange(0, 0) =~= Seq::<Group>::empty());
            assert(docs_view(docs@) =~= Seq::<Doc>::empty());
            while i < conditions.len()
                invariant
                    i <= conditions.len(),
                    gs == crate::types::groups_model(conditions@),
                    gs.len() == conditions@.len(),
                    group_docs(models@, table@, alias@, gs.subrange(0, i as int)) == Ok::<Seq<Doc>, ErrorKind>(docs_view(docs@)),
                decreases conditions.len() - i,
            {
                proof {
                    assert(decreases_to!(conditions@ => conditions@[i as int]));
                    assert(gs.subrange(0, i + 1).drop_last() =~= gs.subrange(0, i as int));
                    assert(gs[i as int] == conditions@[i as int]@);
                }
                match build_single_condition_group_document(models, table, alias, &conditions[i]) {
                    Err(e) => {
                        proof {
                            lemma_group_docs_err_at(models@, table@, alias@, gs, i as int + 1, gs.len() as int);
                            assert(gs.subrange(0, gs.len() as int) =~= gs);
                        }
                        return Err(e);
                    }
                    Ok(d) => {
                        if d.len() > 0 {
                            let ghost before = docs_view(docs@);
                            docs.push(d);
                            assert(docs_view(docs@) =~= before.push(entries_view(docs@.last()@)));
                        }
                    }
                }
                i = i + 1;
            }
            assert(gs.subrange(0, conditions.len() as int) =~= gs);
            Ok(combine_documents(op_key_string(*operator), docs))
        }
    }
}

/// Builds query documents from conditions or condition trees.
pub struct MongoQueryBuilder {
    conditions: Vec<QueryCondition>,
    condition_groups: Vec<QueryConditionGroup>,
}

/// The model of a document-store builder.
pub struct MongoBuilderView {
    pub conditions: Seq<Condition>,
    pub groups: Seq<Group>,
}

impl View for MongoQueryBuilder {
    type V = MongoBuilderView;

    closed spec fn view(&self) -> MongoBuilderView {
        MongoBuilderView {
            conditions: conditions_model(self.conditions@),
            groups: groups_model(self.condition_groups@),
        }
    }
}

/// The query document of a builder: from its condition trees when it has
/// any, from its conditions otherwise.
pub open spec fn query_document(b: MongoBuilderView, models: Seq<ModelView>, table: Seq<char>, alias: Seq<char>) -> Result<Doc, ErrorKind> {
    if b.groups.len() > 0 {
        match groups_document(models, table, alias, b.groups) {
            Err(e) => Err(e),
            Ok(d) => Ok(doc_extend(Seq::empty(), d)),
        }
    } else if b.conditions.len() > 0 {
        match conditions_document(models, table, alias, b.conditions) {
            Err(e) => Err(e),
            Ok(d) => Ok(doc_extend(Seq::empty(), d)),
        }
    } else {
        Ok(Seq::empty())
    }
}

impl MongoQueryBuilder {
    /// The query document of the conditions (see `conditions_document`).
    fn build_conditions_document(&self, models: &ModelRegistry, table: &str, alias: &str) -> (r: Result<Vec<(String, Bson)>, QuickDbError>)
        ensures
            doc_matches(r, conditions_document(models@, table@, alias@, self@.conditions)),
    {
        let ghost cs = self@.conditions;
        let mut query: Vec<(String, Bson)> = Vec::new();
        let mut i: usize = 0;
        assert(cs.subrange(0, 0) =~= Seq::<Condition>::empty());
        assert(entries_view(query@) =~= Seq::<(Seq<char>, BsonValue)>::empty());
        while i < self.conditions.len()
            invariant
                i <= self.conditions.len(),
                cs == self@.conditions,
                cs == conditions_model(self.conditions@),
                cs.len() == self.conditions@.len(),
                conditions_document(models@, table@, alias@, cs.subrange(0, i as int)) == Ok::<Doc, ErrorKind>(entries_view(query@)),
            decreases self.conditions.len() - i,
        {
            assert(cs.subrange(0, i + 1).drop_last() =~= cs.subrange(0, i as int));
            assert(cs[i as int] == self.conditions@[i as int]@);
            match build_single_condition_document(models, table, alias, &self.conditions[i]) {
                Err(e) => {
                    proof {
                        lemma_conditions_document_err_at(models@, table@, alias@, cs, i as int + 1, cs.len() as int);
                        assert(cs.subrange(0, cs.len() as int) =~= cs);
                    }
                    return Err(e);
                }
                Ok(d) => {
                    doc_extend_entries(&mut query, d);
                }
            }
            i = i + 1;
        }
        assert(cs.subrange(0, self.conditions.len() as int) =~= cs);
        Ok(query)
    }

    /// The query document of the condition trees (see
    /// `groups_document`).
    fn build_condition_groups_document(&self, models: &ModelRegistry, table: &str, alias: &str) -> (r: Result<Vec<(String, Bson)>, QuickDbError>)
        ensures
            doc_matches(r, groups_document(models@, table@, alias@, self@.groups)),
    {
        let ghost gs = self@.groups;
        let mut docs: Vec<Vec<(String, Bson)>> = Vec::new();
        let mut i: usize = 0;
        assert(gs.subrange(0, 0) =~= Seq::<Group>::empty());
        assert(docs_view(docs@) =~= Seq::<Doc>::empty());
        while i < self.condition_groups.len()
            invariant
                i <= self.condition_groups.len(),
                gs == self@.groups,
                gs == groups_model(self.condition_groups@),
                gs.len() == self.condition_groups@.len(),
                group_docs(models@, table@, alias@, gs.subrange(0, i as int)) == Ok::<Seq<Doc>, ErrorKind>(docs_view(docs@)),
            decreases self.condition_groups.len() - i,
        {
            assert(gs.subrange(0, i + 1).drop_last() =~= gs.subrange(0, i as int));
            assert(gs[i as int] == self.condition_groups@[i as int]@);
            match build_single_condition_group_document(models, table, alias, &self.condition_groups[i]) {
                Err(e) => {
                    proof {
                        lemma_group_docs_err_at(models@, table@, alias@, gs, i as int + 1, gs.len() as int);
                        assert(gs.subrange(0, gs.len() as int) =~= gs);
                    }
                    return Err(e);
                }
                Ok(d) => {
                    if d.len() > 0 {
                        let ghost before = docs_view(docs@);
                        docs.push(d);
                        assert(docs_view(docs@) =~= before.push(entries_view(docs@.last()@)));
                    }
                }
            }
            i = i + 1;
        }
        assert(gs.subrange(0, self.condition_groups.len() as int) =~= gs);
        Ok(combine_documents(and_key_string(), docs))
    }
}

fn conditions_copy(conditions: &[QueryCondition]) -> (r: Vec<QueryCondition>)
    ensures
        conditions_model(r@) == conditions_model(conditions@),
{
    let mut r: Vec<QueryCondition> = Vec::new();
    let mut i: usize = 0;
    while i < conditions.len()
        invariant
            i <= conditions.len(),
            r@.len() == i,
            forall|k: int| 0 <= k < i ==> #[trigger] r@[k]@ == conditions@[k]@,
        decreases conditions.len() - i,
    {
        r.push(conditions[i].duplicate());
        i = i + 1;
    }
    assert(conditions_model(r@) =~= conditions_model(conditions@));
    r
}

fn groups_copy(groups: &[QueryConditionGroup]) -> (r: Vec<QueryConditionGroup>)
    ensures
        groups_model(r@) == groups_model(groups@),
{
    let mut r: Vec<QueryConditionGroup> = Vec::new();
    let mut i: usize = 0;
    while i < groups.len()
        invariant
            i <= groups.len(),
            r@.len() == i,
            forall|k: int| 0 <= k < i ==> #[trigger] r@[k]@ == groups@[k]@,
        decreases groups.len() - i,
    {
        r.push(groups[i].duplicate());
        i = i + 1;
    }
    assert(groups_model(r@) =~= groups_model(groups@));
    r
}

impl MongoQueryBuilder {
    /// An empty builder.
    pub fn new() -> (b: Self)
        ensures
            b@ == (MongoBuilderView { conditions: Seq::empty(), groups: Seq::empty() }),
    {
        let b = MongoQueryBuilder { conditions: Vec::new(), condition_groups: Vec::new() };
        assert(conditions_model(b.conditions@) =~= Seq::<Condition>::empty());
        assert(groups_model(b.condition_groups@) =~= Seq::<Group>::empty());
        b
    }

    /// Adds a condition.
    pub fn where_condition(self, condition: QueryCondition) -> (r: Self)
        ensures
            r@ == (MongoBuilderView { conditions: self@.conditions.push(condition@), ..self@ }),
    {
        let mut b = self;
        let ghost before = conditions_model(b.conditions@);
        b.conditions.push(condition);
        assert(conditions_model(b.conditions@) =~= before.push(condition@));
        b
    }

    /// Adds conditions.
    pub fn where_conditions(self, conditions: &[QueryCondition]) -> (r: Self)
        ensures
            r@ == (MongoBuilderView { conditions: self@.conditions + conditions_model(conditions@), ..self@ }),
    {
        let mut b = self;
        let ghost before = conditions_model(b.conditions@);
        let mut more = conditions_copy(conditions);
        b.conditions.append(&mut more);
        assert(conditions_model(b.conditions@) =~= before + conditions_model(conditions@));
        b
    }

    /// Adds condition trees; the plain conditions stay, and are used only
    /// when there are no trees.
    pub fn where_condition_groups(self, groups: &[QueryConditionGroup]) -> (r: Self)
        ensures
            r@ == (MongoBuilderView { groups: self@.groups + groups_model(groups@), ..self@ }),
    {
        let mut b = self;
        let ghost before = groups_model(b.condition_groups@);
        let mut more = groups_copy(groups);
        b.condition_groups.append(&mut more);
        assert(groups_model(b.condition_groups@) =~= before + groups_model(groups@));
        b
    }

    /// The query document on `table` (see `query_document`). `models`
    /// holds the registered models, which `alias` selects among for the
    /// field kinds that Contains and IN consult.
    pub fn build(self, table: &str, alias: &str, models: &ModelRegistry) -> (r: Result<Document, QuickDbError>)
        ensures
            match (r, query_document(self@, models@, table@, alias@)) {
                (Ok(x), Ok(y)) => x@ == y,
                (Err(e), Err(k)) => e@ == k,
                _ => false,
            },
    {
        let mut query: Vec<(String, Bson)> = Vec::new();
        assert(entries_view(query@) =~= Seq::<(Seq<char>, BsonValue)>::empty());
        if self.condition_groups.len() > 0 {
            match self.build_condition_groups_document(models, table, alias) {
                Err(e) => return Err(e),
                Ok(d) => {
                    if d.len() > 0 {
                        doc_extend_entries(&mut query, d);
                    } else {
                        assert(entries_view(d@).len() == 0);
                        assert(doc_extend(Seq::empty(), entries_view(d@)) == Seq::<(Seq<char>, BsonValue)>::empty());
                    }
                }
            }
        } else if self.conditions.len() > 0 {
            match self.build_conditions_document(models, table, alias) {
                Err(e) => return Err(e),
                Ok(d) => {
                    if d.len() > 0 {
                        doc_extend_entries(&mut query, d);
                    } else {
                        assert(entries_view(d@).len() == 0);
                        assert(doc_extend(Seq::empty(), entries_view(d@)) == Seq::<(Seq<char>, BsonValue)>::empty());
                    }
                }
            }
        }
        Ok(Document { entries: query })
    }
}

/// The query document of a list of conditions on `table` (see
/// `query_document`).
pub fn build_query_document(table: &str, alias: &str, conditions: &[QueryCondition], models: &ModelRegistry)
    -> (r: Result<Document, QuickDbError>)
    ensures
        match (r, conditions_document(models@, table@, alias@, conditions_model(conditions@))) {
            (Ok(x), Ok(y)) => conditions@.len() > 0 ==> x@ == doc_extend(Seq::empty(), y),
            (Err(e), Err(k)) => e@ == k,
            _ => false,
        },
        conditions@.len() == 0 ==> (r matches Ok(x) && x@ == Seq::<(Seq<char>, BsonValue)>::empty()),
{
    let b = MongoQueryBuilder::new().where_conditions(conditions);
    assert(Seq::<Condition>::empty() + conditions_model(conditions@) =~= conditions_model(conditions@));
    b.build(table, alias, models)
}

/// The lowercase text of `s` as `str::to_lowercase` gives it.
pub uninterp spec fn unicode_lowercase(s: Seq<char>) -> Seq<char>;

/// Calls `str::to_lowercase`; the result is named by `unicode_lowercase`.
#[verifier::external_body]
pub(crate) fn to_lowercase(s: &str) -> (r: String)
    ensures
        r@ == unicode_lowercase(s@),
{
    s.to_lowercase()
}

/// Whether an error message of the document store says that
/// `collection` does not exist: its lowercase text mentions a namespace
/// that was not found (in general, or `ns not found: <collection>`), a
/// collection that does not exist, an invalid namespace, or a failed
/// find command.
pub open spec fn collection_missing_message(message: Seq<char>, collection: Seq<char>) -> bool {
    let m = unicode_lowercase(message);
    contains_seq(m, "namespace not found"@)
        || contains_seq(m, "ns not found: "@ + unicode_lowercase(collection))
        || (contains_seq(m, "collection"@) && contains_seq(m, "does not exist"@))
        || contains_seq(m, "invalid namespace"@)
        || (contains_seq(m, "command failed"@) && contains_seq(m, "find"@))
}

pub(crate) fn message_contains(m: &Vec<char>, t: &str) -> (b: bool)
    ensures
        b == contains_seq(m@, t@),
{
    let tc = chars_of(t);
    chars_contain(m.as_slice(), tc.as_slice())
}

/// Whether an error message says that `collection` does not exist (see
/// `collection_missing_message`).
pub fn check_collection_not_exist_error(error_message: &str, collection: &str) -> (b: bool)
    ensures
        b == collection_missing_message(error_message@, collection@),
{
    let lowered = to_lowercase(error_message);
    let m = chars_of(lowered.as_str());
    let mut ns = String::new();
    ns.append("ns not found: ");
    let lc = to_lowercase(collection);
    ns.append(lc.as_str());
    message_contains(&m, "namespace not found")
        || message_contains(&m, ns.as_str())
        || (message_contains(&m, "collection") && message_contains(&m, "does not exist"))
        || message_contains(&m, "invalid namespace")
        || (message_contains(&m, "command failed") && message_contains(&m, "find"))
}

/// Whether no key occurs twice in a document.
pub open spec fn keys_unique<V>(d: Seq<(Seq<char>, V)>) -> bool {
    forall|i: int, j: int| 0 <= i < j < d.len() ==> d[i].0 != d[j].0
}

pub(crate) proof fn lemma_doc_insert_unique<V>(d: Seq<(Seq<char>, V)>, k: Seq<char>, v: V)
    requires
        keys_unique(d),
    ensures
        keys_unique(doc_insert(d, k, v)),
{
    lemma_key_index_bounds(d, k);
    let r = doc_insert(d, k, v);
    match key_index(d, k) {
        Some(x) => {
            assert forall|i: int, j: int| 0 <= i < j < r.len() implies r[i].0 != r[j].0 by {
                assert(r[i].0 == d[i].0);
                assert(r[j].0 == d[j].0);
            }
        },
        None => {
            assert forall|i: int, j: int| 0 <= i < j < r.len() implies r[i].0 != r[j].0 by {
                if j == d.len() {
                    assert(d[i].0 != k);
                }
            }
        },
    }
}

/// Inserting entries into a document whose keys are unique keeps them
/// unique, whatever the entries.
pub proof fn law_doc_extend_keeps_keys_unique(d: Doc, e: Doc)
    requires
        keys_unique(d),
    ensures
        keys_unique(doc_extend(d, e)),
    decreases e.len(),
{
    if e.len() > 0 {
        law_doc_extend_keeps_keys_unique(d, e.drop_last());
        lemma_doc_insert_unique(doc_extend(d, e.drop_last()), e.last().0, e.last().1);
    }
}

/// A query document that a builder makes has no key twice.
pub proof fn law_query_document_keys_unique(b: MongoBuilderView, models: Seq<ModelView>, table: Seq<char>, alias: Seq<char>)
    ensures
        query_document(b, models, table, alias) matches Ok(d) ==> keys_unique(d),
{
    let empty = Seq::<(Seq<char>, BsonValue)>::empty();
    assert(keys_unique(empty));
    if let Ok(d) = groups_document(models, table, alias, b.groups) {
        law_doc_extend_keeps_keys_unique(empty, d);
    }
    if let Ok(d) = conditions_document(models, table, alias, b.conditions) {
        law_doc_extend_keeps_keys_unique(empty, d);
    }
}

/// Whether an operation multiplies its field (`$mul`).
pub open spec fn multiplies(op: UpdateOperator) -> bool {
    op == UpdateOperator::Multiply || op == UpdateOperator::Divide || op == UpdateOperator::PercentIncrease
        || op == UpdateOperator::PercentDecrease
}

/// The negation of a float's decimal text.
pub open spec fn negated_float(t: Seq<char>) -> Seq<char> {
    if t.len() > 0 && t[0] == '-' { t.drop_first() } else { seq!['-'] + t }
}

/// `$mul`
pub open spec fn mul_key() -> Seq<char> {
    seq!['$', 'm', 'u', 'l']
}

/// How the set and increment documents of an update stand after some
/// operations: built so far, refused, or stuck where building cannot go
/// on (a `$mul` entry that is not a document, or the negation of the
/// smallest integer).
pub enum UpdateFold {
    Ready { set: Doc, inc: Doc },
    Refused(ErrorKind),
    Stuck,
}

/// The value an operation writes: its value for set, increment and
/// multiply; the negated number for decrement; the float `factor` for
/// divide and the percentage changes (whose arithmetic is done in
/// floating point by the caller). Decrement, divide and the percentage
/// changes need a number.
pub open spec fn operation_bson(op: OperationView, factor: Seq<char>) -> Option<Result<BsonValue, ErrorKind>> {
    let refused = Some(Err(ErrorKind::Validation { field: op.field }));
    match op.operation {
        UpdateOperator::Decrement => match op.value {
            Value::Int(i) => if i == i64::MIN { None } else { Some(Ok(BsonValue::Int64((-i) as i64))) },
            Value::Float(t) => Some(Ok(BsonValue::Double(negated_float(t)))),
            _ => refused,
        },
        UpdateOperator::Divide | UpdateOperator::PercentIncrease | UpdateOperator::PercentDecrease => match op.value {
            Value::Int(_) | Value::Float(_) => Some(Ok(BsonValue::Double(factor))),
            _ => refused,
        },
        _ => Some(Ok(bson_of(op.value))),
    }
}

/// Sets `field` to `v` inside the `$mul` document of `set`, adding that
/// document last when there is none; `None` when `$mul` holds something
/// other than a document.
pub open spec fn mul_insert(set: Doc, field: Seq<char>, v: BsonValue) -> Option<Doc> {
    match key_index(set, mul_key()) {
        None => Some(set.push((mul_key(), BsonValue::Document(seq![(field, v)])))),
        Some(i) => match set[i].1 {
            BsonValue::Document(m) => Some(set.update(i, (mul_key(), BsonValue::Document(doc_insert(m, field, v))))),
            _ => None,
        },
    }
}

/// The set and increment documents of a list of operations, with the
/// float factors that the caller computed for them.
pub open spec fn update_fold(ops: Seq<OperationView>, factors: Seq<Seq<char>>) -> UpdateFold
    decreases ops.len(),
{
    if ops.len() == 0 {
        UpdateFold::Ready { set: Seq::empty(), inc: Seq::empty() }
    } else {
        match update_fold(ops.drop_last(), factors) {
            UpdateFold::Ready { set, inc } => {
                let op = ops.last();
                match operation_bson(op, factors[ops.len() - 1]) {
                    None => UpdateFold::Stuck,
                    Some(Err(e)) => UpdateFold::Refused(e),
                    Some(Ok(b)) => if op.operation == UpdateOperator::Assign {
                        UpdateFold::Ready { set: doc_insert(set, op.field, b), inc }
                    } else if op.operation == UpdateOperator::Increment || op.operation == UpdateOperator::Decrement {
                        UpdateFold::Ready { set, inc: doc_insert(inc, op.field, b) }
                    } else {
                        match mul_insert(set, op.field, b) {
                            Some(s2) => UpdateFold::Ready { set: s2, inc },
                            None => UpdateFold::Stuck,
                        }
                    },
                }
            },
            other => other,
        }
    }
}

/// The update document of a list of operations: `$mul` (taken out of the
/// set document) first, then `$set` with the rest of the set document,
/// then `$inc`; a refusal as the fold gives it, and a validation error
/// about `operations` when nothing would be updated.
pub open spec fn update_document(ops: Seq<OperationView>, factors: Seq<Seq<char>>) -> Result<Doc, ErrorKind> {
    match update_fold(ops, factors) {
        UpdateFold::Ready { set, inc } => {
            let with_set = if set.len() > 0 {
                let (head, rest) = match key_index(set, mul_key()) {
                    Some(i) => (seq![(mul_key(), set[i].1)], set.remove(i)),
                    None => (Seq::empty(), set),
                };
                doc_insert(head, seq!['$', 's', 'e', 't'], BsonValue::Document(rest))
            } else {
                Seq::empty()
            };
            let with_inc = if inc.len() > 0 {
                doc_insert(with_set, seq!['$', 'i', 'n', 'c'], BsonValue::Document(inc))
            } else {
                with_set
            };
            if with_inc.len() == 0 {
                Err(ErrorKind::Validation { field: "operations"@ })
            } else {
                Ok(with_inc)
            }
        },
        UpdateFold::Refused(e) => Err(e),
        UpdateFold::Stuck => Err(ErrorKind::Query),
    }
}

/// The negation of a float's decimal text (see `negated_float`).
fn negate_float_text(t: &str) -> (r: String)
    ensures
        r@ == negated_float(t@),
{
    let cs = chars_of(t);
    let mut r = String::new();
    let from: usize = if cs.len() > 0 && cs[0] == '-' { 1 } else { 0 };
    if from == 0 {
        push_char(&mut r, '-');
    }
    let ghost start = r@;
    let mut i: usize = from;
    while i < cs.len()
        invariant
            from <= i <= cs.len(),
            r@ == start + cs@.subrange(from as int, i as int),
        decreases cs.len() - i,
    {
        push_char(&mut r, cs[i]);
        assert(cs@.subrange(from as int, i + 1) =~= cs@.subrange(from as int, i as int).push(cs@[i as int]));
        i = i + 1;
    }
    if from == 1 {
        assert(r@ =~= t@.drop_first());
    } else {
        assert(r@ =~= seq!['-'] + t@);
    }
    r
}

/// The value an operation writes (see `operation_bson`).
fn operation_value(op: &UpdateOperation, factor: &String) -> (r: Option<Result<Bson, QuickDbError>>)
    ensures
        match (r, operation_bson(op@, factor@)) {
            (None, None) => true,
            (Some(Ok(x)), Some(Ok(y))) => x@ == y,
            (Some(Err(e)), Some(Err(k))) => e@ == k,
            _ => false,
        },
{
    match op.operation {
        UpdateOperator::Decrement => match &op.value {
            DataValue::Int(i) => {
                if *i == -9223372036854775807i64 - 1 {
                    None
                } else {
                    Some(Ok(Bson::Int64(-*i)))
                }
            }
            DataValue::Float(t) => Some(Ok(Bson::Double(negate_float_text(t.as_str())))),
            _ => Some(Err(validation_error(op.field.as_str(), "Decrement操作只支持数值类型"))),
        },
        UpdateOperator::Divide | UpdateOperator::PercentIncrease | UpdateOperator::PercentDecrease => match &op.value {
            DataValue::Int(_) | DataValue::Float(_) => Some(Ok(Bson::Double(factor.clone()))),
            _ => Some(Err(validation_error(op.field.as_str(), "该操作只支持数值类型"))),
        },
        _ => Some(Ok(data_value_to_bson(&op.value))),
    }
}

/// The set and increment documents of an update while they are built.
pub enum UpdateParts {
    Ready { set: Vec<(String, Bson)>, inc: Vec<(String, Bson)> },
    Refused(QuickDbError),
    Stuck,
}

pub open spec fn parts_match(r: UpdateParts, m: UpdateFold) -> bool {
    match (r, m) {
        (UpdateParts::Ready { set, inc }, UpdateFold::Ready { set: s, inc: i }) => entries_view(set@) == s && entries_view(inc@) == i,
        (UpdateParts::Refused(e), UpdateFold::Refused(k)) => e@ == k,
        (UpdateParts::Stuck, UpdateFold::Stuck) => true,
        _ => false,
    }
}

pub open spec fn strings_model(v: Seq<String>) -> Seq<Seq<char>> {
    v.map_values(|s: String| s@)
}

proof fn lemma_update_fold_stops(ops: Seq<OperationView>, factors: Seq<Seq<char>>, k: int, n: int)
    requires
        0 <= k <= n <= ops.len(),
        !(update_fold(ops.subrange(0, k), factors) is Ready),
    ensures
        update_fold(ops.subrange(0, n), factors) == update_fold(ops.subrange(0, k), factors),
    decreases n - k,
{
    if n > k {
        lemma_update_fold_stops(ops, factors, k, n - 1);
        assert(ops.subrange(0, n).drop_last() =~= ops.subrange(0, n - 1));
    }
}

/// Sets `field` inside the `$mul` document of `set` (see `mul_insert`);
/// `false` when `$mul` holds something other than a document, and then
/// `set` is left as it was.
fn mul_insert_entry(set: &mut Vec<(String, Bson)>, field: &str, v: Bson) -> (ok: bool)
    ensures
        match mul_insert(entries_view(old(set)@), field@, v@) {
            Some(d) => ok && entries_view(final(set)@) == d,
            None => !ok,
        },
{
    let ghost d = entries_view(set@);
    proof { reveal_strlit("$mul"); }
    assert("$mul"@ == mul_key());
    let mut i: usize = 0;
    while i < set.len()
        invariant
            i <= set.len(),
            d == entries_view(set@),
            d == entries_view(old(set)@),
            d.len() == set@.len(),
            forall|j: int| 0 <= j < i ==> d[j].0 != mul_key(),
        decreases set.len() - i,
    {
        proof { reveal_strlit("$mul"); }
        assert("$mul"@ == mul_key());
        assert(d[i as int].0 == set@[i as int].0@);
        if crate::models::str_eq(set[i].0.as_str(), "$mul") {
            proof { lemma_key_index_first(d, mul_key(), i as int); }
            let ghost before = set@;
            let (k, b) = set.remove(i);
            match b {
                Bson::Document(mut m) => {
                    let ghost mv = entries_view(m@);
                    assert(d[i as int].1 == BsonValue::Document(mv)) by {
                        assert(before[i as int] == (k, Bson::Document(m)));
                        assert(Bson::Document(m)@->Document_0 =~= mv) by {
                            assert(forall|q: int| 0 <= q < m@.len() ==> Bson::Document(m)@->Document_0[q] == (m@[q].0@, m@[q].1@));
                        }
                    }
                    doc_insert_entry(&mut m, field.to_owned(), v);
                    let nb = Bson::Document(m);
                    assert(nb@->Document_0 =~= entries_view(m@)) by {
                        assert(forall|q: int| 0 <= q < m@.len() ==> nb@->Document_0[q] == (m@[q].0@, m@[q].1@));
                    }
                    set.insert(i, (k, nb));
                    assert(entries_view(set@) =~= d.update(i as int, (mul_key(), BsonValue::Document(doc_insert(mv, field@, v@)))));
                    return true;
                }
                other => {
                    assert(d[i as int].1 == other@);
                    set.insert(i, (k, other));
                    assert(set@ =~= before);
                    return false;
                }
            }
        }
        i = i + 1;
    }
    proof {
        lemma_key_index_bounds(d, mul_key());
        if let Some(j) = key_index(d, mul_key()) {
            assert(d[j].0 != mul_key());
        }
    }
    let mut inner: Vec<(String, Bson)> = Vec::new();
    inner.push((field.to_owned(), v));
    let nb = Bson::Document(inner);
    assert(nb@->Document_0 =~= seq![(field@, v@)]) by {
        assert(nb@->Document_0[0] == (inner@[0].0@, inner@[0].1@));
    }
    set.push(("$mul".to_owned(), nb));
    assert(entries_view(set@) =~= d.push((mul_key(), BsonValue::Document(seq![(field@, v@)]))));
    true
}

/// The set and increment documents of a list of operations (see
/// `update_fold`); `factors[i]` is the float factor of operation `i`
/// where it takes one.
pub fn fold_update_operations(operations: &[UpdateOperation], factors: &[String]) -> (r: UpdateParts)
    requires
        factors@.len() == operations@.len(),
    ensures
        parts_match(r, update_fold(operations_model(operations@), strings_model(factors@))),
{
    let ghost ops = operations_model(operations@);
    let ghost fs = strings_model(factors@);
    let mut set: Vec<(String, Bson)> = Vec::new();
    let mut inc: Vec<(String, Bson)> = Vec::new();
    let mut k: usize = 0;
    assert(ops.subrange(0, 0) =~= Seq::<OperationView>::empty());
    assert(entries_view(set@) =~= Seq::<(Seq<char>, BsonValue)>::empty());
    assert(entries_view(inc@) =~= Seq::<(Seq<char>, BsonValue)>::empty());
    while k < operations.len()
        invariant
            k <= operations.len(),
            factors@.len() == operations@.len(),
            ops == operations_model(operations@),
            fs == strings_model(factors@),
            update_fold(ops.subrange(0, k as int), fs)
                == (UpdateFold::Ready { set: entries_view(set@), inc: entries_view(inc@) }),
        decreases operations.len() - k,
    {
        let ghost sub = ops.subrange(0, k + 1);
        assert(sub.drop_last() =~= ops.subrange(0, k as int));
        assert(sub.last() == operations@[k as int]@);
        assert(fs[k as int] == factors@[k as int]@);
        let op = &operations[k];
        match operation_value(op, &factors[k]) {
            None => {
                proof {
                    lemma_update_fold_stops(ops, fs, k + 1, ops.len() as int);
                    assert(ops.subrange(0, ops.len() as int) =~= ops);
                }
                return UpdateParts::Stuck;
            }
            Some(Err(e)) => {
                proof {
                    lemma_update_fold_stops(ops, fs, k + 1, ops.len() as int);
                    assert(ops.subrange(0, ops.len() as int) =~= ops);
                }
                return UpdateParts::Refused(e);
            }
            Some(Ok(b)) => {
                if op.operation == UpdateOperator::Assign {
                    doc_insert_entry(&mut set, op.field.clone(), b);
                } else if op.operation == UpdateOperator::Increment || op.operation == UpdateOperator::Decrement {
                    doc_insert_entry(&mut inc, op.field.clone(), b);
                } else {
                    if !mul_insert_entry(&mut set, op.field.as_str(), b) {
                        proof {
                            lemma_update_fold_stops(ops, fs, k + 1, ops.len() as int);
                            assert(ops.subrange(0, ops.len() as int) =~= ops);
                        }
                        return UpdateParts::Stuck;
                    }
                }
            }
        }
        k = k + 1;
    }
    assert(ops.subrange(0, operations.len() as int) =~= ops);
    UpdateParts::Ready { set, inc }
}

/// Whether building the update document of these operations gets stuck
/// (see `UpdateFold::Stuck`); callers stop there.
pub fn update_document_stalls(operations: &[UpdateOperation], factors: &[String]) -> (b: bool)
    requires
        factors@.len() == operations@.len(),
    ensures
        b == (update_fold(operations_model(operations@), strings_model(factors@)) is Stuck),
{
    match fold_update_operations(operations, factors) {
        UpdateParts::Stuck => true,
        _ => false,
    }
}

/// Takes the `$mul` entry out of a document, if there is one.
fn take_mul_entry(set: &mut Vec<(String, Bson)>) -> (r: Option<(String, Bson)>)
    ensures
        match key_index(entries_view(old(set)@), mul_key()) {
            Some(i) => r matches Some(e) && (e.0@, e.1@) == entries_view(old(set)@)[i]
                && entries_view(final(set)@) == entries_view(old(set)@).remove(i),
            None => r is None && final(set)@ == old(set)@,
        },
{
    let ghost d = entries_view(set@);
    let mut i: usize = 0;
    while i < set.len()
        invariant
            i <= set.len(),
            d == entries_view(set@),
            d == entries_view(old(set)@),
            set@ == old(set)@,
            d.len() == set@.len(),
            forall|j: int| 0 <= j < i ==> d[j].0 != mul_key(),
        decreases set.len() - i,
    {
        proof { reveal_strlit("$mul"); }
        assert("$mul"@ == mul_key());
        assert(d[i as int].0 == set@[i as int].0@);
        if crate::models::str_eq(set[i].0.as_str(), "$mul") {
            proof { lemma_key_index_first(d, mul_key(), i as int); }
            let ghost before = set@;
            let e = set.remove(i);
            assert(entries_view(set@) =~= d.remove(i as int));
            return Some(e);
        }
        i = i + 1;
    }
    proof {
        lemma_key_index_bounds(d, mul_key());
        if let Some(j) = key_index(d, mul_key()) {
            assert(d[j].0 != mul_key());
        }
    }
    None
}

/// The update document of a list of operations (see `update_document`);
/// `factors[i]` is the float factor of operation `i` where it takes one
/// (`1 / x` for divide, `1 + p / 100` and `1 - p / 100` for the
/// percentage changes).
pub fn operations_update_document(operations: &[UpdateOperation], factors: &[String]) -> (r: Result<Document, QuickDbError>)
    requires
        factors@.len() == operations@.len(),
        !(update_fold(operations_model(operations@), strings_model(factors@)) is Stuck),
    ensures
        match (r, update_document(operations_model(operations@), strings_model(factors@))) {
            (Ok(x), Ok(y)) => x@ == y,
            (Err(e), Err(k)) => e@ == k,
            _ => false,
        },
{
    proof {
        reveal_strlit("$set");
        reveal_strlit("$inc");
    }
    match fold_update_operations(operations, factors) {
        UpdateParts::Stuck => Err(crate::error::query_error("更新操作无法构建")),
        UpdateParts::Refused(e) => Err(e),
        UpdateParts::Ready { set, inc } => {
            let mut set = set;
            let ghost sv = entries_view(set@);
            let ghost iv = entries_view(inc@);
            assert("$set"@ == seq!['$', 's', 'e', 't']);
            assert("$inc"@ == seq!['$', 'i', 'n', 'c']);
            let ghost with_set = if sv.len() > 0 {
                let (head, rest) = match key_index(sv, mul_key()) {
                    Some(i) => (seq![(mul_key(), sv[i].1)], sv.remove(i)),
                    None => (Seq::empty(), sv),
                };
                doc_insert(head, seq!['$', 's', 'e', 't'], BsonValue::Document(rest))
            } else {
                Seq::empty()
            };
            let mut update: Vec<(String, Bson)> = Vec::new();
            assert(entries_view(update@) =~= Seq::<(Seq<char>, BsonValue)>::empty());
            if set.len() > 0 {
                match take_mul_entry(&mut set) {
                    Some(e) => {
                        proof { lemma_key_index_bounds(sv, mul_key()); }
                        let ghost ev = (e.0@, e.1@);
                        update.push(e);
                        assert(entries_view(update@) =~= seq![ev]);
                        assert(ev == (mul_key(), sv[key_index(sv, mul_key())->0].1));
                    }
                    None => {}
                }
                let ghost rest = entries_view(set@);
                let b = Bson::Document(set);
                assert(b@ == BsonValue::Document(rest)) by {
                    assert(b@->Document_0 =~= rest) by {
                        assert(forall|q: int| 0 <= q < set@.len() ==> b@->Document_0[q] == (set@[q].0@, set@[q].1@));
                    }
                }
                doc_insert_entry(&mut update, "$set".to_owned(), b);
            }
            assert(entries_view(update@) == with_set);
            if inc.len() > 0 {
                let b = Bson::Document(inc);
                assert(b@ == BsonValue::Document(iv)) by {
                    assert(b@->Document_0 =~= iv) by {
                        assert(forall|q: int| 0 <= q < inc@.len() ==> b@->Document_0[q] == (inc@[q].0@, inc@[q].1@));
                    }
                }
                doc_insert_entry(&mut update, "$inc".to_owned(), b);
            }
            if update.len() == 0 {
                Err(validation_error("operations", "更新操作不能为空"))
            } else {
                Ok(Document { entries: update })
            }
        }
    }
}

/// The comparison key of a comparison operator in a query document:
/// `$lt` for Lt, `$lte` for Lte, `$gt` for Gt, `$gte` for Gte and `$ne`
/// for Ne.
pub open spec fn comparison_key(op: QueryOperator) -> Option<Seq<char>> {
    match op {
        QueryOperator::Lt => Some(seq!['$', 'l', 't']),
        QueryOperator::Lte => Some(seq!['$', 'l', 't', 'e']),
        QueryOperator::Gt => Some(seq!['$', 'g', 't']),
        QueryOperator::Gte => Some(seq!['$', 'g', 't', 'e']),
        QueryOperator::Ne => Some(seq!['$', 'n', 'e']),
        _ => None,
    }
}

/// Different comparison operators have different keys.
pub proof fn law_comparison_keys_distinct(a: QueryOperator, b: QueryOperator)
    requires
        comparison_key(a) is Some,
        comparison_key(b) is Some,
        a != b,
    ensures
        comparison_key(a) != comparison_key(b),
{
    let ka = comparison_key(a)->0;
    let kb = comparison_key(b)->0;
    if ka.len() == kb.len() {
        assert(ka[1] != kb[1] || ka[ka.len() - 1] != kb[kb.len() - 1]);
    }
}

/// A comparison condition on field `f` with value `v` gives exactly the
/// document `{f: {key: v}}` with its operator's comparison key, and an
/// equality gives `{f: v}`; so a builder with that one condition and no
/// condition trees builds exactly that filter.
pub proof fn law_comparison_documents(b: MongoBuilderView, models: Seq<ModelView>, table: Seq<char>, alias: Seq<char>, c: Condition)
    requires
        b.groups.len() == 0,
        b.conditions == seq![c],
    ensures
        comparison_key(c.operator) matches Some(k) ==> condition_doc(models, table, alias, c)
            == Ok::<Doc, ErrorKind>(seq![(c.field, BsonValue::Document(seq![(k, bson_of(c.value))]))]),
        comparison_key(c.operator) matches Some(k) ==> query_document(b, models, table, alias)
            == Ok::<Doc, ErrorKind>(seq![(c.field, BsonValue::Document(seq![(k, bson_of(c.value))]))]),
        c.operator == QueryOperator::Eq ==> query_document(b, models, table, alias)
            == Ok::<Doc, ErrorKind>(seq![(c.field, bson_of(c.value))]),
{
    let e = Seq::<(Seq<char>, BsonValue)>::empty();
    assert(b.conditions.drop_last() =~= Seq::<Condition>::empty());
    assert(b.conditions.last() == c);
    assert(conditions_document(models, table, alias, Seq::<Condition>::empty()) == Ok::<Doc, ErrorKind>(e));
    if let Ok(cd) = condition_doc(models, table, alias, c) {
        if cd.len() == 1 {
            let (k0, v0) = cd[0];
            assert(cd.drop_last() =~= e);
            assert(doc_extend(e, e) == e);
            assert(key_index(e, k0) is None);
            assert(doc_extend(e, cd) =~= seq![(k0, v0)]);
            assert(conditions_document(models, table, alias, b.conditions) == Ok::<Doc, ErrorKind>(seq![(k0, v0)]));
            assert(seq![(k0, v0)].drop_last() =~= e);
            assert(doc_extend(e, seq![(k0, v0)]) =~= seq![(k0, v0)]);
        }
    }
}

/// An update by one operation on field `f` with value `v`: an
/// assignment is `{"$set": {f: v}}` (for a field not itself named
/// `$mul`), an increment `{"$inc": {f: v}}`, a decrement of an integer
/// `i` `{"$inc": {f: -i}}`, and a multiplication `{"$mul": {f: v},
/// "$set": {}}`.
pub proof fn law_single_update_documents(op: OperationView, factors: Seq<Seq<char>>)
    requires
        factors.len() >= 1,
    ensures
        op.operation == UpdateOperator::Assign && op.field != mul_key() ==> update_document(seq![op], factors)
            == Ok::<Doc, ErrorKind>(seq![(seq!['$', 's', 'e', 't'], BsonValue::Document(seq![(op.field, bson_of(op.value))]))]),
        op.operation == UpdateOperator::Increment ==> update_document(seq![op], factors) == Ok::<Doc, ErrorKind>(
            seq![(seq!['$', 'i', 'n', 'c'], BsonValue::Document(seq![(op.field, bson_of(op.value))]))],
        ),
        op.operation == UpdateOperator::Decrement && op.value is Int && op.value->Int_0 != i64::MIN
            ==> update_document(seq![op], factors) == Ok::<Doc, ErrorKind>(
            seq![(seq!['$', 'i', 'n', 'c'], BsonValue::Document(seq![(op.field, BsonValue::Int64((-op.value->Int_0) as i64))]))],
        ),
        op.operation == UpdateOperator::Multiply ==> update_document(seq![op], factors) == Ok::<Doc, ErrorKind>(
            seq![
                (seq!['$', 'm', 'u', 'l'], BsonValue::Document(seq![(op.field, bson_of(op.value))])),
                (seq!['$', 's', 'e', 't'], BsonValue::Document(Seq::empty())),
            ],
        ),
{
    let e = Seq::<(Seq<char>, BsonValue)>::empty();
    let ops = seq![op];
    assert(ops.drop_last() =~= Seq::<OperationView>::empty());
    assert(ops.last() == op);
    assert(update_fold(Seq::<OperationView>::empty(), factors) == UpdateFold::Ready { set: e, inc: e });
    let set_key = seq!['$', 's', 'e', 't'];
    let inc_key = seq!['$', 'i', 'n', 'c'];
    if op.operation == UpdateOperator::Assign && op.field != mul_key() {
        let one = seq![(op.field, bson_of(op.value))];
        assert(doc_insert(e, op.field, bson_of(op.value)) =~= one);
        assert(update_fold(ops, factors) == UpdateFold::Ready { set: one, inc: e });
        assert(one.drop_last() =~= e);
        assert(key_index(one, mul_key()) is None);
        assert(doc_insert(e, set_key, BsonValue::Document(one)) =~= seq![(set_key, BsonValue::Document(one))]);
    }
    if op.operation == UpdateOperator::Increment || (op.operation == UpdateOperator::Decrement && op.value is Int
        && op.value->Int_0 != i64::MIN) {
        let b = operation_bson(op, factors[0])->0->Ok_0;
        let one = seq![(op.field, b)];
        assert(doc_insert(e, op.field, b) =~= one);
        assert(update_fold(ops, factors) == UpdateFold::Ready { set: e, inc: one });
        assert(doc_insert(e, inc_key, BsonValue::Document(one)) =~= seq![(inc_key, BsonValue::Document(one))]);
    }
    if op.operation == UpdateOperator::Multiply {
        let inner = seq![(op.field, bson_of(op.value))];
        let set = seq![(mul_key(), BsonValue::Document(inner))];
        assert(mul_insert(e, op.field, bson_of(op.value)) == Some(e.push((mul_key(), BsonValue::Document(inner)))));
        assert(e.push((mul_key(), BsonValue::Document(inner))) =~= set);
        assert(update_fold(ops, factors) == UpdateFold::Ready { set, inc: e });
        assert(set.drop_last() =~= e);
        assert(key_index(set, mul_key()) == Some(0int));
        assert(set.remove(0) =~= e);
        let head = seq![(mul_key(), set[0].1)];
        assert(head.drop_last() =~= e);
        assert(mul_key()[1] != set_key[1]);
        assert(head.last().0 != set_key);
        assert(key_index(head.drop_last(), set_key) is None);
        assert(key_index(head, set_key) is None) by {
            reveal_with_fuel(key_index, 2);
        }
        assert(doc_insert(head, set_key, BsonValue::Document(e)) =~= head.push((set_key, BsonValue::Document(e))));
        let want = seq![
            (seq!['$', 'm', 'u', 'l'], BsonValue::Document(inner)),
            (seq!['$', 's', 'e', 't'], BsonValue::Document(Seq::<(Seq<char>, BsonValue)>::empty())),
        ];
        assert(head.push((set_key, BsonValue::Document(e))) =~= want);
        assert(update_document(ops, factors) == Ok::<Doc, ErrorKind>(want));
    }
}

/// The pattern conditions and the null tests of the document store: on
/// field `f` with a string `s`, StartsWith matches the case-insensitive
/// regular expression `^s`, EndsWith `s$` and Regex `s`; Exists is
/// `{f: {"$exists": true}}`, IsNull `{f: {"$eq": null}}` and IsNotNull
/// `{f: {"$ne": null}}`.
pub proof fn law_pattern_and_null_documents(models: Seq<ModelView>, table: Seq<char>, alias: Seq<char>, c: Condition)
    ensures
        c.operator == QueryOperator::StartsWith && bson_of(c.value) is Str ==> condition_doc(models, table, alias, c)
            == Ok::<Doc, ErrorKind>(seq![(c.field, BsonValue::Document(seq![
                (seq!['$', 'r', 'e', 'g', 'e', 'x'], BsonValue::Str(seq!['^'] + bson_of(c.value)->Str_0)),
                (seq!['$', 'o', 'p', 't', 'i', 'o', 'n', 's'], BsonValue::Str(seq!['i'])),
            ]))]),
        c.operator == QueryOperator::EndsWith && bson_of(c.value) is Str ==> condition_doc(models, table, alias, c)
            == Ok::<Doc, ErrorKind>(seq![(c.field, BsonValue::Document(seq![
                (seq!['$', 'r', 'e', 'g', 'e', 'x'], BsonValue::Str(bson_of(c.value)->Str_0 + seq!['$'])),
                (seq!['$', 'o', 'p', 't', 'i', 'o', 'n', 's'], BsonValue::Str(seq!['i'])),
            ]))]),
        c.operator == QueryOperator::Regex && bson_of(c.value) is Str ==> condition_doc(models, table, alias, c)
            == Ok::<Doc, ErrorKind>(seq![(c.field, BsonValue::Document(seq![
                (seq!['$', 'r', 'e', 'g', 'e', 'x'], BsonValue::Str(bson_of(c.value)->Str_0)),
                (seq!['$', 'o', 'p', 't', 'i', 'o', 'n', 's'], BsonValue::Str(seq!['i'])),
            ]))]),
        c.operator == QueryOperator::Exists ==> condition_doc(models, table, alias, c) == Ok::<Doc, ErrorKind>(
            seq![(c.field, BsonValue::Document(seq![(seq!['$', 'e', 'x', 'i', 's', 't', 's'], BsonValue::Boolean(true))]))],
        ),
        c.operator == QueryOperator::IsNull ==> condition_doc(models, table, alias, c) == Ok::<Doc, ErrorKind>(
            seq![(c.field, BsonValue::Document(seq![(seq!['$', 'e', 'q'], BsonValue::Null)]))],
        ),
        c.operator == QueryOperator::IsNotNull ==> condition_doc(models, table, alias, c) == Ok::<Doc, ErrorKind>(
            seq![(c.field, BsonValue::Document(seq![(seq!['$', 'n', 'e'], BsonValue::Null)]))],
        ),
{
}

/// Membership conditions of the document store: In on field `f` is
/// `{f: {"$in": list}}` and NotIn `{f: {"$nin": list}}`, where the list is
/// the value itself when it is an array (on a field that is not registered
/// as an array) and the one-element list of the value otherwise.
pub proof fn law_membership_documents(models: Seq<ModelView>, table: Seq<char>, alias: Seq<char>, c: Condition)
    ensures
        c.operator == QueryOperator::In && !(bson_of(c.value) is Array) ==> condition_doc(models, table, alias, c)
            == Ok::<Doc, ErrorKind>(seq![(c.field, BsonValue::Document(seq![
                (seq!['$', 'i', 'n'], BsonValue::Array(seq![bson_of(c.value)])),
            ]))]),
        c.operator == QueryOperator::NotIn && !(bson_of(c.value) is Array) ==> condition_doc(models, table, alias, c)
            == Ok::<Doc, ErrorKind>(seq![(c.field, BsonValue::Document(seq![
                (seq!['$', 'n', 'i', 'n'], BsonValue::Array(seq![bson_of(c.value)])),
            ]))]),
        c.operator == QueryOperator::In && bson_of(c.value) is Array
            && field_kind(models, table, alias, c.field) != Some(FieldKind::Array) ==> condition_doc(models, table, alias, c)
            == Ok::<Doc, ErrorKind>(seq![(c.field, BsonValue::Document(seq![(seq!['$', 'i', 'n'], bson_of(c.value))]))]),
        c.operator == QueryOperator::NotIn && bson_of(c.value) is Array
            && field_kind(models, table, alias, c.field) != Some(FieldKind::Array) ==> condition_doc(models, table, alias, c)
            == Ok::<Doc, ErrorKind>(seq![(c.field, BsonValue::Document(seq![(seq!['$', 'n', 'i', 'n'], bson_of(c.value))]))]),
{
}

} // verus!
