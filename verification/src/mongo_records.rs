//! Records and stored documents: a record's `id` field is stored as
//! `_id`, values become BSON when written and come back from BSON when
//! read, and a new record's id follows the id strategy.

use vstd::prelude::*;
use crate::mongo::{
    Bson, BsonValue, Document, bson_of, data_value_to_bson, doc_insert, doc_insert_entry, entries_view, json_object_text, key_index,
    keys_unique, lemma_doc_insert_unique, lemma_key_index_bounds, lemma_key_index_first, object_doc,
};
use crate::models::{ModelRegistry, first_model};
use crate::query_builder::entries_model;
use crate::types::{DataValue, IdRule, IdStrategy, OffsetTimestamp, SortDirection, Value};
use crate::error::{QuickDbError, ErrorKind, validation_error};
use crate::render::{ascii_lower, lower_char};

verus! {

/// The name of a record's id field.
pub open spec fn id_key() -> Seq<char> {
    seq!['i', 'd']
}

/// The name under which a document store keeps a document's id.
pub open spec fn object_id_key() -> Seq<char> {
    seq!['_', 'i', 'd']
}

/// The stored name of a record field: `id` is stored as `_id`.
pub open spec fn stored_key(k: Seq<char>) -> Seq<char> {
    if k == id_key() { object_id_key() } else { k }
}

/// The record name of a stored field: `_id` is read back as `id`.
pub open spec fn record_key(k: Seq<char>) -> Seq<char> {
    if k == object_id_key() { id_key() } else { k }
}

/// A record's fields under their stored names, set in order: a later
/// field that lands on the same stored name replaces the earlier one.
pub open spec fn stored_fields(es: Seq<(Seq<char>, Value)>) -> Seq<(Seq<char>, Value)>
    decreases es.len(),
{
    if es.len() == 0 {
        Seq::empty()
    } else {
        doc_insert(stored_fields(es.drop_last()), stored_key(es.last().0), es.last().1)
    }
}

/// Sets `key` to `value` among a record's fields (see `doc_insert`).
pub fn record_insert_entry(entries: &mut Vec<(String, DataValue)>, key: String, value: DataValue)
    ensures
        entries_model(final(entries)@) == doc_insert(entries_model(old(entries)@), key@, value@),
{
    let ghost d = entries_model(entries@);
    let mut i: usize = 0;
    while i < entries.len()
        invariant
            i <= entries.len(),
            d == entries_model(entries@),
            d == entries_model(old(entries)@),
            d.len() == entries@.len(),
            forall|j: int| 0 <= j < i ==> d[j].0 != key@,
        decreases entries.len() - i,
    {
        if crate::models::str_eq(entries[i].0.as_str(), key.as_str()) {
            proof { lemma_key_index_first(d, key@, i as int); }
            entries.set(i, (key, value));
            assert(entries_model(entries@) =~= d.update(i as int, (key@, value@)));
            return;
        }
        i = i + 1;
    }
    proof {
        lemma_key_index_bounds(d, key@);
        if let Some(j) = key_index(d, key@) {
            assert(d[j].0 != key@);
        }
    }
    entries.push((key, value));
    assert(entries_model(entries@) =~= d.push((key@, value@)));
}

fn stored_key_string(k: &str) -> (r: String)
    ensures
        r@ == stored_key(k@),
{
    proof {
        reveal_strlit("id");
        reveal_strlit("_id");
    }
    assert("id"@ == id_key());
    assert("_id"@ == object_id_key());
    if crate::models::str_eq(k, "id") {
        "_id".to_owned()
    } else {
        k.to_owned()
    }
}

/// A record's fields under their stored names (see `stored_fields`).
pub fn map_data_fields(data: &Vec<(String, DataValue)>) -> (r: Vec<(String, DataValue)>)
    ensures
        entries_model(r@) == stored_fields(entries_model(data@)),
{
    let ghost m = entries_model(data@);
    let mut out: Vec<(String, DataValue)> = Vec::new();
    let mut i: usize = 0;
    assert(m.subrange(0, 0) =~= Seq::<(Seq<char>, Value)>::empty());
    assert(entries_model(out@) =~= stored_fields(m.subrange(0, 0)));
    while i < data.len()
        invariant
            i <= data.len(),
            m == entries_model(data@),
            entries_model(out@) == stored_fields(m.subrange(0, i as int)),
        decreases data.len() - i,
    {
        let k = stored_key_string(data[i].0.as_str());
        let v = data[i].1.duplicate();
        record_insert_entry(&mut out, k, v);
        assert(m.subrange(0, i + 1).drop_last() =~= m.subrange(0, i as int));
        i = i + 1;
    }
    assert(m.subrange(0, data.len() as int) =~= m);
    out
}

/// The key of an update's field assignments.
pub open spec fn set_key() -> Seq<char> {
    seq!['$', 's', 'e', 't']
}

/// The assignments of an update: every stored field but `_id`, which a
/// document store does not let an update change, as BSON, set in order.
pub open spec fn set_entries(fs: Seq<(Seq<char>, Value)>) -> Seq<(Seq<char>, BsonValue)>
    decreases fs.len(),
{
    if fs.len() == 0 {
        Seq::empty()
    } else if fs.last().0 == object_id_key() {
        set_entries(fs.drop_last())
    } else {
        doc_insert(set_entries(fs.drop_last()), fs.last().0, bson_of(fs.last().1))
    }
}

/// The update document of a record's fields: one `$set` of the
/// assignments of its stored fields.
pub open spec fn update_document_of(es: Seq<(Seq<char>, Value)>) -> Seq<(Seq<char>, BsonValue)> {
    seq![(set_key(), BsonValue::Document(set_entries(stored_fields(es))))]
}

/// The document of a list of entries.
pub(crate) fn document_bson(entries: Vec<(String, Bson)>) -> (r: Bson)
    ensures
        r@ == BsonValue::Document(entries_view(entries@)),
{
    let ghost ev = entries_view(entries@);
    let r = Bson::Document(entries);
    assert(r@->Document_0 =~= ev);
    r
}

/// The update document that sets a record's fields (see
/// `update_document_of`).
pub fn build_update_document(data: &Vec<(String, DataValue)>) -> (r: Document)
    ensures
        r@ == update_document_of(entries_model(data@)),
{
    proof {
        reveal_strlit("_id");
        reveal_strlit("$set");
    }
    assert("_id"@ == object_id_key());
    assert("$set"@ == set_key());
    let mapped = map_data_fields(data);
    let ghost m = entries_model(mapped@);
    let mut set: Vec<(String, Bson)> = Vec::new();
    let mut i: usize = 0;
    assert(m.subrange(0, 0) =~= Seq::<(Seq<char>, Value)>::empty());
    assert(entries_view(set@) =~= set_entries(m.subrange(0, 0)));
    while i < mapped.len()
        invariant
            i <= mapped.len(),
            m == entries_model(mapped@),
            "_id"@ == object_id_key(),
            entries_view(set@) == set_entries(m.subrange(0, i as int)),
        decreases mapped.len() - i,
    {
        let ghost pre = m.subrange(0, i as int);
        let ghost nxt = m.subrange(0, i + 1);
        assert(nxt.drop_last() =~= pre);
        assert(nxt.last() == (mapped@[i as int].0@, mapped@[i as int].1@));
        if !crate::models::str_eq(mapped[i].0.as_str(), "_id") {
            let b = data_value_to_bson(&mapped[i].1);
            let k = mapped[i].0.clone();
            doc_insert_entry(&mut set, k, b);
            assert(entries_view(set@) == set_entries(nxt));
        } else {
            assert(entries_view(set@) == set_entries(nxt));
        }
        i = i + 1;
    }
    assert(m.subrange(0, mapped.len() as int) =~= m);
    let mut entries: Vec<(String, Bson)> = Vec::new();
    entries.push(("$set".to_owned(), document_bson(set)));
    let r = Document { entries };
    assert(r@ =~= update_document_of(entries_model(data@)));
    r
}

/// The value a stored BSON value reads back as: strings, integers,
/// floats, booleans, null and binary as they are; a date-time as the same
/// instant with offset zero; an object id as its hex text; JSON as JSON;
/// arrays item by item; a document as the record of its fields.
pub open spec fn value_of_bson(b: BsonValue) -> Value
    decreases b,
{
    match b {
        BsonValue::Str(s) => Value::Str(s),
        BsonValue::Int64(i) => Value::Int(i),
        BsonValue::Double(t) => Value::Float(t),
        BsonValue::Boolean(x) => Value::Bool(x),
        BsonValue::DateTime(t) => Value::DateTime(OffsetTimestamp { seconds: t.seconds, nanos: t.nanos, offset_seconds: 0 }),
        BsonValue::Document(es) => Value::Object(record_fields(es)),
        BsonValue::Array(items) => Value::Array(Seq::new(
            items.len(),
            |i: int| if 0 <= i < items.len() { value_of_bson(items[i]) } else { Value::Null },
        )),
        BsonValue::Null => Value::Null,
        BsonValue::Binary(bytes) => Value::Bytes(bytes),
        BsonValue::Json(t) => Value::Json(t),
        BsonValue::ObjectId(t) => Value::Str(t),
    }
}

/// The record fields of a stored document: each field under its record
/// name with the value it reads back as, set in order.
pub open spec fn record_fields(es: Seq<(Seq<char>, BsonValue)>) -> Seq<(Seq<char>, Value)>
    decreases es,
{
    if es.len() == 0 {
        Seq::empty()
    } else {
        proof {
            assert(decreases_to!(es => es.subrange(0, es.len() - 1)));
            assert(decreases_to!(es => es[es.len() - 1]));
        }
        doc_insert(record_fields(es.drop_last()), record_key(es.last().0), value_of_bson(es.last().1))
    }
}

fn record_key_string(k: &str) -> (r: String)
    ensures
        r@ == record_key(k@),
{
    proof {
        reveal_strlit("id");
        reveal_strlit("_id");
    }
    assert("id"@ == id_key());
    assert("_id"@ == object_id_key());
    if crate::models::str_eq(k, "_id") {
        "id".to_owned()
    } else {
        k.to_owned()
    }
}

/// The value a stored BSON value reads back as (see `value_of_bson`).
#[verifier::loop_isolation(false)]
pub fn bson_to_data_value(bson: &Bson) -> (r: DataValue)
    ensures
        r@ == value_of_bson(bson@),
    decreases bson,
{
    match bson {
        Bson::String(s) => DataValue::String(s.clone()),
        Bson::Int64(i) => DataValue::Int(*i),
        Bson::Double(t) => DataValue::Float(t.clone()),
        Bson::Boolean(x) => DataValue::Bool(*x),
        Bson::DateTime(t) => DataValue::DateTime(OffsetTimestamp { seconds: t.seconds, nanos: t.nanos, offset_seconds: 0 }),
        Bson::Document(es) => {
            let ghost m = bson@->Document_0;
            let mut out: Vec<(String, DataValue)> = Vec::new();
            let mut i: usize = 0;
            assert(entries_model(out@) =~= record_fields(m.subrange(0, 0)));
            while i < es.len()
                invariant
                    i <= es.len(),
                    m.len() == es@.len(),
                    entries_model(out@) == record_fields(m.subrange(0, i as int)),
                decreases es.len() - i,
            {
                proof {
                    assert(decreases_to!(es@ => es@[i as int]));
                    assert(decreases_to!(es@[i as int] => es@[i as int].1));
                }
                assert(m[i as int] == (es@[i as int].0@, es@[i as int].1@));
                let v = bson_to_data_value(&es[i].1);
                let k = record_key_string(es[i].0.as_str());
                record_insert_entry(&mut out, k, v);
                assert(m.subrange(0, i + 1).drop_last() =~= m.subrange(0, i as int));
                i = i + 1;
            }
            assert(m.subrange(0, es.len() as int) =~= m);
            let ghost fields = entries_model(out@);
            let r = DataValue::Object(out);
            assert(r@->Object_0 =~= fields);
            r
        }
        Bson::Array(items) => {
            let ghost m = bson@->Array_0;
            let mut out: Vec<DataValue> = Vec::new();
            let mut i: usize = 0;
            while i < items.len()
                invariant
                    i <= items.len(),
                    out@.len() == i,
                    forall|j: int| 0 <= j < i ==> #[trigger] out@[j]@ == value_of_bson(m[j]),
                decreases items.len() - i,
            {
                proof {
                    assert(decreases_to!(items@ => items@[i as int]));
                }
                assert(m[i as int] == items@[i as int]@);
                out.push(bson_to_data_value(&items[i]));
                i = i + 1;
            }
            let r = DataValue::Array(out);
            assert(r@->Array_0 =~= value_of_bson(bson@)->Array_0) by {
                assert(forall|k: int| 0 <= k < out@.len() ==> r@->Array_0[k] == out@[k]@);
                assert(forall|k: int| 0 <= k < m.len() ==> value_of_bson(bson@)->Array_0[k] == value_of_bson(m[k]));
            }
            r
        }
        Bson::Null => DataValue::Null,
        Bson::Binary(b) => DataValue::Bytes(b.clone()),
        Bson::Json(t) => DataValue::Json(t.clone()),
        Bson::ObjectId(t) => DataValue::String(t.clone()),
    }
}

/// The record fields of a stored document (see `record_fields`).
pub fn document_to_data_map(doc: &Document) -> (r: Vec<(String, DataValue)>)
    ensures
        entries_model(r@) == record_fields(doc@),
{
    let es = &doc.entries;
    let ghost m = doc@;
    let mut out: Vec<(String, DataValue)> = Vec::new();
    let mut i: usize = 0;
    assert(entries_model(out@) =~= record_fields(m.subrange(0, 0)));
    while i < es.len()
        invariant
            i <= es.len(),
            m == entries_view(es@),
            entries_model(out@) == record_fields(m.subrange(0, i as int)),
        decreases es.len() - i,
    {
        assert(m[i as int] == (es@[i as int].0@, es@[i as int].1@));
        let v = bson_to_data_value(&es[i].1);
        let k = record_key_string(es[i].0.as_str());
        record_insert_entry(&mut out, k, v);
        assert(m.subrange(0, i + 1).drop_last() =~= m.subrange(0, i as int));
        i = i + 1;
    }
    assert(m.subrange(0, es.len() as int) =~= m);
    out
}

/// A stored document read back as an object value.
pub fn document_to_data_value(doc: &Document) -> (r: DataValue)
    ensures
        r@ == Value::Object(record_fields(doc@)),
{
    let fields = document_to_data_map(doc);
    let ghost f = entries_model(fields@);
    let r = DataValue::Object(fields);
    assert(r@->Object_0 =~= f);
    r
}

/// An ASCII hex digit, in either case.
pub open spec fn hex_digit_char(c: char) -> bool {
    ('0' <= c && c <= '9') || ('a' <= c && c <= 'f') || ('A' <= c && c <= 'F')
}

/// The object id a text spells, as its 24 lowercase hex digits: the text
/// must be 24 hex digits, in either case.
pub open spec fn object_id_text(s: Seq<char>) -> Option<Seq<char>> {
    if s.len() == 24 && forall|i: int| 0 <= i < s.len() ==> #[trigger] hex_digit_char(s[i]) {
        Some(ascii_lower(s))
    } else {
        None
    }
}

/// The object id a text spells (see `object_id_text`).
pub fn parse_object_id(s: &str) -> (r: Option<String>)
    ensures
        match r {
            Some(t) => object_id_text(s@) == Some(t@),
            None => object_id_text(s@) is None,
        },
{
    let cs = crate::text::chars_of(s);
    if cs.len() != 24 {
        return None;
    }
    let mut out = String::new();
    let mut i: usize = 0;
    while i < cs.len()
        invariant
            cs@ == s@,
            i <= cs@.len(),
            out@ == ascii_lower(cs@.subrange(0, i as int)),
            forall|j: int| 0 <= j < i ==> #[trigger] hex_digit_char(cs@[j]),
        decreases cs.len() - i,
    {
        let c = cs[i];
        if !(('0' <= c && c <= '9') || ('a' <= c && c <= 'f') || ('A' <= c && c <= 'F')) {
            assert(!hex_digit_char(s@[i as int]));
            return None;
        }
        crate::text::push_char(&mut out, crate::render::lower(c));
        assert(ascii_lower(cs@.subrange(0, i + 1)) =~= ascii_lower(cs@.subrange(0, i as int)).push(lower_char(c)));
        i = i + 1;
    }
    assert(cs@.subrange(0, cs@.len() as int) =~= cs@);
    Some(out)
}

/// Whether an empty text id is dropped, so that the store or the layer
/// above fills it in: under every strategy but a custom one.
pub open spec fn drops_empty_id(s: IdRule) -> bool {
    !(s is Custom)
}

/// The stored fields that a new record is inserted with: its fields
/// under their stored names, without an empty text `_id` where the
/// strategy drops one.
pub open spec fn insert_fields(es: Seq<(Seq<char>, Value)>, s: IdRule) -> Seq<(Seq<char>, Value)> {
    let m = stored_fields(es);
    match key_index(m, object_id_key()) {
        Some(i) => if drops_empty_id(s) && m[i].1 == Value::Str(Seq::empty()) { m.remove(i) } else { m },
        None => m,
    }
}

/// An insert is refused when the record has no id at all and the
/// strategy needs one from the caller (snowflake ids).
pub open spec fn insert_refused(es: Seq<(Seq<char>, Value)>, s: IdRule) -> bool {
    key_index(stored_fields(es), object_id_key()) is None && s is Snowflake
}

/// The BSON of a new record's `_id`: under the object-id strategy a text
/// that spells an object id becomes that object id; otherwise the id is
/// written as any value is.
pub open spec fn id_bson(v: Value, s: IdRule) -> BsonValue {
    match (v, s) {
        (Value::Str(t), IdRule::ObjectId) => match object_id_text(t) {
            Some(h) => BsonValue::ObjectId(h),
            None => BsonValue::Str(t),
        },
        _ => bson_of(v),
    }
}

/// The BSON of a field of a new record.
pub open spec fn field_bson(k: Seq<char>, v: Value, s: IdRule) -> BsonValue {
    if k == object_id_key() { id_bson(v, s) } else { bson_of(v) }
}

/// The document of a new record's stored fields, set in order.
pub open spec fn insert_entries(fs: Seq<(Seq<char>, Value)>, s: IdRule) -> Seq<(Seq<char>, BsonValue)>
    decreases fs.len(),
{
    if fs.len() == 0 {
        Seq::empty()
    } else {
        doc_insert(insert_entries(fs.drop_last(), s), fs.last().0, field_bson(fs.last().0, fs.last().1, s))
    }
}

/// The id a new record brings with it: a non-empty text `_id`.
pub open spec fn supplied_id(fs: Seq<(Seq<char>, Value)>) -> Option<Seq<char>> {
    match key_index(fs, object_id_key()) {
        Some(i) => match fs[i].1 {
            Value::Str(t) => if t.len() > 0 { Some(t) } else { None },
            _ => None,
        },
        None => None,
    }
}

pub open spec fn option_text(o: Option<String>) -> Option<Seq<char>> {
    match o {
        Some(t) => Some(t@),
        None => None,
    }
}

/// The index of `key` among a record's fields (see `key_index`).
pub fn find_field(entries: &Vec<(String, DataValue)>, key: &str) -> (r: Option<usize>)
    ensures
        match r {
            Some(i) => key_index(entries_model(entries@), key@) == Some(i as int),
            None => key_index(entries_model(entries@), key@) is None,
        },
{
    let ghost d = entries_model(entries@);
    let mut i: usize = 0;
    while i < entries.len()
        invariant
            i <= entries.len(),
            d == entries_model(entries@),
            d.len() == entries@.len(),
            forall|j: int| 0 <= j < i ==> d[j].0 != key@,
        decreases entries.len() - i,
    {
        if crate::models::str_eq(entries[i].0.as_str(), key) {
            proof { lemma_key_index_first(d, key@, i as int); }
            return Some(i);
        }
        i = i + 1;
    }
    proof {
        lemma_key_index_bounds(d, key@);
        if let Some(j) = key_index(d, key@) {
            assert(d[j].0 != key@);
        }
    }
    None
}

fn id_to_bson(v: &DataValue, strategy: &IdStrategy) -> (r: Bson)
    ensures
        r@ == id_bson(v@, strategy@),
{
    match (v, strategy) {
        (DataValue::String(t), IdStrategy::ObjectId) => match parse_object_id(t.as_str()) {
            Some(h) => Bson::ObjectId(h),
            None => Bson::String(t.clone()),
        },
        _ => data_value_to_bson(v),
    }
}

/// The document a new record is inserted as, and the id it brings with
/// it, or a validation error about `_id` when the strategy needs an id
/// that the record lacks (see `insert_fields`, `insert_entries`,
/// `supplied_id`).
pub fn prepare_insert_document(data: &Vec<(String, DataValue)>, id_strategy: &IdStrategy)
    -> (r: Result<(Document, Option<String>), QuickDbError>)
    ensures
        r is Err <==> insert_refused(entries_model(data@), id_strategy@),
        r matches Err(e) ==> e@ == (ErrorKind::Validation { field: object_id_key() }),
        r matches Ok((d, id)) ==> {
            let fs = insert_fields(entries_model(data@), id_strategy@);
            &&& d@ == insert_entries(fs, id_strategy@)
            &&& option_text(id) == supplied_id(fs)
        },
{
    proof {
        reveal_strlit("_id");
    }
    assert("_id"@ == object_id_key());
    let mut mapped = map_data_fields(data);
    let ghost m0 = entries_model(mapped@);
    let drops = match id_strategy {
        IdStrategy::Custom(_) => false,
        _ => true,
    };
    match find_field(&mapped, "_id") {
        Some(i) => {
            proof { lemma_key_index_bounds(m0, object_id_key()); }
            let empty = match &mapped[i].1 {
                DataValue::String(t) => t.as_str().unicode_len() == 0,
                _ => false,
            };
            assert(empty == (m0[i as int].1 == Value::Str(Seq::empty()))) by {
                if let DataValue::String(t) = &mapped@[i as int].1 {
                    if t@.len() == 0 {
                        assert(t@ =~= Seq::<char>::empty());
                    }
                }
            }
            if drops && empty {
                mapped.remove(i);
                assert(entries_model(mapped@) =~= m0.remove(i as int));
            }
        }
        None => {
            if let IdStrategy::Snowflake { .. } = id_strategy {
                return Err(validation_error("_id", "使用Snowflake策略时必须提供ID字段"));
            }
        }
    }
    let ghost fs = entries_model(mapped@);
    assert(fs == insert_fields(entries_model(data@), id_strategy@));
    let mut doc: Vec<(String, Bson)> = Vec::new();
    let mut i: usize = 0;
    assert(entries_view(doc@) =~= insert_entries(fs.subrange(0, 0), id_strategy@));
    while i < mapped.len()
        invariant
            i <= mapped.len(),
            fs == entries_model(mapped@),
            "_id"@ == object_id_key(),
            entries_view(doc@) == insert_entries(fs.subrange(0, i as int), id_strategy@),
        decreases mapped.len() - i,
    {
        let ghost nxt = fs.subrange(0, i + 1);
        assert(nxt.drop_last() =~= fs.subrange(0, i as int));
        assert(nxt.last() == (mapped@[i as int].0@, mapped@[i as int].1@));
        let b = if crate::models::str_eq(mapped[i].0.as_str(), "_id") {
            id_to_bson(&mapped[i].1, id_strategy)
        } else {
            data_value_to_bson(&mapped[i].1)
        };
        let k = mapped[i].0.clone();
        doc_insert_entry(&mut doc, k, b);
        assert(entries_view(doc@) == insert_entries(nxt, id_strategy@));
        i = i + 1;
    }
    assert(fs.subrange(0, mapped.len() as int) =~= fs);
    proof { lemma_key_index_bounds(fs, object_id_key()); }
    let supplied = match find_field(&mapped, "_id") {
        Some(j) => match &mapped[j].1 {
            DataValue::String(t) => if t.as_str().unicode_len() > 0 { Some(t.clone()) } else { None },
            _ => None,
        },
        None => None,
    };
    assert(option_text(supplied) == supplied_id(fs));
    let d = Document { entries: doc };
    assert(d@ == insert_entries(fs, id_strategy@));
    Ok((d, supplied))
}

/// The record a successful insert answers with: its `id`, which is the id
/// the record brought where it brought one, and otherwise the text of the
/// id the store assigned.
pub fn inserted_record(supplied_id: Option<String>, assigned_id_text: &str) -> (r: DataValue)
    ensures
        r@ == Value::Object(seq![(id_key(), Value::Str(
            match supplied_id {
                Some(t) => t@,
                None => assigned_id_text@,
            },
        ))]),
{
    proof {
        reveal_strlit("id");
    }
    assert("id"@ == id_key());
    let ghost expected = match &supplied_id {
        Some(t) => t@,
        None => assigned_id_text@,
    };
    let id = match supplied_id {
        Some(t) => t,
        None => assigned_id_text.to_owned(),
    };
    assert(id@ == expected);
    let mut fields: Vec<(String, DataValue)> = Vec::new();
    fields.push(("id".to_owned(), DataValue::String(id)));
    let ghost f = entries_model(fields@);
    assert(f =~= seq![(id_key(), Value::Str(expected))]);
    let r = DataValue::Object(fields);
    assert(r@->Object_0 =~= f);
    r
}

/// The name of the check that refuses an insert into a missing
/// collection.
pub open spec fn collection_creation_key() -> Seq<char> {
    seq!['c', 'o', 'l', 'l', 'e', 'c', 't', 'i', 'o', 'n', '_', 'c', 'r', 'e', 'a', 't', 'i', 'o', 'n']
}

/// Whether an insert into `table` may go ahead: the collection exists, or
/// a model is registered for it under `alias` (a document store creates
/// the collection on the first insert). Otherwise a validation error
/// about `collection_creation`.
pub fn check_collection_for_insert(models: &ModelRegistry, table: &str, alias: &str, exists: bool) -> (r: Result<(), QuickDbError>)
    ensures
        r is Err <==> (!exists && first_model(models@, table@, alias@) is None),
        r matches Err(e) ==> e@ == (ErrorKind::Validation { field: collection_creation_key() }),
{
    if exists {
        return Ok(());
    }
    match models.find_model(table, alias) {
        Some(_) => Ok(()),
        None => {
            proof { reveal_strlit("collection_creation"); }
            assert("collection_creation"@ == collection_creation_key());
            Err(validation_error("collection_creation", "集合不存在，且没有预定义的模型元数据"))
        }
    }
}

proof fn lemma_set_entries_without_id(fs: Seq<(Seq<char>, Value)>)
    ensures
        forall|i: int| 0 <= i < set_entries(fs).len() ==> #[trigger] set_entries(fs)[i].0 != object_id_key(),
        keys_unique(set_entries(fs)),
    decreases fs.len(),
{
    if fs.len() > 0 {
        let d = set_entries(fs.drop_last());
        lemma_set_entries_without_id(fs.drop_last());
        if fs.last().0 != object_id_key() {
            lemma_key_index_bounds(d, fs.last().0);
            lemma_doc_insert_unique(d, fs.last().0, bson_of(fs.last().1));
            let r = doc_insert(d, fs.last().0, bson_of(fs.last().1));
            assert forall|i: int| 0 <= i < r.len() implies #[trigger] r[i].0 != object_id_key() by {
                if i < d.len() {
                    if key_index(d, fs.last().0) == Some(i) {
                        assert(r[i].0 == fs.last().0);
                    } else {
                        assert(r[i] == d[i]);
                    }
                }
            }
        }
    }
}

/// An update never assigns `_id`, and assigns each field at most once:
/// whatever the record's fields, the `$set` document of its update has no
/// `_id` entry and no key twice.
pub proof fn law_update_never_sets_id(es: Seq<(Seq<char>, Value)>)
    ensures
        update_document_of(es).len() == 1,
        update_document_of(es)[0].1 matches BsonValue::Document(set) && {
            &&& forall|i: int| 0 <= i < set.len() ==> #[trigger] set[i].0 != object_id_key()
            &&& keys_unique(set)
        },
{
    lemma_set_entries_without_id(stored_fields(es));
}

/// The values that read back exactly as they were written: strings,
/// integers, floats, booleans, null and bytes; date-times at offset
/// zero; JSON objects; arrays of such values; and objects with such
/// values whose keys are unique and none of them `_id`. (An unsigned
/// integer comes back signed or as a float, a UTC date-time as a
/// date-time at offset zero, a UUID as its text, other JSON as text.)
pub open spec fn stores_exactly(v: Value) -> bool
    decreases v,
{
    match v {
        Value::UInt(_) => false,
        Value::DateTimeUTC(_) => false,
        Value::Uuid(_) => false,
        Value::DateTime(t) => t.offset_seconds == 0,
        Value::Json(t) => json_object_text(t),
        Value::Array(items) => forall|i: int| 0 <= i < items.len() ==> stores_exactly(#[trigger] items[i]),
        Value::Object(es) => {
            &&& keys_unique(es)
            &&& forall|i: int| 0 <= i < es.len() ==> #[trigger] es[i].0 != object_id_key() && stores_exactly(es[i].1)
        },
        _ => true,
    }
}

proof fn lemma_object_doc_plain(es: Seq<(Seq<char>, Value)>)
    requires
        keys_unique(es),
    ensures
        object_doc(es) == es.map_values(|e: (Seq<char>, Value)| (e.0, bson_of(e.1))),
    decreases es.len(),
{
    if es.len() > 0 {
        let p = es.drop_last();
        lemma_object_doc_plain(p);
        let d = object_doc(p);
        lemma_key_index_bounds(d, es.last().0);
        if let Some(j) = key_index(d, es.last().0) {
            assert(d[j].0 == p[j].0);
            assert(p[j] == es[j]);
        }
        assert(object_doc(es) =~= es.map_values(|e: (Seq<char>, Value)| (e.0, bson_of(e.1))));
    }
}

proof fn lemma_record_fields_plain(ds: Seq<(Seq<char>, BsonValue)>)
    requires
        forall|i: int, j: int| 0 <= i < j < ds.len() ==> record_key(#[trigger] ds[i].0) != record_key(#[trigger] ds[j].0),
    ensures
        record_fields(ds) == ds.map_values(|e: (Seq<char>, BsonValue)| (record_key(e.0), value_of_bson(e.1))),
    decreases ds.len(),
{
    if ds.len() > 0 {
        let p = ds.drop_last();
        assert forall|i: int, j: int| 0 <= i < j < p.len() implies record_key(#[trigger] p[i].0) != record_key(#[trigger] p[j].0) by {
            assert(p[i] == ds[i] && p[j] == ds[j]);
        }
        lemma_record_fields_plain(p);
        let d = record_fields(p);
        let k = record_key(ds.last().0);
        lemma_key_index_bounds(d, k);
        if let Some(j) = key_index(d, k) {
            assert(d[j].0 == record_key(p[j].0));
            assert(p[j] == ds[j]);
            assert(ds[j].0 == ds[j].0);
            assert(ds[ds.len() - 1].0 == ds.last().0);
        }
        assert(record_fields(ds) =~= ds.map_values(|e: (Seq<char>, BsonValue)| (record_key(e.0), value_of_bson(e.1))));
    }
}

/// What a read gives back of a write: a value that stores exactly, turned
/// into BSON and read back, is the same value.
pub proof fn law_value_reads_back(v: Value)
    requires
        stores_exactly(v),
    ensures
        value_of_bson(bson_of(v)) == v,
    decreases v,
{
    match v {
        Value::Array(items) => {
            assert forall|i: int| 0 <= i < items.len() implies value_of_bson(bson_of(items[i])) == items[i] by {
                assert(decreases_to!(v => items[i]));
                assert(stores_exactly(items[i]));
                law_value_reads_back(items[i]);
            }
            assert(value_of_bson(bson_of(v))->Array_0 =~= items);
        },
        Value::Object(es) => {
            lemma_object_doc_plain(es);
            let ds = object_doc(es);
            assert forall|i: int, j: int| 0 <= i < j < ds.len() implies record_key(#[trigger] ds[i].0) != record_key(#[trigger] ds[j].0) by {
                assert(ds[i].0 == es[i].0 && ds[j].0 == es[j].0);
                assert(es[i].0 != object_id_key() && stores_exactly(es[i].1));
                assert(es[j].0 != object_id_key() && stores_exactly(es[j].1));
            }
            lemma_record_fields_plain(ds);
            assert forall|i: int| 0 <= i < es.len() implies record_fields(ds)[i] == es[i] by {
                assert(es[i].0 != object_id_key() && stores_exactly(es[i].1));
                assert(decreases_to!(v => es[i].1)) by {
                    assert(decreases_to!(v => es));
                    assert(decreases_to!(es => es[i]));
                    assert(decreases_to!(es[i] => es[i].1));
                }
                law_value_reads_back(es[i].1);
            }
            assert(record_fields(ds) =~= es);
        },
        _ => {},
    }
}

proof fn lemma_stored_fields_plain(es: Seq<(Seq<char>, Value)>)
    requires
        keys_unique(es),
        forall|i: int| 0 <= i < es.len() ==> #[trigger] es[i].0 != object_id_key(),
    ensures
        stored_fields(es) == es.map_values(|e: (Seq<char>, Value)| (stored_key(e.0), e.1)),
    decreases es.len(),
{
    if es.len() > 0 {
        let p = es.drop_last();
        assert forall|i: int| 0 <= i < p.len() implies #[trigger] p[i].0 != object_id_key() by {
            assert(p[i] == es[i]);
        }
        lemma_stored_fields_plain(p);
        let d = stored_fields(p);
        let k = stored_key(es.last().0);
        lemma_key_index_bounds(d, k);
        if let Some(j) = key_index(d, k) {
            assert(p[j] == es[j]);
            assert(es[j].0 != object_id_key());
            assert(es[es.len() - 1].0 != object_id_key());
            assert(es[j].0 != es[es.len() - 1].0);
        }
        assert(stored_fields(es) =~= es.map_values(|e: (Seq<char>, Value)| (stored_key(e.0), e.1)));
    }
}

proof fn lemma_insert_entries_plain(fs: Seq<(Seq<char>, Value)>, s: IdRule)
    requires
        keys_unique(fs),
    ensures
        insert_entries(fs, s) == fs.map_values(|e: (Seq<char>, Value)| (e.0, field_bson(e.0, e.1, s))),
    decreases fs.len(),
{
    if fs.len() > 0 {
        let p = fs.drop_last();
        lemma_insert_entries_plain(p, s);
        let d = insert_entries(p, s);
        lemma_key_index_bounds(d, fs.last().0);
        if let Some(j) = key_index(d, fs.last().0) {
            assert(p[j] == fs[j]);
        }
        assert(insert_entries(fs, s) =~= fs.map_values(|e: (Seq<char>, Value)| (e.0, field_bson(e.0, e.1, s))));
    }
}

/// Whether a record's `id` value reads back as it was given under an id
/// strategy: it is not an empty text that the strategy drops, and under
/// the object-id strategy a text that spells an object id is already in
/// lowercase.
pub open spec fn id_reads_back(v: Value, s: IdRule) -> bool {
    &&& !(drops_empty_id(s) && v == Value::Str(Seq::empty()))
    &&& match (v, s) {
        (Value::Str(t), IdRule::ObjectId) => object_id_text(t) matches Some(h) ==> h == t,
        _ => true,
    }
}

/// The records whose insert reads back as the record: keys unique and
/// none of them `_id`, every value stores exactly, and the `id` value
/// reads back under the strategy.
pub open spec fn record_reads_back(es: Seq<(Seq<char>, Value)>, s: IdRule) -> bool {
    &&& keys_unique(es)
    &&& forall|i: int| 0 <= i < es.len() ==> #[trigger] es[i].0 != object_id_key() && stores_exactly(es[i].1)
    &&& forall|i: int| 0 <= i < es.len() && #[trigger] es[i].0 == id_key() ==> id_reads_back(es[i].1, s)
}

/// What a read gives back of an insert: the document that a record is
/// inserted as, read back as record fields, is the record itself, for
/// every record that reads back and every strategy that accepts it.
pub proof fn law_insert_reads_back(es: Seq<(Seq<char>, Value)>, s: IdRule)
    requires
        record_reads_back(es, s),
        !insert_refused(es, s),
    ensures
        record_fields(insert_entries(insert_fields(es, s), s)) == es,
{
    assert forall|i: int| 0 <= i < es.len() implies #[trigger] es[i].0 != object_id_key() by {
        assert(es[i].0 != object_id_key() && stores_exactly(es[i].1));
    }
    lemma_stored_fields_plain(es);
    let m = stored_fields(es);
    assert(keys_unique(m)) by {
        assert forall|i: int, j: int| 0 <= i < j < m.len() implies m[i].0 != m[j].0 by {
            assert(es[i].0 != es[j].0);
            assert(es[i].0 != object_id_key());
            assert(es[j].0 != object_id_key());
        }
    }
    assert(insert_fields(es, s) == m) by {
        lemma_key_index_bounds(m, object_id_key());
        if let Some(i) = key_index(m, object_id_key()) {
            assert(es[i].0 == id_key());
            assert(id_reads_back(es[i].1, s));
        }
    }
    lemma_insert_entries_plain(m, s);
    let ds = insert_entries(m, s);
    assert forall|i: int, j: int| 0 <= i < j < ds.len() implies record_key(#[trigger] ds[i].0) != record_key(#[trigger] ds[j].0) by {
        assert(ds[i].0 == m[i].0 && ds[j].0 == m[j].0);
        assert(es[i].0 != es[j].0);
        assert(es[i].0 != object_id_key());
        assert(es[j].0 != object_id_key());
    }
    lemma_record_fields_plain(ds);
    assert forall|i: int| 0 <= i < es.len() implies record_fields(ds)[i] == es[i] by {
        assert(es[i].0 != object_id_key() && stores_exactly(es[i].1));
        law_value_reads_back(es[i].1);
        if es[i].0 == id_key() {
            assert(id_reads_back(es[i].1, s));
        }
    }
    assert(record_fields(ds) =~= es);
}

/// A record's fields without its `id` field.
pub open spec fn without_id(es: Seq<(Seq<char>, Value)>) -> Seq<(Seq<char>, Value)>
    decreases es.len(),
{
    if es.len() == 0 {
        Seq::empty()
    } else if es.last().0 == id_key() {
        without_id(es.drop_last())
    } else {
        without_id(es.drop_last()).push(es.last())
    }
}

proof fn lemma_without_id_entries(es: Seq<(Seq<char>, Value)>)
    ensures
        forall|i: int| #![trigger without_id(es)[i]] 0 <= i < without_id(es).len() ==> without_id(es)[i].0 != id_key()
            && exists|j: int| 0 <= j < es.len() && es[j] == without_id(es)[i],
    decreases es.len(),
{
    if es.len() > 0 {
        let p = es.drop_last();
        lemma_without_id_entries(p);
        let w = without_id(es);
        assert forall|i: int| #![trigger w[i]] 0 <= i < w.len() implies w[i].0 != id_key()
            && exists|j: int| 0 <= j < es.len() && es[j] == w[i] by {
            if i < without_id(p).len() {
                let wi = without_id(p)[i];
                assert(w[i] == wi);
                let j = choose|j: int| 0 <= j < p.len() && p[j] == wi;
                assert(es[j] == p[j]);
            } else {
                assert(w[i] == es.last());
                assert(es[es.len() - 1] == w[i]);
            }
        }
    }
}

proof fn lemma_without_id_unique(es: Seq<(Seq<char>, Value)>)
    requires
        keys_unique(es),
    ensures
        keys_unique(without_id(es)),
    decreases es.len(),
{
    if es.len() > 0 {
        let p = es.drop_last();
        assert(keys_unique(p)) by {
            assert forall|i: int, j: int| 0 <= i < j < p.len() implies p[i].0 != p[j].0 by {
                assert(p[i] == es[i] && p[j] == es[j]);
            }
        }
        lemma_without_id_unique(p);
        lemma_without_id_entries(p);
        let w = without_id(es);
        if es.last().0 != id_key() {
            assert forall|i: int, j: int| 0 <= i < j < w.len() implies w[i].0 != w[j].0 by {
                if j == w.len() - 1 {
                    let wi = without_id(p)[i];
                    let k = choose|k: int| 0 <= k < p.len() && p[k] == wi;
                    assert(es[k] == p[k]);
                    assert(es[k].0 != es[es.len() - 1].0);
                } else {
                    assert(w[i] == without_id(p)[i] && w[j] == without_id(p)[j]);
                }
            }
        }
    }
}

proof fn lemma_set_entries_plain(es: Seq<(Seq<char>, Value)>)
    requires
        keys_unique(es),
        forall|i: int| 0 <= i < es.len() ==> #[trigger] es[i].0 != object_id_key(),
    ensures
        set_entries(es.map_values(|e: (Seq<char>, Value)| (stored_key(e.0), e.1)))
            == without_id(es).map_values(|e: (Seq<char>, Value)| (e.0, bson_of(e.1))),
    decreases es.len(),
{
    let m = es.map_values(|e: (Seq<char>, Value)| (stored_key(e.0), e.1));
    if es.len() > 0 {
        let p = es.drop_last();
        assert(keys_unique(p)) by {
            assert forall|i: int, j: int| 0 <= i < j < p.len() implies p[i].0 != p[j].0 by {
                assert(p[i] == es[i] && p[j] == es[j]);
            }
        }
        assert forall|i: int| 0 <= i < p.len() implies #[trigger] p[i].0 != object_id_key() by {
            assert(p[i] == es[i]);
        }
        lemma_set_entries_plain(p);
        assert(m.drop_last() =~= p.map_values(|e: (Seq<char>, Value)| (stored_key(e.0), e.1)));
        let d = set_entries(m.drop_last());
        let wp = without_id(p).map_values(|e: (Seq<char>, Value)| (e.0, bson_of(e.1)));
        assert(d == wp);
        if es.last().0 != id_key() {
            assert(m.last().0 == es.last().0);
            lemma_key_index_bounds(d, es.last().0);
            lemma_without_id_entries(p);
            if let Some(j) = key_index(d, es.last().0) {
                let wj = without_id(p)[j];
                assert(wp[j].0 == wj.0);
                let k = choose|k: int| 0 <= k < p.len() && p[k] == wj;
                assert(es[k] == p[k]);
                assert(es[k].0 != es[es.len() - 1].0);
            }
            assert(set_entries(m) =~= without_id(es).map_values(|e: (Seq<char>, Value)| (e.0, bson_of(e.1))));
        } else {
            assert(m.last().0 == object_id_key());
            assert(set_entries(m) =~= without_id(es).map_values(|e: (Seq<char>, Value)| (e.0, bson_of(e.1))));
        }
    } else {
        assert(set_entries(m) =~= without_id(es).map_values(|e: (Seq<char>, Value)| (e.0, bson_of(e.1))));
    }
}

/// What a read gives back of an update: the `$set` document of a
/// record's fields, read back as record fields, is the record without its
/// `id`, for every record whose keys are unique, none of them `_id`, and
/// whose values store exactly.
pub proof fn law_update_reads_back(es: Seq<(Seq<char>, Value)>)
    requires
        keys_unique(es),
        forall|i: int| 0 <= i < es.len() ==> #[trigger] es[i].0 != object_id_key() && stores_exactly(es[i].1),
    ensures
        update_document_of(es)[0].1 == BsonValue::Document(set_entries(stored_fields(es))),
        record_fields(set_entries(stored_fields(es))) == without_id(es),
{
    assert forall|i: int| 0 <= i < es.len() implies #[trigger] es[i].0 != object_id_key() by {
        assert(es[i].0 != object_id_key() && stores_exactly(es[i].1));
    }
    lemma_stored_fields_plain(es);
    lemma_set_entries_plain(es);
    lemma_without_id_unique(es);
    lemma_without_id_entries(es);
    let w = without_id(es);
    let ds = w.map_values(|e: (Seq<char>, Value)| (e.0, bson_of(e.1)));
    assert forall|i: int, j: int| 0 <= i < j < ds.len() implies record_key(#[trigger] ds[i].0) != record_key(#[trigger] ds[j].0) by {
        let wi = w[i];
        let wj = w[j];
        let a = choose|k: int| 0 <= k < es.len() && es[k] == wi;
        let b = choose|k: int| 0 <= k < es.len() && es[k] == wj;
        assert(es[a].0 != object_id_key() && stores_exactly(es[a].1));
        assert(es[b].0 != object_id_key() && stores_exactly(es[b].1));
    }
    lemma_record_fields_plain(ds);
    assert forall|i: int| 0 <= i < w.len() implies record_fields(ds)[i] == w[i] by {
        let wi = w[i];
        let a = choose|k: int| 0 <= k < es.len() && es[k] == wi;
        assert(es[a].0 != object_id_key() && stores_exactly(es[a].1));
        law_value_reads_back(w[i].1);
    }
    assert(record_fields(ds) =~= w);
}

/// Whether an id text is written `ObjectId("…")`.
pub open spec fn object_id_wrapped(s: Seq<char>) -> bool {
    s.len() >= 10 && s.subrange(0, 10) == "ObjectId(\""@ && s.len() >= 2 && s.subrange(s.len() - 2, s.len() as int) == "\")"@
}

/// The query document that finds a record by its id: a text id (taken out
/// of `ObjectId("…")` when written so) as the object id it spells, or as
/// text; any other id as its BSON.
pub open spec fn id_query(id: Value) -> Seq<(Seq<char>, BsonValue)> {
    match id {
        Value::Str(s) => {
            let t = if object_id_wrapped(s) { s.subrange(10, s.len() - 2) } else { s };
            seq![(object_id_key(), match object_id_text(t) {
                Some(h) => BsonValue::ObjectId(h),
                None => BsonValue::Str(t),
            })]
        },
        _ => seq![(object_id_key(), bson_of(id))],
    }
}

fn has_object_id_wrapper(cs: &Vec<char>) -> (b: bool)
    ensures
        b == object_id_wrapped(cs@),
{
    proof {
        reveal_strlit("ObjectId(\"");
        reveal_strlit("\")");
    }
    let n = cs.len();
    if n < 10 {
        return false;
    }
    let head = ['O', 'b', 'j', 'e', 'c', 't', 'I', 'd', '(', '"'];
    let mut i: usize = 0;
    while i < 10
        invariant
            n == cs@.len(),
            n >= 10,
            i <= 10,
            head@ == "ObjectId(\""@,
            forall|j: int| 0 <= j < i ==> cs@[j] == head@[j],
        decreases 10 - i,
    {
        if cs[i] != head[i] {
            assert(cs@.subrange(0, 10)[i as int] != "ObjectId(\""@[i as int]);
            return false;
        }
        i = i + 1;
    }
    assert(cs@.subrange(0, 10) =~= "ObjectId(\""@);
    let tail_ok = cs[n - 2] == '"' && cs[n - 1] == ')';
    assert(tail_ok == (cs@.subrange(n - 2, n as int) == "\")"@)) by {
        if cs@.subrange(n - 2, n as int) == "\")"@ {
            assert(cs@.subrange(n - 2, n as int)[0] == '"');
            assert(cs@.subrange(n - 2, n as int)[1] == ')');
        }
        if tail_ok {
            assert(cs@.subrange(n - 2, n as int) =~= "\")"@);
        }
    }
    tail_ok
}

/// The query document that finds a record by its id (see `id_query`).
/// The id `ObjectId(")`, whose wrapper overlaps itself, is not accepted.
pub fn find_by_id_document(id: &DataValue) -> (r: Document)
    requires
        !(id@ is Str && object_id_wrapped(id@->Str_0) && id@->Str_0.len() < 12),
    ensures
        r@ == id_query(id@),
{
    proof { reveal_strlit("_id"); }
    assert("_id"@ == object_id_key());
    let b = match id {
        DataValue::String(s) => {
            let cs = crate::text::chars_of(s.as_str());
            let t = if has_object_id_wrapper(&cs) {
                let mut inner = String::new();
                crate::text::push_chars(&mut inner, vstd::slice::slice_subrange(cs.as_slice(), 10, cs.len() - 2));
                inner
            } else {
                s.clone()
            };
            match parse_object_id(t.as_str()) {
                Some(h) => Bson::ObjectId(h),
                None => Bson::String(t),
            }
        }
        _ => data_value_to_bson(id),
    };
    let mut entries: Vec<(String, Bson)> = Vec::new();
    entries.push(("_id".to_owned(), b));
    let r = Document { entries };
    assert(r@ =~= id_query(id@));
    r
}

/// A sort key of a document query.
#[derive(Debug)]
pub struct SortField {
    pub field: String,
    pub direction: SortDirection,
}

/// The page a document query asks for.
#[derive(Clone, Copy, Debug)]
pub struct Pagination {
    pub skip: u64,
    pub limit: u64,
}

/// How a document query sorts and pages its results: the sort document
/// (each key 1 for ascending, -1 for descending; none when nothing is
/// sorted), the limit and the number skipped.
pub struct FindOptions {
    pub sort: Option<Document>,
    pub limit: Option<i64>,
    pub skip: Option<u64>,
}

/// The sort document of sort keys, set in order.
pub open spec fn sort_entries(sort: Seq<(Seq<char>, SortDirection)>) -> Seq<(Seq<char>, BsonValue)>
    decreases sort.len(),
{
    if sort.len() == 0 {
        Seq::empty()
    } else {
        doc_insert(
            sort_entries(sort.drop_last()),
            sort.last().0,
            BsonValue::Int64(if sort.last().1 == SortDirection::Asc { 1i64 } else { -1i64 }),
        )
    }
}

/// How a document query sorts and pages (see `sort_entries`); a limit
/// above `i64::MAX` wraps as a cast to `i64` does.
pub fn find_options(sort: &[SortField], pagination: Option<Pagination>) -> (r: FindOptions)
    ensures
        sort@.len() == 0 ==> r.sort is None,
        sort@.len() > 0 ==> (r.sort matches Some(d) && d@ == sort_entries(sort@.map_values(|f: SortField| (f.field@, f.direction)))),
        r.limit == (match pagination { Some(p) => Some(p.limit as i64), None => None::<i64> }),
        r.skip == (match pagination { Some(p) => Some(p.skip), None => None::<u64> }),
{
    let ghost m = sort@.map_values(|f: SortField| (f.field@, f.direction));
    let sort_doc = if sort.len() == 0 {
        None
    } else {
        let mut entries: Vec<(String, Bson)> = Vec::new();
        let mut i: usize = 0;
        assert(entries_view(entries@) =~= sort_entries(m.subrange(0, 0)));
        while i < sort.len()
            invariant
                i <= sort.len(),
                m == sort@.map_values(|f: SortField| (f.field@, f.direction)),
                entries_view(entries@) == sort_entries(m.subrange(0, i as int)),
            decreases sort.len() - i,
        {
            let v: i64 = match sort[i].direction {
                SortDirection::Asc => 1,
                SortDirection::Desc => -1,
            };
            assert(m.subrange(0, i + 1).drop_last() =~= m.subrange(0, i as int));
            assert(m[i as int] == (sort@[i as int].field@, sort@[i as int].direction));
            doc_insert_entry(&mut entries, sort[i].field.clone(), Bson::Int64(v));
            i = i + 1;
        }
        assert(m.subrange(0, sort.len() as int) =~= m);
        Some(Document { entries })
    };
    let (limit, skip) = match pagination {
        Some(p) => (Some(p.limit as i64), Some(p.skip)),
        None => (None, None),
    };
    FindOptions { sort: sort_doc, limit, skip }
}

} // verus!
