//! Text renderings of values: JSON text, display text, UUID and RFC 3339
//! forms.

use vstd::prelude::*;
use crate::text::{digit_char, chars_of, push_char, signed_decimal, push_signed_decimal, decimal, push_decimal, join};
use crate::types::{DataValue, Value};

verus! {

/// A lowercase hexadecimal digit.
pub open spec fn hex_digit(n: nat) -> char {
    if n < 10 { digit_char(n) }
    else if n == 10 { 'a' }
    else if n == 11 { 'b' }
    else if n == 12 { 'c' }
    else if n == 13 { 'd' }
    else if n == 14 { 'e' }
    else { 'f' }
}

pub fn hex_char(n: u32) -> (c: char)
    requires
        n < 16,
    ensures
        c == hex_digit(n as nat),
{
    if n == 0 { '0' } else if n == 1 { '1' } else if n == 2 { '2' } else if n == 3 { '3' }
    else if n == 4 { '4' } else if n == 5 { '5' } else if n == 6 { '6' } else if n == 7 { '7' }
    else if n == 8 { '8' } else if n == 9 { '9' } else if n == 10 { 'a' } else if n == 11 { 'b' }
    else if n == 12 { 'c' } else if n == 13 { 'd' } else if n == 14 { 'e' } else { 'f' }
}

/// How serde_json writes one character inside a JSON string.
pub open spec fn json_escape(c: char) -> Seq<char> {
    if c == '"' {
        seq!['\\', '"']
    } else if c == '\\' {
        seq!['\\', '\\']
    } else if c == '\u{8}' {
        seq!['\\', 'b']
    } else if c == '\u{c}' {
        seq!['\\', 'f']
    } else if c == '\n' {
        seq!['\\', 'n']
    } else if c == '\r' {
        seq!['\\', 'r']
    } else if c == '\t' {
        seq!['\\', 't']
    } else if (c as u32) < 0x20 {
        seq!['\\', 'u', '0', '0', hex_digit(((c as u32) / 16) as nat), hex_digit(((c as u32) % 16) as nat)]
    } else {
        seq![c]
    }
}

/// The escaped characters of `s`.
pub open spec fn json_escape_all(s: Seq<char>) -> Seq<char>
    decreases s.len(),
{
    if s.len() == 0 {
        Seq::empty()
    } else {
        json_escape_all(s.drop_last()) + json_escape(s.last())
    }
}

/// A JSON string literal holding `s`, as serde_json writes it.
pub open spec fn json_string(s: Seq<char>) -> Seq<char> {
    seq!['"'] + json_escape_all(s) + seq!['"']
}

fn push_json_escape(out: &mut String, c: char)
    ensures
        final(out)@ == old(out)@ + json_escape(c),
{
    let ghost before = out@;
    if c == '"' {
        push_char(out, '\\');
        push_char(out, '"');
    } else if c == '\\' {
        push_char(out, '\\');
        push_char(out, '\\');
    } else if c == '\u{8}' {
        push_char(out, '\\');
        push_char(out, 'b');
    } else if c == '\u{c}' {
        push_char(out, '\\');
        push_char(out, 'f');
    } else if c == '\n' {
        push_char(out, '\\');
        push_char(out, 'n');
    } else if c == '\r' {
        push_char(out, '\\');
        push_char(out, 'r');
    } else if c == '\t' {
        push_char(out, '\\');
        push_char(out, 't');
    } else if (c as u32) < 0x20 {
        push_char(out, '\\');
        push_char(out, 'u');
        push_char(out, '0');
        push_char(out, '0');
        push_char(out, hex_char((c as u32) / 16));
        push_char(out, hex_char((c as u32) % 16));
    } else {
        push_char(out, c);
    }
    assert(out@ =~= before + json_escape(c));
}

/// Appends the JSON string literal holding `s`.
pub fn push_json_string(out: &mut String, s: &str)
    ensures
        final(out)@ == old(out)@ + json_string(s@),
{
    let cs = chars_of(s);
    let ghost start = out@;
    push_char(out, '"');
    let mut i: usize = 0;
    while i < cs.len()
        invariant
            i <= cs.len(),
            cs@ == s@,
            out@ == start + seq!['"'] + json_escape_all(cs@.subrange(0, i as int)),
        decreases cs.len() - i,
    {
        push_json_escape(out, cs[i]);
        assert(cs@.subrange(0, i + 1).drop_last() =~= cs@.subrange(0, i as int));
        i = i + 1;
    }
    assert(cs@.subrange(0, cs@.len() as int) =~= cs@);
    push_char(out, '"');
    assert(out@ =~= start + json_string(s@));
}

/// The spellings of a float that is not finite, as `str::parse::<f64>`
/// reads them: an optional sign, then `inf`, `infinity` or `nan` in any
/// case.
pub open spec fn non_finite_float(t: Seq<char>) -> bool {
    let body = if t.len() > 0 && (t[0] == '+' || t[0] == '-') { t.drop_first() } else { t };
    ascii_lower(body) == seq!['i', 'n', 'f'] || ascii_lower(body) == seq!['i', 'n', 'f', 'i', 'n', 'i', 't', 'y']
        || ascii_lower(body) == seq!['n', 'a', 'n']
}

/// The ASCII lowercase of a character.
pub open spec fn lower_char(c: char) -> char {
    if 'A' <= c && c <= 'Z' { ((c as u32) + 32) as char } else { c }
}

/// The ASCII lowercase of a text.
pub open spec fn ascii_lower(s: Seq<char>) -> Seq<char> {
    s.map_values(|c: char| lower_char(c))
}

/// The JSON text of a float given by its decimal text: the text itself,
/// or `null` when the float is not finite.
pub open spec fn float_json(t: Seq<char>) -> Seq<char> {
    if non_finite_float(t) { seq!['n', 'u', 'l', 'l'] } else { t }
}

/// The ASCII lowercase of an uppercase ASCII letter.
pub fn lower_of(c: char) -> (r: char)
    requires
        'A' <= c && c <= 'Z',
    ensures
        r == lower_char(c),
{
    lower(c)
}

pub(crate) fn lower(c: char) -> (r: char)
    ensures
        r == lower_char(c),
{
    if 'A' <= c && c <= 'Z' {
        let n = (c as u32) + 32;
        assert(0x61 <= n <= 0x7a);
        char_from_ascii(n)
    } else {
        c
    }
}

/// The character with an ASCII code.
#[verifier::external_body]
fn char_from_ascii(n: u32) -> (c: char)
    requires
        n < 128,
    ensures
        c == n as char,
{
    char::from_u32(n).unwrap()
}

fn lower_equals(cs: &[char], from: usize, word: &[char]) -> (b: bool)
    requires
        from <= cs@.len(),
    ensures
        b == (ascii_lower(cs@.subrange(from as int, cs@.len() as int)) == word@),
{
    let ghost body = cs@.subrange(from as int, cs@.len() as int);
    if cs.len() - from != word.len() {
        assert(ascii_lower(body).len() != word@.len());
        return false;
    }
    let mut i: usize = 0;
    while i < word.len()
        invariant
            from <= cs@.len(),
            cs@.len() - from == word@.len(),
            body == cs@.subrange(from as int, cs@.len() as int),
            i <= word.len(),
            forall|j: int| 0 <= j < i ==> lower_char(body[j]) == word@[j],
        decreases word.len() - i,
    {
        assert(from + i < cs.len());
        if lower(cs[from + i]) != word[i] {
            assert(ascii_lower(body)[i as int] != word@[i as int]);
            return false;
        }
        i = i + 1;
    }
    assert(ascii_lower(body) =~= word@);
    true
}

/// Whether the decimal text of a float spells a non-finite value.
pub fn is_non_finite_float(t: &str) -> (b: bool)
    ensures
        b == non_finite_float(t@),
{
    let cs = chars_of(t);
    let from: usize = if cs.len() > 0 && (cs[0] == '+' || cs[0] == '-') { 1 } else { 0 };
    proof {
        if from == 1 {
            assert(cs@.subrange(1, cs@.len() as int) =~= cs@.drop_first());
        } else {
            assert(cs@.subrange(0, cs@.len() as int) =~= cs@);
        }
    }
    let inf = ['i', 'n', 'f'];
    let infinity = ['i', 'n', 'f', 'i', 'n', 'i', 't', 'y'];
    let nan = ['n', 'a', 'n'];
    let r = lower_equals(&cs, from, &inf) || lower_equals(&cs, from, &infinity) || lower_equals(&cs, from, &nan);
    proof {
        assert(inf@ =~= seq!['i', 'n', 'f']);
        assert(infinity@ =~= seq!['i', 'n', 'f', 'i', 'n', 'i', 't', 'y']);
        assert(nan@ =~= seq!['n', 'a', 'n']);
    }
    r
}


/// Which of the 32 hex digits of a UUID stands at position `p` of its
/// hyphenated text.
pub open spec fn uuid_digit_index(p: int) -> int {
    if p < 8 { p } else if p < 13 { p - 1 } else if p < 18 { p - 2 } else if p < 23 { p - 3 } else { p - 4 }
}

/// The `k`-th hex digit of a UUID, most significant first.
pub open spec fn uuid_nibble(v: u128, k: int) -> u128 {
    (v >> ((124 - 4 * k) as u128)) & 0xf
}

/// The hyphenated lowercase text of a UUID (8-4-4-4-12 hex digits), as
/// the uuid crate's `Display` writes it.
pub open spec fn uuid_text(v: u128) -> Seq<char> {
    Seq::new(36, |p: int|
        if p == 8 || p == 13 || p == 18 || p == 23 { '-' }
        else { hex_digit(uuid_nibble(v, uuid_digit_index(p)) as nat) })
}

/// Appends the hyphenated text of a UUID.
pub fn push_uuid(out: &mut String, v: u128)
    ensures
        final(out)@ == old(out)@ + uuid_text(v),
{
    let ghost start = out@;
    let mut p: usize = 0;
    while p < 36
        invariant
            p <= 36,
            out@ == start + uuid_text(v).subrange(0, p as int),
        decreases 36 - p,
    {
        if p == 8 || p == 13 || p == 18 || p == 23 {
            push_char(out, '-');
        } else {
            let k: usize = if p < 8 { p } else if p < 13 { p - 1 } else if p < 18 { p - 2 } else if p < 23 { p - 3 } else { p - 4 };
            let shift: u128 = (124 - 4 * k) as u128;
            let nib: u128 = (v >> shift) & 0xf;
            assert(nib < 16) by (bit_vector)
                requires nib == (v >> shift) & 0xf;
            push_char(out, hex_char(nib as u32));
        }
        assert(uuid_text(v).subrange(0, p + 1) =~= uuid_text(v).subrange(0, p as int).push(uuid_text(v)[p as int]));
        p = p + 1;
    }
    assert(uuid_text(v).subrange(0, 36) =~= uuid_text(v));
}

/// The RFC 3339 text that chrono's `to_rfc3339` gives for the instant
/// `seconds`/`nanos` after the epoch shown at `offset_seconds` east of UTC;
/// `None` when chrono cannot represent that instant or offset.
pub uninterp spec fn rfc3339_text(seconds: i64, nanos: u32, offset_seconds: i32) -> Option<Seq<char>>;

/// Calls chrono: `DateTime::from_timestamp`, `FixedOffset::east_opt`,
/// `with_timezone` and `to_rfc3339`. Its result is named by
/// `rfc3339_text`; nothing more is claimed of it.
#[verifier::external_body]
pub(crate) fn chrono_rfc3339(seconds: i64, nanos: u32, offset_seconds: i32) -> (r: Option<String>)
    ensures
        (match r { Some(s) => Some(s@), None => None }) == rfc3339_text(seconds, nanos, offset_seconds),
{
    match (chrono::DateTime::from_timestamp(seconds, nanos), chrono::FixedOffset::east_opt(offset_seconds)) {
        (Some(dt), Some(offset)) => Some(dt.with_timezone(&offset).to_rfc3339()),
        _ => None,
    }
}

/// The text of an instant with its offset: its RFC 3339 form, or the
/// decimal seconds when chrono cannot represent it.
pub open spec fn timestamp_text(seconds: i64, nanos: u32, offset_seconds: i32) -> Seq<char> {
    match rfc3339_text(seconds, nanos, offset_seconds) {
        Some(t) => t,
        None => signed_decimal(seconds as int),
    }
}

pub fn push_timestamp(out: &mut String, seconds: i64, nanos: u32, offset_seconds: i32)
    ensures
        final(out)@ == old(out)@ + timestamp_text(seconds, nanos, offset_seconds),
{
    match chrono_rfc3339(seconds, nanos, offset_seconds) {
        Some(t) => out.append(t.as_str()),
        None => push_signed_decimal(out, seconds),
    }
}


pub open spec fn bool_text(b: bool) -> Seq<char> {
    if b { seq!['t', 'r', 'u', 'e'] } else { seq!['f', 'a', 'l', 's', 'e'] }
}

pub open spec fn null_text() -> Seq<char> {
    seq!['n', 'u', 'l', 'l']
}

/// The display text of a value: strings as they are, numbers in decimal,
/// instants in RFC 3339, UUIDs hyphenated, JSON as its text, arrays as
/// `[a, b]`, objects as `{k: v, ...}`, `null`, and `<N bytes>` for bytes.
pub open spec fn display_text(v: Value) -> Seq<char>
    decreases v,
{
    match v {
        Value::Str(s) => s,
        Value::Int(i) => signed_decimal(i as int),
        Value::UInt(u) => decimal(u as nat),
        Value::Float(t) => t,
        Value::Bool(b) => bool_text(b),
        Value::DateTime(t) => timestamp_text(t.seconds, t.nanos, t.offset_seconds),
        Value::DateTimeUTC(t) => timestamp_text(t.seconds, t.nanos, 0),
        Value::Uuid(u) => uuid_text(u),
        Value::Json(j) => j,
        Value::Array(items) => seq!['['] + join(display_items(items), seq![',', ' ']) + seq![']'],
        Value::Object(entries) => seq!['{'] + join(display_entries(entries), seq![',', ' ']) + seq!['}'],
        Value::Null => null_text(),
        Value::Bytes(b) => seq!['<'] + decimal(b.len()) + seq![' ', 'b', 'y', 't', 'e', 's', '>'],
    }
}

/// The display texts of array items.
pub open spec fn display_items(items: Seq<Value>) -> Seq<Seq<char>>
    decreases items,
{
    Seq::new(items.len(), |k: int| if 0 <= k < items.len() { display_text(items[k]) } else { Seq::empty() })
}

/// The display texts `key: value` of object entries.
pub open spec fn display_entries(entries: Seq<(Seq<char>, Value)>) -> Seq<Seq<char>>
    decreases entries,
{
    Seq::new(entries.len(), |k: int| if 0 <= k < entries.len() {
        entries[k].0 + seq![':', ' '] + display_text(entries[k].1)
    } else { Seq::empty() })
}

/// The JSON text of a value: strings as JSON strings, numbers as JSON
/// numbers (non-finite floats as `null`), instants and UUIDs as JSON
/// strings of their text, JSON as its text, arrays and objects as JSON
/// arrays and objects, bytes as an array of numbers.
pub open spec fn json_text(v: Value) -> Seq<char>
    decreases v,
{
    match v {
        Value::Str(s) => json_string(s),
        Value::Int(i) => signed_decimal(i as int),
        Value::UInt(u) => decimal(u as nat),
        Value::Float(t) => float_json(t),
        Value::Bool(b) => bool_text(b),
        Value::DateTime(t) => json_string(timestamp_text(t.seconds, t.nanos, t.offset_seconds)),
        Value::DateTimeUTC(t) => json_string(timestamp_text(t.seconds, t.nanos, 0)),
        Value::Uuid(u) => json_string(uuid_text(u)),
        Value::Json(j) => j,
        Value::Array(items) => seq!['['] + join(json_items(items), seq![',']) + seq![']'],
        Value::Object(entries) => seq!['{'] + join(json_entries(entries), seq![',']) + seq!['}'],
        Value::Null => null_text(),
        Value::Bytes(b) => seq!['['] + join(byte_numbers(b), seq![',']) + seq![']'],
    }
}

/// The JSON texts of array items.
pub open spec fn json_items(items: Seq<Value>) -> Seq<Seq<char>>
    decreases items,
{
    Seq::new(items.len(), |k: int| if 0 <= k < items.len() { json_text(items[k]) } else { Seq::empty() })
}

/// The JSON texts `"key":value` of object entries.
pub open spec fn json_entries(entries: Seq<(Seq<char>, Value)>) -> Seq<Seq<char>>
    decreases entries,
{
    Seq::new(entries.len(), |k: int| if 0 <= k < entries.len() {
        json_string(entries[k].0) + seq![':'] + json_text(entries[k].1)
    } else { Seq::empty() })
}

/// The decimal texts of bytes.
pub open spec fn byte_numbers(b: Seq<u8>) -> Seq<Seq<char>> {
    Seq::new(b.len(), |k: int| decimal(b[k] as nat))
}

fn push_bool(out: &mut String, b: bool)
    ensures
        final(out)@ == old(out)@ + bool_text(b),
{
    proof {
        reveal_strlit("true");
        reveal_strlit("false");
    }
    if b { out.append("true") } else { out.append("false") }
}

fn push_null(out: &mut String)
    ensures
        final(out)@ == old(out)@ + null_text(),
{
    proof { reveal_strlit("null"); }
    out.append("null");
}

/// Appends the JSON text of a float given by its decimal text.
pub fn push_float_json(out: &mut String, t: &str)
    ensures
        final(out)@ == old(out)@ + float_json(t@),
{
    if is_non_finite_float(t) { push_null(out) } else { out.append(t) }
}

/// Appends the display text of a value.
#[verifier::loop_isolation(false)]
#[verifier::spinoff_prover]
#[verifier::rlimit(40)]
pub fn push_display(out: &mut String, v: &DataValue)
    ensures
        final(out)@ == old(out)@ + display_text(v@),
    decreases v,
{
    let ghost start = out@;
    match v {
        DataValue::String(s) => out.append(s.as_str()),
        DataValue::Int(i) => push_signed_decimal(out, *i),
        DataValue::UInt(u) => push_decimal(out, *u),
        DataValue::Float(t) => out.append(t.as_str()),
        DataValue::Bool(b) => push_bool(out, *b),
        DataValue::DateTime(t) => push_timestamp(out, t.seconds, t.nanos, t.offset_seconds),
        DataValue::DateTimeUTC(t) => push_timestamp(out, t.seconds, t.nanos, 0),
        DataValue::Uuid(u) => push_uuid(out, *u),
        DataValue::Json(j) => out.append(j.as_str()),
        DataValue::Array(items) => {
            let ghost m = v@->Array_0;
            let ghost parts = display_items(m);
            assert(m.len() == items@.len());
            push_char(out, '[');
            let mut i: usize = 0;
            while i < items.len()
                invariant
                    i <= items.len(),
                    out@ == start + seq!['['] + join(parts.subrange(0, i as int), seq![',', ' ']),
                decreases items.len() - i,
            {
                proof {
                    assert(decreases_to!(items@ => items@[i as int]));
                }
                if i > 0 {
                    push_char(out, ',');
                    push_char(out, ' ');
                }
                push_display(out, &items[i]);
                assert(m[i as int] == items@[i as int]@);
                assert(parts.subrange(0, i + 1).drop_last() =~= parts.subrange(0, i as int));
                i = i + 1;
            }
            assert(parts.subrange(0, items.len() as int) =~= parts);
            push_char(out, ']');
            assert(out@ =~= start + display_text(v@));
        }
        DataValue::Object(entries) => {
            let ghost m = v@->Object_0;
            let ghost parts = display_entries(m);
            assert(m.len() == entries@.len());
            push_char(out, '{');
            let mut i: usize = 0;
            while i < entries.len()
                invariant
                    i <= entries.len(),
                    out@ == start + seq!['{'] + join(parts.subrange(0, i as int), seq![',', ' ']),
                decreases entries.len() - i,
            {
                proof {
                    assert(decreases_to!(entries@ => entries@[i as int]));
                    assert(decreases_to!(entries@[i as int] => entries@[i as int].1));
                }
                if i > 0 {
                    push_char(out, ',');
                    push_char(out, ' ');
                }
                out.append(entries[i].0.as_str());
                push_char(out, ':');
                push_char(out, ' ');
                push_display(out, &entries[i].1);
                assert(m[i as int] == (entries@[i as int].0@, entries@[i as int].1@));
                assert(parts.subrange(0, i + 1).drop_last() =~= parts.subrange(0, i as int));
                i = i + 1;
            }
            assert(parts.subrange(0, entries.len() as int) =~= parts);
            push_char(out, '}');
            assert(out@ =~= start + display_text(v@));
        }
        DataValue::Null => push_null(out),
        DataValue::Bytes(b) => {
            push_char(out, '<');
            push_decimal(out, b.len() as u64);
            proof { reveal_strlit(" bytes>"); }
            out.append(" bytes>");
            assert(out@ =~= start + display_text(v@));
        }
    }
}

/// The display text of a value.
pub fn display_string(v: &DataValue) -> (s: String)
    ensures
        s@ == display_text(v@),
{
    let mut s = String::new();
    push_display(&mut s, v);
    s
}


/// Appends the JSON text of a value.
#[verifier::loop_isolation(false)]
#[verifier::spinoff_prover]
#[verifier::rlimit(40)]
pub fn push_json(out: &mut String, v: &DataValue)
    ensures
        final(out)@ == old(out)@ + json_text(v@),
    decreases v,
{
    let ghost start = out@;
    match v {
        DataValue::String(s) => push_json_string(out, s.as_str()),
        DataValue::Int(i) => push_signed_decimal(out, *i),
        DataValue::UInt(u) => push_decimal(out, *u),
        DataValue::Float(t) => push_float_json(out, t.as_str()),
        DataValue::Bool(b) => push_bool(out, *b),
        DataValue::DateTime(t) => {
            let mut text = String::new();
            push_timestamp(&mut text, t.seconds, t.nanos, t.offset_seconds);
            push_json_string(out, text.as_str());
        }
        DataValue::DateTimeUTC(t) => {
            let mut text = String::new();
            push_timestamp(&mut text, t.seconds, t.nanos, 0);
            push_json_string(out, text.as_str());
        }
        DataValue::Uuid(u) => {
            let mut text = String::new();
            push_uuid(&mut text, *u);
            push_json_string(out, text.as_str());
        }
        DataValue::Json(j) => out.append(j.as_str()),
        DataValue::Array(items) => {
            let ghost m = v@->Array_0;
            let ghost parts = json_items(m);
            assert(m.len() == items@.len());
            push_char(out, '[');
            let mut i: usize = 0;
            while i < items.len()
                invariant
                    i <= items.len(),
                    out@ == start + seq!['['] + join(parts.subrange(0, i as int), seq![',']),
                decreases items.len() - i,
            {
                proof {
                    assert(decreases_to!(items@ => items@[i as int]));
                }
                if i > 0 {
                    push_char(out, ',');
                }
                push_json(out, &items[i]);
                assert(m[i as int] == items@[i as int]@);
                assert(parts.subrange(0, i + 1).drop_last() =~= parts.subrange(0, i as int));
                i = i + 1;
            }
            assert(parts.subrange(0, items.len() as int) =~= parts);
            push_char(out, ']');
            assert(out@ =~= start + json_text(v@));
        }
        DataValue::Object(entries) => {
            let ghost m = v@->Object_0;
            let ghost parts = json_entries(m);
            assert(m.len() == entries@.len());
            push_char(out, '{');
            let mut i: usize = 0;
            while i < entries.len()
                invariant
                    i <= entries.len(),
                    out@ == start + seq!['{'] + join(parts.subrange(0, i as int), seq![',']),
                decreases entries.len() - i,
            {
                proof {
                    assert(decreases_to!(entries@ => entries@[i as int]));
                    assert(decreases_to!(entries@[i as int] => entries@[i as int].1));
                }
                if i > 0 {
                    push_char(out, ',');
                }
                push_json_string(out, entries[i].0.as_str());
                push_char(out, ':');
                push_json(out, &entries[i].1);
                assert(m[i as int] == (entries@[i as int].0@, entries@[i as int].1@));
                assert(parts.subrange(0, i + 1).drop_last() =~= parts.subrange(0, i as int));
                i = i + 1;
            }
            assert(parts.subrange(0, entries.len() as int) =~= parts);
            push_char(out, '}');
            assert(out@ =~= start + json_text(v@));
        }
        DataValue::Null => push_null(out),
        DataValue::Bytes(b) => {
            let ghost parts = byte_numbers(b@);
            push_char(out, '[');
            let mut i: usize = 0;
            while i < b.len()
                invariant
                    i <= b.len(),
                    out@ == start + seq!['['] + join(parts.subrange(0, i as int), seq![',']),
                decreases b.len() - i,
            {
                if i > 0 {
                    push_char(out, ',');
                }
                push_decimal(out, b[i] as u64);
                assert(parts.subrange(0, i + 1).drop_last() =~= parts.subrange(0, i as int));
                i = i + 1;
            }
            assert(parts.subrange(0, b.len() as int) =~= parts);
            push_char(out, ']');
            assert(out@ =~= start + json_text(v@));
        }
    }
}

/// The JSON text of a value.
pub fn json_string_of(v: &DataValue) -> (s: String)
    ensures
        s@ == json_text(v@),
{
    let mut s = String::new();
    push_json(&mut s, v);
    s
}

} // verus!
