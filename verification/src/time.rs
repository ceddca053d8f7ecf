//! Date-time text: RFC 3339 and local `YYYY-MM-DD HH:MM:SS` forms, and
//! `+HH:MM` time zone offsets.

use vstd::prelude::*;
use vstd::string::StringSliceAdditionalSpecFns;
use vstd::utf8::{is_ascii_chars, is_char_boundary, encode_utf8};
use crate::error::{QuickDbError, ErrorKind, validation_error};
use crate::numbers::{parse_i64, parse_i64_text, all_digits, is_digit, digits_value};

verus! {

/// What chrono reads an RFC 3339 text as: `None` when
/// `DateTime::parse_from_rfc3339` refuses it, and otherwise the Unix
/// timestamp in seconds (`DateTime::timestamp`) with the local
/// `YYYY-MM-DD HH:MM:SS` text (`format("%Y-%m-%d %H:%M:%S")`).
pub uninterp spec fn rfc3339_reading(s: Seq<char>) -> Option<(i64, Seq<char>)>;

/// The Unix timestamp (seconds) of an RFC 3339 text; `None` when chrono
/// refuses the text.
pub open spec fn rfc3339_timestamp(s: Seq<char>) -> Option<i64> {
    match rfc3339_reading(s) {
        None => None,
        Some((t, _)) => Some(t),
    }
}

/// The `YYYY-MM-DD HH:MM:SS` local text of an RFC 3339 text; `None` when
/// chrono refuses the text.
pub open spec fn rfc3339_local_text(s: Seq<char>) -> Option<Seq<char>> {
    match rfc3339_reading(s) {
        None => None,
        Some((_, l)) => Some(l),
    }
}

/// The Unix timestamp (seconds) of a `YYYY-MM-DD HH:MM:SS` text read as
/// UTC, as chrono's `NaiveDateTime::parse_from_str` with that format,
/// `and_utc` and `timestamp` give it; `None` when chrono refuses the text.
pub uninterp spec fn naive_timestamp(s: Seq<char>) -> Option<i64>;

/// Calls `chrono::DateTime::parse_from_rfc3339`, then `timestamp` and
/// `format` with `%Y-%m-%d %H:%M:%S`. Its result is named by
/// `rfc3339_reading`.
#[verifier::external_body]
fn read_rfc3339(s: &str) -> (r: Option<(i64, String)>)
    ensures
        (match r { Some((t, l)) => Some((t, l@)), None => None }) == rfc3339_reading(s@),
{
    match chrono::DateTime::parse_from_rfc3339(s) {
        Ok(dt) => Some((dt.timestamp(), dt.format("%Y-%m-%d %H:%M:%S").to_string())),
        Err(_) => None,
    }
}

/// The Unix timestamp of an RFC 3339 text (see `rfc3339_timestamp`).
pub(crate) fn parse_rfc3339_timestamp(s: &str) -> (r: Option<i64>)
    ensures
        r == rfc3339_timestamp(s@),
{
    match read_rfc3339(s) {
        Some((t, _)) => Some(t),
        None => None,
    }
}

/// Calls `chrono::NaiveDateTime::parse_from_str` with the format
/// `%Y-%m-%d %H:%M:%S`, then `and_utc` and `timestamp`. Its result is
/// named by `naive_timestamp`; chrono's dates lie between the years
/// -262143 and 262142, so the seconds lie within 2^43 of the epoch.
#[verifier::external_body]
pub(crate) fn parse_naive_timestamp(s: &str) -> (r: Option<i64>)
    ensures
        r == naive_timestamp(s@),
        r matches Some(t) ==> -0x800_0000_0000 <= t <= 0x800_0000_0000,
{
    chrono::NaiveDateTime::parse_from_str(s, "%Y-%m-%d %H:%M:%S").ok().map(|n| n.and_utc().timestamp())
}

/// The local text of an RFC 3339 text (see `rfc3339_local_text`).
pub(crate) fn format_rfc3339_local(s: &str) -> (r: Option<String>)
    ensures
        (match r { Some(t) => Some(t@), None => None }) == rfc3339_local_text(s@),
{
    match read_rfc3339(s) {
        Some((_, l)) => Some(l),
        None => None,
    }
}

/// The seconds east of UTC of a `+HH:MM` / `-HH:MM` offset: six ASCII
/// characters, the hours at 1..3 and the minutes at 4..6 read as
/// `str::parse::<i32>` reads them; a first character other than `+`
/// makes the offset west.
pub open spec fn timezone_offset_seconds(s: Seq<char>) -> Option<i32> {
    if s.len() == 6 && is_ascii_chars(s) {
        match (parse_i64(s.subrange(1, 3)), parse_i64(s.subrange(4, 6))) {
            (Some(h), Some(m)) => {
                let sign: int = if s[0] == '+' { 1 } else { -1 };
                Some((sign * (h * 3600 + m * 60)) as i32)
            },
            _ => None,
        }
    } else {
        None
    }
}

/// The inputs on which slicing an offset text at bytes 1..3 and 4..6 is
/// defined: those not six bytes long, and those with character
/// boundaries at bytes 1, 3 and 4.
pub open spec fn offset_slices_defined(s: Seq<char>) -> bool {
    encode_utf8(s).len() == 6 ==> (is_char_boundary(encode_utf8(s), 1) && is_char_boundary(encode_utf8(s), 3)
        && is_char_boundary(encode_utf8(s), 4))
}

proof fn lemma_two_digit_range(t: Seq<char>)
    requires
        t.len() == 2,
        parse_i64(t) is Some,
    ensures
        -9 <= parse_i64(t)->0 <= 99,
{
    if t[0] == '+' || t[0] == '-' {
        let body = t.drop_first();
        assert(body.len() == 1);
        assert(all_digits(body));
        assert(is_digit(body[0]));
        assert(body.drop_last().len() == 0);
        assert(digits_value(body.drop_last()) == 0);
        assert(body.last() == body[0]);
        assert(0 <= digits_value(body) <= 9);
    } else {
        assert(all_digits(t));
        assert(is_digit(t[0]));
        assert(is_digit(t[1]));
        let a = t.drop_last();
        assert(a.len() == 1);
        assert(a[0] == t[0]);
        assert(a.drop_last().len() == 0);
        assert(digits_value(a.drop_last()) == 0);
        assert(a.last() == t[0]);
        assert(0 <= digits_value(a) <= 9);
        assert(t.last() == t[1]);
        assert(0 <= digits_value(t) <= 99);
    }
}

/// The seconds east of UTC of a `+HH:MM` offset (see
/// `timezone_offset_seconds`); a validation error about
/// `timezone_offset` when the text is not such an offset.
pub fn parse_timezone_offset_to_seconds(timezone_offset: &str) -> (r: Result<i32, QuickDbError>)
    requires
        offset_slices_defined(timezone_offset@),
    ensures
        match (r, timezone_offset_seconds(timezone_offset@)) {
            (Ok(x), Some(y)) => x == y,
            (Err(e), None) => e@ == (ErrorKind::Validation { field: "timezone_offset"@ }),
            _ => false,
        },
{
    if !timezone_offset.is_ascii() || timezone_offset.unicode_len() != 6 {
        return Err(validation_error("timezone_offset", "无效的时区偏移格式，期望格式: +HH:MM"));
    }
    let hours_text = timezone_offset.substring_ascii(1, 3);
    let minutes_text = timezone_offset.substring_ascii(4, 6);
    let hours = match parse_i64_text(hours_text) {
        Some(h) => h,
        None => return Err(validation_error("timezone_offset", "无效的小时格式")),
    };
    let minutes = match parse_i64_text(minutes_text) {
        Some(m) => m,
        None => return Err(validation_error("timezone_offset", "无效的分钟格式")),
    };
    proof {
        lemma_two_digit_range(timezone_offset@.subrange(1, 3));
        lemma_two_digit_range(timezone_offset@.subrange(4, 6));
    }
    let sign: i64 = if timezone_offset.get_char(0) == '+' { 1 } else { -1 };
    let total = sign * (hours * 3600 + minutes * 60);
    Ok(total as i32)
}

/// The Unix timestamp of a local `YYYY-MM-DD HH:MM:SS` time at the given
/// `+HH:MM` offset: the time read as UTC, less the offset.
pub open spec fn local_timestamp(local: Seq<char>, offset: Seq<char>) -> Result<i64, ErrorKind> {
    match naive_timestamp(local) {
        None => Err(ErrorKind::Validation { field: "datetime"@ }),
        Some(t) => match timezone_offset_seconds(offset) {
            None => Err(ErrorKind::Validation { field: "timezone_offset"@ }),
            Some(o) => Ok((t - o) as i64),
        },
    }
}

/// The Unix timestamp of a local time at an offset (see
/// `local_timestamp`).
pub fn convert_local_to_timestamp(local_datetime_str: &str, timezone_offset: &str) -> (r: Result<i64, QuickDbError>)
    requires
        naive_timestamp(local_datetime_str@) is Some ==> offset_slices_defined(timezone_offset@),
    ensures
        match (r, local_timestamp(local_datetime_str@, timezone_offset@)) {
            (Ok(x), Ok(y)) => x == y,
            (Err(e), Err(k)) => e@ == k,
            _ => false,
        },
{
    let t = match parse_naive_timestamp(local_datetime_str) {
        Some(t) => t,
        None => return Err(validation_error("datetime", "无效的日期时间格式")),
    };
    let o = match parse_timezone_offset_to_seconds(timezone_offset) {
        Ok(o) => o,
        Err(e) => return Err(e),
    };
    proof {
        lemma_offset_range(timezone_offset@);
    }
    Ok(t - o as i64)
}

/// Whether slicing an offset text at bytes 1..3 and 4..6 is defined (see
/// `offset_slices_defined`).
pub fn offset_slices_ok(s: &str) -> (b: bool)
    ensures
        b == offset_slices_defined(s@),
{
    assert(s.spec_bytes() == encode_utf8(s@));
    let n = crate::postgres_utils::byte_len(s);
    n != 6 || (s.is_char_boundary(1) && s.is_char_boundary(3) && s.is_char_boundary(4))
}

/// The Unix timestamp of a local time at an offset, as
/// `convert_local_to_timestamp` gives it, on every input on which it is
/// defined; `None` where the local time reads but the offset text would
/// be sliced inside a character.
pub fn checked_local_timestamp(local_datetime_str: &str, timezone_offset: &str) -> (r: Option<Result<i64, QuickDbError>>)
    ensures
        r is None <==> (naive_timestamp(local_datetime_str@) is Some && !offset_slices_defined(timezone_offset@)),
        r matches Some(x) ==> match (x, local_timestamp(local_datetime_str@, timezone_offset@)) {
            (Ok(a), Ok(b)) => a == b,
            (Err(e), Err(k)) => e@ == k,
            _ => false,
        },
{
    if offset_slices_ok(timezone_offset) || parse_naive_timestamp(local_datetime_str).is_none() {
        Some(convert_local_to_timestamp(local_datetime_str, timezone_offset))
    } else {
        None
    }
}

proof fn lemma_offset_range(s: Seq<char>)
    ensures
        timezone_offset_seconds(s) matches Some(o) ==> -400000 <= o <= 400000,
{
    if s.len() == 6 && is_ascii_chars(s) {
        if parse_i64(s.subrange(1, 3)) is Some && parse_i64(s.subrange(4, 6)) is Some {
            lemma_two_digit_range(s.subrange(1, 3));
            lemma_two_digit_range(s.subrange(4, 6));
            let h: int = parse_i64(s.subrange(1, 3))->0 as int;
            let m: int = parse_i64(s.subrange(4, 6))->0 as int;
            let v: int = h * 3600 + m * 60;
            assert(-40000 <= v <= 400000);
            let sign: int = if s[0] == '+' { 1 } else { -1 };
            assert(-400000 <= sign * v <= 400000) by (nonlinear_arith)
                requires
                    sign == 1 || sign == -1,
                    -40000 <= v <= 400000;
        }
    }
}

/// The local `YYYY-MM-DD HH:MM:SS` text of an RFC 3339 time, or a
/// validation error about `datetime` when chrono refuses the text.
pub fn convert_rfc3339_to_local(rfc3339_str: &str) -> (r: Result<String, QuickDbError>)
    ensures
        match (r, rfc3339_local_text(rfc3339_str@)) {
            (Ok(x), Some(y)) => x@ == y,
            (Err(e), None) => e@ == (ErrorKind::Validation { field: "datetime"@ }),
            _ => false,
        },
{
    match format_rfc3339_local(rfc3339_str) {
        Some(t) => Ok(t),
        None => Err(validation_error("datetime", "无效的RFC3339格式")),
    }
}

} // verus!
