//! Reading numbers from text the way `str::parse` does.

use vstd::prelude::*;
use crate::render::{ascii_lower, lower_char};
use crate::text::chars_of;

verus! {

pub open spec fn is_digit(c: char) -> bool {
    '0' <= c && c <= '9'
}

pub open spec fn digit_value(c: char) -> int {
    (c as int) - ('0' as int)
}

/// The value of a run of decimal digits.
pub open spec fn digits_value(s: Seq<char>) -> int
    decreases s.len(),
{
    if s.len() == 0 { 0 } else { digits_value(s.drop_last()) * 10 + digit_value(s.last()) }
}

pub open spec fn all_digits(s: Seq<char>) -> bool {
    forall|i: int| 0 <= i < s.len() ==> #[trigger] is_digit(s[i])
}

/// What `str::parse::<i64>` gives: an optional `+` or `-`, then one or
/// more decimal digits, whose value fits in an `i64`.
pub open spec fn parse_i64(s: Seq<char>) -> Option<i64> {
    let neg = s.len() > 0 && s[0] == '-';
    let body = if s.len() > 0 && (s[0] == '+' || s[0] == '-') { s.drop_first() } else { s };
    let v = if neg { -digits_value(body) } else { digits_value(body) };
    if body.len() > 0 && all_digits(body) && i64::MIN <= v <= i64::MAX {
        Some(v as i64)
    } else {
        None
    }
}

pub(crate) proof fn lemma_digits_value_nonneg(s: Seq<char>)
    requires
        all_digits(s),
    ensures
        digits_value(s) >= 0,
    decreases s.len(),
{
    if s.len() > 0 {
        assert(all_digits(s.drop_last())) by {
            assert forall|i: int| 0 <= i < s.drop_last().len() implies #[trigger] is_digit(s.drop_last()[i]) by {
                assert(is_digit(s[i]));
            }
        }
        lemma_digits_value_nonneg(s.drop_last());
        assert(is_digit(s[s.len() - 1]));
    }
}

/// Reads an `i64` as `str::parse::<i64>` does.
pub fn parse_i64_text(t: &str) -> (r: Option<i64>)
    ensures
        r == parse_i64(t@),
{
    let cs = chars_of(t);
    let n = cs.len();
    let neg = n > 0 && cs[0] == '-';
    let from: usize = if n > 0 && (cs[0] == '+' || cs[0] == '-') { 1 } else { 0 };
    let ghost body = cs@.subrange(from as int, n as int);
    proof {
        if from == 1 {
            assert(body =~= cs@.drop_first());
        } else {
            assert(body =~= cs@);
        }
    }
    if from == n {
        return None;
    }
    // The magnitude is accumulated as u64; beyond 2^63 the value cannot fit.
    let mut acc: u64 = 0;
    let mut i: usize = from;
    let limit: u64 = 9223372036854775808;
    while i < n
        invariant
            from <= i <= n,
            n == cs@.len(),
            cs@ == t@,
            limit == 9223372036854775808u64,
            from == (if n > 0 && (cs@[0] == '+' || cs@[0] == '-') { 1usize } else { 0usize }),
            body == (if t@.len() > 0 && (t@[0] == '+' || t@[0] == '-') { t@.drop_first() } else { t@ }),
            body == cs@.subrange(from as int, n as int),
            all_digits(cs@.subrange(from as int, i as int)),
            acc as int == digits_value(cs@.subrange(from as int, i as int)),
            acc <= limit,
        decreases n - i,
    {
        let c = cs[i];
        assert(cs@.subrange(from as int, i + 1).drop_last() =~= cs@.subrange(from as int, i as int));
        if !('0' <= c && c <= '9') {
            proof {
                assert(body[i - from] == c);
                assert(!is_digit(body[i - from]));
                assert(!all_digits(body));
            }
            return None;
        }
        let d = (c as u64) - ('0' as u64);
        assert(d <= 9 && d as int == digit_value(c));
        if acc > (limit - d) / 10 {
            proof {
                lemma_digits_value_nonneg(cs@.subrange(from as int, i as int));
                assert(digits_value(cs@.subrange(from as int, i + 1)) > limit);
                lemma_digits_prefix_grows(body, (i - from) as int + 1);
                assert(cs@.subrange(from as int, i + 1) =~= body.subrange(0, (i - from) as int + 1));
            }
            return None;
        }
        acc = acc * 10 + d;
        proof {
            assert(all_digits(cs@.subrange(from as int, i + 1))) by {
                assert forall|k: int| 0 <= k < i + 1 - from implies #[trigger] is_digit(cs@.subrange(from as int, i + 1)[k]) by {
                    if k < i - from {
                        assert(cs@.subrange(from as int, i + 1)[k] == cs@.subrange(from as int, i as int)[k]);
                    }
                }
            }
        }
        i = i + 1;
    }
    assert(cs@.subrange(from as int, n as int) =~= body);
    if neg {
        if acc == limit {
            Some(-9223372036854775807i64 - 1)
        } else {
            Some(-(acc as i64))
        }
    } else {
        if acc == limit {
            None
        } else {
            Some(acc as i64)
        }
    }
}

/// A longer run of digits never has a smaller value.
pub(crate) proof fn lemma_digits_prefix_grows(s: Seq<char>, k: int)
    requires
        0 <= k <= s.len(),
    ensures
        all_digits(s) ==> digits_value(s.subrange(0, k)) <= digits_value(s),
    decreases s.len() - k,
{
    if k < s.len() && all_digits(s) {
        lemma_digits_prefix_grows(s, k + 1);
        assert(s.subrange(0, k + 1).drop_last() =~= s.subrange(0, k));
        assert(all_digits(s.subrange(0, k))) by {
            assert forall|i: int| 0 <= i < k implies #[trigger] is_digit(s.subrange(0, k)[i]) by {
                assert(is_digit(s[i]));
            }
        }
        lemma_digits_value_nonneg(s.subrange(0, k));
        assert(is_digit(s[k]));
    } else if k == s.len() {
        assert(s.subrange(0, k) =~= s);
    }
}


/// Where the run of digits that starts at `i` ends.
pub open spec fn digit_run(s: Seq<char>, i: int) -> int
    decreases s.len() - i,
{
    if 0 <= i < s.len() && is_digit(s[i]) { digit_run(s, i + 1) } else { i }
}

/// The number part of the float grammar of `str::parse::<f64>`, on
/// lowercase text: digits, an optional `.` and more digits (at least one
/// digit in all), then optionally `e`, an optional sign and one or more
/// digits.
pub open spec fn valid_number(b: Seq<char>) -> bool {
    let i1 = digit_run(b, 0);
    let has_dot = i1 < b.len() && b[i1] == '.';
    let i2 = if has_dot { digit_run(b, i1 + 1) } else { i1 };
    let count = i1 + (if has_dot { i2 - i1 - 1 } else { 0 });
    count >= 1 && (i2 == b.len() || (b[i2] == 'e' && {
        let j = if i2 + 1 < b.len() && (b[i2 + 1] == '+' || b[i2 + 1] == '-') { i2 + 2 } else { i2 + 1 };
        let k = digit_run(b, j);
        k > j && k == b.len()
    }))
}

/// Whether `str::parse::<f64>` accepts the text: an optional sign, then
/// `inf`, `infinity`, `nan` or a number, case aside.
pub open spec fn valid_float_text(s: Seq<char>) -> bool {
    let t = ascii_lower(s);
    let body = if t.len() > 0 && (t[0] == '+' || t[0] == '-') { t.drop_first() } else { t };
    body == seq!['i', 'n', 'f'] || body == seq!['i', 'n', 'f', 'i', 'n', 'i', 't', 'y']
        || body == seq!['n', 'a', 'n'] || valid_number(body)
}

proof fn lemma_digit_run_bounds(s: Seq<char>, i: int)
    requires
        0 <= i <= s.len(),
    ensures
        i <= digit_run(s, i) <= s.len(),
        forall|k: int| i <= k < digit_run(s, i) ==> is_digit(s[k]),
        digit_run(s, i) < s.len() ==> !is_digit(s[digit_run(s, i)]),
    decreases s.len() - i,
{
    if i < s.len() && is_digit(s[i]) {
        lemma_digit_run_bounds(s, i + 1);
    }
}

fn scan_digits(b: &Vec<char>, i: usize) -> (r: usize)
    requires
        i <= b@.len(),
    ensures
        r as int == digit_run(b@, i as int),
{
    let mut k = i;
    while k < b.len() && '0' <= b[k] && b[k] <= '9'
        invariant
            i <= k <= b@.len(),
            digit_run(b@, k as int) == digit_run(b@, i as int),
        decreases b.len() - k,
    {
        k = k + 1;
    }
    k
}

fn lowered(s: &str) -> (r: Vec<char>)
    ensures
        r@ == ascii_lower(s@),
{
    let cs = chars_of(s);
    let mut r: Vec<char> = Vec::new();
    let mut i: usize = 0;
    while i < cs.len()
        invariant
            i <= cs.len(),
            r@.len() == i,
            forall|k: int| 0 <= k < i ==> #[trigger] r@[k] == lower_char(cs@[k]),
        decreases cs.len() - i,
    {
        let c = cs[i];
        let l = if 'A' <= c && c <= 'Z' { crate::render::lower_of(c) } else { c };
        r.push(l);
        i = i + 1;
    }
    assert(r@ =~= ascii_lower(s@));
    r
}

fn seq_equals(b: &Vec<char>, from: usize, w: &[char]) -> (r: bool)
    requires
        from <= b@.len(),
    ensures
        r == (b@.subrange(from as int, b@.len() as int) == w@),
{
    if b.len() - from != w.len() {
        return false;
    }
    let mut i: usize = 0;
    while i < w.len()
        invariant
            from <= b@.len(),
            b@.len() - from == w@.len(),
            i <= w.len(),
            forall|k: int| 0 <= k < i ==> b@[from + k] == w@[k],
        decreases w.len() - i,
    {
        assert(from + i < b.len());
        if b[from + i] != w[i] {
            assert(b@.subrange(from as int, b@.len() as int)[i as int] != w@[i as int]);
            return false;
        }
        i = i + 1;
    }
    assert(b@.subrange(from as int, b@.len() as int) =~= w@);
    true
}

/// Whether `str::parse::<f64>` accepts the text (see `valid_float_text`).
pub fn is_float_text(s: &str) -> (r: bool)
    ensures
        r == valid_float_text(s@),
{
    let t = lowered(s);
    let n = t.len();
    let from: usize = if n > 0 && (t[0] == '+' || t[0] == '-') { 1 } else { 0 };
    let ghost body = t@.subrange(from as int, n as int);
    proof {
        if from == 1 {
            assert(body =~= t@.drop_first());
        } else {
            assert(body =~= t@);
        }
    }
    let inf = ['i', 'n', 'f'];
    let infinity = ['i', 'n', 'f', 'i', 'n', 'i', 't', 'y'];
    let nan = ['n', 'a', 'n'];
    proof {
        assert(inf@ =~= seq!['i', 'n', 'f']);
        assert(infinity@ =~= seq!['i', 'n', 'f', 'i', 'n', 'i', 't', 'y']);
        assert(nan@ =~= seq!['n', 'a', 'n']);
    }
    if seq_equals(&t, from, &inf) || seq_equals(&t, from, &infinity) || seq_equals(&t, from, &nan) {
        return true;
    }
    // The number part, scanned on `b`, the text after the sign.
    let mut b: Vec<char> = Vec::new();
    let mut k: usize = from;
    while k < n
        invariant
            from <= k <= n,
            n == t@.len(),
            b@ == t@.subrange(from as int, k as int),
        decreases n - k,
    {
        b.push(t[k]);
        assert(t@.subrange(from as int, k + 1) =~= t@.subrange(from as int, k as int).push(t@[k as int]));
        k = k + 1;
    }
    assert(b@ == body);
    let len = b.len();
    let i1 = scan_digits(&b, 0);
    let has_dot = i1 < len && b[i1] == '.';
    proof { lemma_digit_run_bounds(b@, 0); }
    let i2 = if has_dot {
        proof { lemma_digit_run_bounds(b@, i1 + 1); }
        scan_digits(&b, i1 + 1)
    } else {
        i1
    };
    let count = i1 + (if has_dot { i2 - i1 - 1 } else { 0 });
    if count < 1 {
        return false;
    }
    if i2 == len {
        return true;
    }
    if b[i2] != 'e' {
        return false;
    }
    let j = if i2 + 1 < len && (b[i2 + 1] == '+' || b[i2 + 1] == '-') { i2 + 2 } else { i2 + 1 };
    proof { lemma_digit_run_bounds(b@, j as int); }
    let k2 = scan_digits(&b, j);
    k2 > j && k2 == len
}

/// What `str::parse::<u64>` gives: an optional `+`, then one or more
/// decimal digits, whose value fits in a `u64`.
pub open spec fn parse_u64(s: Seq<char>) -> Option<u64> {
    let body = if s.len() > 0 && s[0] == '+' { s.drop_first() } else { s };
    if body.len() > 0 && all_digits(body) && digits_value(body) <= u64::MAX {
        Some(digits_value(body) as u64)
    } else {
        None
    }
}

/// Reads a `u64` as `str::parse::<u64>` does.
pub fn parse_u64_text(t: &str) -> (r: Option<u64>)
    ensures
        r == parse_u64(t@),
{
    let cs = chars_of(t);
    let n = cs.len();
    let from: usize = if n > 0 && cs[0] == '+' { 1 } else { 0 };
    let ghost body = cs@.subrange(from as int, n as int);
    proof {
        if from == 1 {
            assert(body =~= cs@.drop_first());
        } else {
            assert(body =~= cs@);
        }
    }
    if from == n {
        return None;
    }
    let mut acc: u64 = 0;
    let mut i: usize = from;
    while i < n
        invariant
            from <= i <= n,
            n == cs@.len(),
            cs@ == t@,
            from == (if n > 0 && cs@[0] == '+' { 1usize } else { 0usize }),
            body == (if t@.len() > 0 && t@[0] == '+' { t@.drop_first() } else { t@ }),
            body == cs@.subrange(from as int, n as int),
            all_digits(cs@.subrange(from as int, i as int)),
            acc as int == digits_value(cs@.subrange(from as int, i as int)),
        decreases n - i,
    {
        let c = cs[i];
        assert(cs@.subrange(from as int, i + 1).drop_last() =~= cs@.subrange(from as int, i as int));
        if !('0' <= c && c <= '9') {
            proof {
                assert(body[i - from] == c);
                assert(!is_digit(body[i - from]));
                assert(!all_digits(body));
            }
            return None;
        }
        let d = (c as u64) - ('0' as u64);
        assert(d <= 9 && d as int == digit_value(c));
        if acc > (18446744073709551615u64 - d) / 10 {
            proof {
                lemma_digits_value_nonneg(cs@.subrange(from as int, i as int));
                assert(digits_value(cs@.subrange(from as int, i + 1)) > u64::MAX);
                lemma_digits_prefix_grows(body, (i - from) as int + 1);
                assert(cs@.subrange(from as int, i + 1) =~= body.subrange(0, (i - from) as int + 1));
            }
            return None;
        }
        acc = acc * 10 + d;
        proof {
            assert(all_digits(cs@.subrange(from as int, i + 1))) by {
                assert forall|k: int| 0 <= k < i + 1 - from implies #[trigger] is_digit(cs@.subrange(from as int, i + 1)[k]) by {
                    if k < i - from {
                        assert(cs@.subrange(from as int, i + 1)[k] == cs@.subrange(from as int, i as int)[k]);
                    }
                }
            }
        }
        i = i + 1;
    }
    assert(cs@.subrange(from as int, n as int) =~= body);
    Some(acc)
}

} // verus!
