//! The pieces of SQL that both query builders share: placeholders, LIKE
//! patterns, and the fixed words of conditions.

use vstd::prelude::*;
use crate::text::{decimal, push_char, push_decimal_u128, join};
use crate::types::{DataValue, DatabaseType, Value, QueryOperator};

verus! {

/// The placeholder for parameter number `idx`: `$idx` for PostgreSQL and
/// `?` for the others.
pub open spec fn placeholder(db: DatabaseType, idx: nat) -> Seq<char> {
    if db == DatabaseType::PostgreSQL { seq!['$'] + decimal(idx) } else { seq!['?'] }
}

/// The placeholders for `n` parameters numbered from `idx`.
pub open spec fn placeholders(db: DatabaseType, idx: nat, n: nat) -> Seq<Seq<char>> {
    Seq::new(n, |k: int| placeholder(db, (idx + k) as nat))
}

pub fn push_placeholder(out: &mut String, db: DatabaseType, idx: u128)
    ensures
        final(out)@ == old(out)@ + placeholder(db, idx as nat),
{
    if db == DatabaseType::PostgreSQL {
        let ghost before = out@;
        push_char(out, '$');
        push_decimal_u128(out, idx);
        assert(out@ =~= before + placeholder(db, idx as nat));
    } else {
        push_char(out, '?');
        assert(out@ =~= old(out)@ + placeholder(db, idx as nat));
    }
}

/// Appends the placeholders for `n` parameters numbered from `idx`,
/// separated by `, `.
pub fn push_placeholder_list(out: &mut String, db: DatabaseType, idx: u128, n: usize)
    requires
        idx + n <= u128::MAX,
    ensures
        final(out)@ == old(out)@ + join(placeholders(db, idx as nat, n as nat), seq![',', ' ']),
{
    let ghost start = out@;
    let ghost all = placeholders(db, idx as nat, n as nat);
    let mut k: usize = 0;
    while k < n
        invariant
            k <= n,
            idx + n <= u128::MAX,
            all == placeholders(db, idx as nat, n as nat),
            out@ == start + join(all.subrange(0, k as int), seq![',', ' ']),
        decreases n - k,
    {
        if k > 0 {
            push_char(out, ',');
            push_char(out, ' ');
        }
        push_placeholder(out, db, idx + k as u128);
        assert(all.subrange(0, k + 1).drop_last() =~= all.subrange(0, k as int));
        assert(all[k as int] == placeholder(db, (idx + k) as nat));
        k = k + 1;
    }
    assert(all.subrange(0, n as int) =~= all);
}

/// The comparison word of the six plain comparison operators.
pub open spec fn comparison_word(op: QueryOperator) -> Seq<char> {
    match op {
        QueryOperator::Eq => seq![' ', '=', ' '],
        QueryOperator::Ne => seq![' ', '!', '=', ' '],
        QueryOperator::Gt => seq![' ', '>', ' '],
        QueryOperator::Gte => seq![' ', '>', '=', ' '],
        QueryOperator::Lt => seq![' ', '<', ' '],
        _ => seq![' ', '<', '=', ' '],
    }
}

pub open spec fn is_comparison(op: QueryOperator) -> bool {
    op == QueryOperator::Eq || op == QueryOperator::Ne || op == QueryOperator::Gt
        || op == QueryOperator::Gte || op == QueryOperator::Lt || op == QueryOperator::Lte
}

pub fn push_comparison_word(out: &mut String, op: QueryOperator)
    ensures
        final(out)@ == old(out)@ + comparison_word(op),
{
    proof {
        reveal_strlit(" = ");
        reveal_strlit(" != ");
        reveal_strlit(" > ");
        reveal_strlit(" >= ");
        reveal_strlit(" < ");
        reveal_strlit(" <= ");
    }
    match op {
        QueryOperator::Eq => out.append(" = "),
        QueryOperator::Ne => out.append(" != "),
        QueryOperator::Gt => out.append(" > "),
        QueryOperator::Gte => out.append(" >= "),
        QueryOperator::Lt => out.append(" < "),
        _ => out.append(" <= "),
    }
}

/// The LIKE pattern for a value: a string gets `%` before it when
/// `before` and after it when `after`; any other value stays as it is.
pub open spec fn like_pattern(v: Value, before: bool, after: bool) -> Value {
    match v {
        Value::Str(s) => Value::Str(
            (if before { seq!['%'] } else { Seq::empty() }) + s + (if after { seq!['%'] } else { Seq::empty() }),
        ),
        _ => v,
    }
}

pub fn like_pattern_value(v: &DataValue, before: bool, after: bool) -> (r: DataValue)
    ensures
        r@ == like_pattern(v@, before, after),
{
    match v {
        DataValue::String(s) => {
            let mut t = String::new();
            if before {
                push_char(&mut t, '%');
            }
            t.append(s.as_str());
            if after {
                push_char(&mut t, '%');
            }
            assert(t@ =~= (if before { seq!['%'] } else { Seq::<char>::empty() }) + s@ + (if after { seq!['%'] } else { Seq::<char>::empty() }));
            DataValue::String(t)
        }
        _ => v.duplicate(),
    }
}

/// ` LIKE `
pub open spec fn like_word() -> Seq<char> {
    seq![' ', 'L', 'I', 'K', 'E', ' ']
}

/// ` REGEXP `
pub open spec fn regexp_word() -> Seq<char> {
    seq![' ', 'R', 'E', 'G', 'E', 'X', 'P', ' ']
}

/// ` IS NULL`
pub open spec fn is_null_word() -> Seq<char> {
    seq![' ', 'I', 'S', ' ', 'N', 'U', 'L', 'L']
}

/// ` IS NOT NULL`
pub open spec fn is_not_null_word() -> Seq<char> {
    seq![' ', 'I', 'S', ' ', 'N', 'O', 'T', ' ', 'N', 'U', 'L', 'L']
}

/// ` IN (` or ` NOT IN (`
pub open spec fn in_word(negated: bool) -> Seq<char> {
    if negated {
        seq![' ', 'N', 'O', 'T', ' ', 'I', 'N', ' ', '(']
    } else {
        seq![' ', 'I', 'N', ' ', '(']
    }
}

pub fn push_like_word(out: &mut String)
    ensures
        final(out)@ == old(out)@ + like_word(),
{
    proof { reveal_strlit(" LIKE "); }
    out.append(" LIKE ");
}

pub fn push_regexp_word(out: &mut String)
    ensures
        final(out)@ == old(out)@ + regexp_word(),
{
    proof { reveal_strlit(" REGEXP "); }
    out.append(" REGEXP ");
}

pub fn push_is_null_word(out: &mut String, negated: bool)
    ensures
        final(out)@ == old(out)@ + (if negated { is_not_null_word() } else { is_null_word() }),
{
    proof {
        reveal_strlit(" IS NULL");
        reveal_strlit(" IS NOT NULL");
    }
    if negated { out.append(" IS NOT NULL") } else { out.append(" IS NULL") }
}

pub fn push_in_word(out: &mut String, negated: bool)
    ensures
        final(out)@ == old(out)@ + in_word(negated),
{
    proof {
        reveal_strlit(" IN (");
        reveal_strlit(" NOT IN (");
    }
    if negated { out.append(" NOT IN (") } else { out.append(" IN (") }
}

} // verus!
