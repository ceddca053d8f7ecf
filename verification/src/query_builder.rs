//! The SQL query builder: SELECT, INSERT, UPDATE and DELETE statements
//! with their parameter lists, for PostgreSQL (`$n` placeholders), MySQL
//! and SQLite (`?` placeholders).

use vstd::prelude::*;
use crate::error::{QuickDbError, ErrorKind, query_error, validation_error};
use crate::models::{FieldKind, FieldType, ModelRegistry, ModelView, table_field_kind, option_kind};
use crate::postgres_utils::{build_json_query_condition, json_query_condition};
use crate::security::{DatabaseSecurityValidator, safe_identifier};
use crate::sql::{
    comparison_word, in_word, is_comparison, is_not_null_word, is_null_word, like_pattern,
    like_pattern_value, like_word, placeholder, placeholders, push_comparison_word, push_in_word,
    push_is_null_word, push_like_word, push_placeholder, push_placeholder_list, push_regexp_word,
    regexp_word,
};
use crate::text::{join, push_char};
use crate::types::{
    DataValue, DatabaseType, Value, Condition, Group, QueryCondition, QueryConditionGroup,
    QueryOperator, LogicalOperator, SortDirection, values_model, conditions_model,
};

verus! {

/// The largest parameter number the builder works with.
pub open spec fn index_bound() -> nat {
    0x4_0000_0000_0000_0000
}

/// The clause and parameters of one condition whose first parameter is
/// number `idx`. The field must be a safe identifier. Plain comparisons,
/// LIKE patterns (`%v%` for Contains, `v%` for StartsWith, `%v` for
/// EndsWith) and REGEXP take one parameter; IN and NOT IN take one per
/// array item and need an array; the null checks take none. On
/// PostgreSQL, Contains on a field registered as JSON is a JSONB
/// condition, and Contains on a field that is not registered is refused.
/// JsonContains is refused.
pub open spec fn condition_clause(
    db: DatabaseType,
    table: Seq<char>,
    models: Seq<ModelView>,
    c: Condition,
    idx: nat,
) -> Result<(Seq<char>, Seq<Value>), ErrorKind> {
    let f = c.field;
    let ph = placeholder(db, idx);
    if !safe_identifier(f) {
        Err(ErrorKind::Validation { field: f })
    } else if is_comparison(c.operator) {
        Ok((f + comparison_word(c.operator) + ph, seq![c.value]))
    } else {
        match c.operator {
            QueryOperator::Contains => if db == DatabaseType::PostgreSQL {
                match table_field_kind(models, table, f) {
                    Some(FieldKind::Json) => {
                        let jc = json_query_condition(f, c.value, ph);
                        Ok((jc.0, seq![jc.1]))
                    },
                    Some(_) => Ok((f + like_word() + ph, seq![like_pattern(c.value, true, true)])),
                    None => Err(ErrorKind::Validation { field: f }),
                }
            } else {
                Ok((f + like_word() + ph, seq![like_pattern(c.value, true, true)]))
            },
            QueryOperator::JsonContains => Err(ErrorKind::Query),
            QueryOperator::StartsWith => Ok((f + like_word() + ph, seq![like_pattern(c.value, false, true)])),
            QueryOperator::EndsWith => Ok((f + like_word() + ph, seq![like_pattern(c.value, true, false)])),
            QueryOperator::In | QueryOperator::NotIn => match c.value {
                Value::Array(items) => Ok((
                    f + in_word(c.operator == QueryOperator::NotIn)
                        + join(placeholders(db, idx, items.len()), seq![',', ' ']) + seq![')'],
                    items,
                )),
                _ => Err(ErrorKind::Query),
            },
            QueryOperator::Regex => Ok((f + regexp_word() + ph, seq![c.value])),
            QueryOperator::IsNull => Ok((f + is_null_word(), Seq::empty())),
            _ => Ok((f + is_not_null_word(), Seq::empty())),
        }
    }
}

/// Whether a clause result matches its model.
pub open spec fn clause_matches(
    r: Result<(String, Vec<DataValue>), QuickDbError>,
    m: Result<(Seq<char>, Seq<Value>), ErrorKind>,
) -> bool {
    match (r, m) {
        (Ok(x), Ok(y)) => x.0@ == y.0 && values_model(x.1@) == y.1,
        (Err(e), Err(k)) => e@ == k,
        _ => false,
    }
}

pub(crate) fn single_value(v: DataValue) -> (r: Vec<DataValue>)
    ensures
        values_model(r@) == seq![v@],
{
    let mut r = Vec::new();
    r.push(v);
    assert(values_model(r@) =~= seq![v@]);
    r
}

pub(crate) fn no_values() -> (r: Vec<DataValue>)
    ensures
        values_model(r@) == Seq::<Value>::empty(),
{
    let r: Vec<DataValue> = Vec::new();
    assert(values_model(r@) =~= Seq::<Value>::empty());
    r
}

pub(crate) fn duplicate_values(items: &Vec<DataValue>) -> (r: Vec<DataValue>)
    ensures
        values_model(r@) == values_model(items@),
{
    let mut r: Vec<DataValue> = Vec::new();
    let mut i: usize = 0;
    while i < items.len()
        invariant
            i <= items.len(),
            r@.len() == i,
            forall|k: int| 0 <= k < i ==> #[trigger] r@[k]@ == items@[k]@,
        decreases items.len() - i,
    {
        r.push(items[i].duplicate());
        i = i + 1;
    }
    assert(values_model(r@) =~= values_model(items@));
    r
}

/// The clause and parameters of one condition (see `condition_clause`).
pub fn build_condition_clause(
    db: DatabaseType,
    table: &str,
    models: &ModelRegistry,
    condition: &QueryCondition,
    idx: u128,
) -> (r: Result<(String, Vec<DataValue>), QuickDbError>)
    requires
        idx <= index_bound(),
    ensures
        clause_matches(r, condition_clause(db, table@, models@, condition@, idx as nat)),
{
    let validator = DatabaseSecurityValidator::new(db);
    let safe_field = match validator.get_safe_field_identifier(condition.field.as_str()) {
        Ok(f) => f,
        Err(e) => return Err(e),
    };
    let ghost f = condition.field@;
    let mut sql = safe_field;
    let mut ph = String::new();
    push_placeholder(&mut ph, db, idx);
    let ghost spec = condition_clause(db, table@, models@, condition@, idx as nat);
    match condition.operator {
        QueryOperator::Eq | QueryOperator::Ne | QueryOperator::Gt | QueryOperator::Gte
        | QueryOperator::Lt | QueryOperator::Lte => {
            push_comparison_word(&mut sql, condition.operator);
            sql.append(ph.as_str());
            assert(sql@ == spec->Ok_0.0);
            Ok((sql, single_value(condition.value.duplicate())))
        }
        QueryOperator::Contains => {
            if db == DatabaseType::PostgreSQL {
                match models.table_field_type(table, condition.field.as_str()) {
                    Some(FieldType::Json) => {
                        match build_json_query_condition(condition.field.as_str(), &condition.value, ph.as_str()) {
                            Ok((clause, param)) => {
                                Ok((clause, single_value(param)))
                            }
                            Err(e) => Err(e),
                        }
                    }
                    Some(_) => {
                        push_like_word(&mut sql);
                        sql.append(ph.as_str());
                        assert(sql@ == spec->Ok_0.0);
                                    Ok((sql, single_value(like_pattern_value(&condition.value, true, true))))
                    }
                    None => Err(validation_error(condition.field.as_str(), "无法确定字段的类型，请确保已正确注册模型元数据")),
                }
            } else {
                push_like_word(&mut sql);
                sql.append(ph.as_str());
                assert(sql@ == spec->Ok_0.0);
                    Ok((sql, single_value(like_pattern_value(&condition.value, true, true))))
            }
        }
        QueryOperator::JsonContains => Err(query_error("JsonContains 操作符不支持通用SQL查询构建器")),
        QueryOperator::StartsWith => {
            push_like_word(&mut sql);
            sql.append(ph.as_str());
            assert(sql@ == spec->Ok_0.0);
            Ok((sql, single_value(like_pattern_value(&condition.value, false, true))))
        }
        QueryOperator::EndsWith => {
            push_like_word(&mut sql);
            sql.append(ph.as_str());
            assert(sql@ == spec->Ok_0.0);
            Ok((sql, single_value(like_pattern_value(&condition.value, true, false))))
        }
        QueryOperator::In | QueryOperator::NotIn => {
            match &condition.value {
                DataValue::Array(items) => {
                    let negated = condition.operator == QueryOperator::NotIn;
                    push_in_word(&mut sql, negated);
                    push_placeholder_list(&mut sql, db, idx, items.len());
                    push_char(&mut sql, ')');
                    assert(sql@ == spec->Ok_0.0);
                            let params = duplicate_values(items);
                    proof { crate::types::lemma_array_model(*items); }
                    Ok((sql, params))
                }
                _ => {
                    if condition.operator == QueryOperator::In {
                        Err(query_error("IN 操作符需要数组类型的值"))
                    } else {
                        Err(query_error("NOT IN 操作符需要数组类型的值"))
                    }
                }
            }
        }
        QueryOperator::Regex => {
            push_regexp_word(&mut sql);
            sql.append(ph.as_str());
            assert(sql@ == spec->Ok_0.0);
            Ok((sql, single_value(condition.value.duplicate())))
        }
        QueryOperator::IsNull => {
            push_is_null_word(&mut sql, false);
            assert(sql@ == spec->Ok_0.0);
            Ok((sql, no_values()))
        }
        QueryOperator::Exists | QueryOperator::IsNotNull => {
            push_is_null_word(&mut sql, true);
            assert(sql@ == spec->Ok_0.0);
            Ok((sql, no_values()))
        }
    }
}


/// The clauses and parameters of a list of conditions, numbering
/// parameters from `start`; the first refused condition decides the
/// error.
pub open spec fn condition_items(
    db: DatabaseType,
    table: Seq<char>,
    models: Seq<ModelView>,
    cs: Seq<Condition>,
    start: nat,
) -> Result<(Seq<Seq<char>>, Seq<Value>), ErrorKind>
    decreases cs.len(),
{
    if cs.len() == 0 {
        Ok((Seq::empty(), Seq::empty()))
    } else {
        match condition_items(db, table, models, cs.drop_last(), start) {
            Err(e) => Err(e),
            Ok((cl, ps)) => match condition_clause(db, table, models, cs.last(), start + ps.len()) {
                Err(e) => Err(e),
                Ok((c, p)) => Ok((cl.push(c), ps + p)),
            },
        }
    }
}

/// Once a prefix of the conditions is refused, every longer prefix is.
pub proof fn lemma_condition_items_err(
    db: DatabaseType,
    table: Seq<char>,
    models: Seq<ModelView>,
    cs: Seq<Condition>,
    start: nat,
    k: int,
)
    requires
        0 <= k <= cs.len(),
        condition_items(db, table, models, cs.subrange(0, k), start) is Err,
    ensures
        forall|n: int| k <= n <= cs.len() ==> #[trigger] condition_items(db, table, models, cs.subrange(0, n), start)
            == condition_items(db, table, models, cs.subrange(0, k), start),
{
    assert forall|n: int| k <= n <= cs.len() implies #[trigger] condition_items(db, table, models, cs.subrange(0, n), start)
        == condition_items(db, table, models, cs.subrange(0, k), start) by {
        lemma_condition_items_err_at(db, table, models, cs, start, k, n);
    }
}

proof fn lemma_condition_items_err_at(
    db: DatabaseType,
    table: Seq<char>,
    models: Seq<ModelView>,
    cs: Seq<Condition>,
    start: nat,
    k: int,
    n: int,
)
    requires
        0 <= k <= n <= cs.len(),
        condition_items(db, table, models, cs.subrange(0, k), start) is Err,
    ensures
        condition_items(db, table, models, cs.subrange(0, n), start)
            == condition_items(db, table, models, cs.subrange(0, k), start),
    decreases n - k,
{
    if n > k {
        lemma_condition_items_err_at(db, table, models, cs, start, k, n - 1);
        assert(cs.subrange(0, n).drop_last() =~= cs.subrange(0, n - 1));
    }
}

/// ` AND `
pub open spec fn and_word() -> Seq<char> {
    seq![' ', 'A', 'N', 'D', ' ']
}

/// ` OR `
pub open spec fn or_word() -> Seq<char> {
    seq![' ', 'O', 'R', ' ']
}

/// A WHERE clause for a list of conditions: their clauses joined with
/// ` AND `, and their parameters in order.
pub open spec fn where_clause(
    db: DatabaseType,
    table: Seq<char>,
    models: Seq<ModelView>,
    cs: Seq<Condition>,
    start: nat,
) -> Result<(Seq<char>, Seq<Value>), ErrorKind> {
    match condition_items(db, table, models, cs, start) {
        Ok((cl, ps)) => Ok((join(cl, and_word()), ps)),
        Err(e) => Err(e),
    }
}

/// A list of conditions gives one clause per condition.
proof fn lemma_condition_items_len(db: DatabaseType, table: Seq<char>, models: Seq<ModelView>, cs: Seq<Condition>, start: nat)
    ensures
        condition_items(db, table, models, cs, start) matches Ok((cl, _)) ==> cl.len() == cs.len(),
    decreases cs.len(),
{
    if cs.len() > 0 {
        lemma_condition_items_len(db, table, models, cs.drop_last(), start);
    }
}

/// The clauses of two condition lists one after the other are those of
/// the first followed by those of the second, whose parameters are
/// numbered after the first's.
proof fn lemma_condition_items_concat(
    db: DatabaseType,
    table: Seq<char>,
    models: Seq<ModelView>,
    c1: Seq<Condition>,
    c2: Seq<Condition>,
    k: nat,
)
    ensures
        condition_items(db, table, models, c1 + c2, k) == match condition_items(db, table, models, c1, k) {
            Err(e) => Err(e),
            Ok((l1, p1)) => match condition_items(db, table, models, c2, k + p1.len()) {
                Err(e) => Err(e),
                Ok((l2, p2)) => Ok((l1 + l2, p1 + p2)),
            },
        },
    decreases c2.len(),
{
    if c2.len() == 0 {
        assert(c1 + c2 =~= c1);
        if let Ok((l1, p1)) = condition_items(db, table, models, c1, k) {
            assert(l1 + Seq::<Seq<char>>::empty() =~= l1);
            assert(p1 + Seq::<Value>::empty() =~= p1);
        }
    } else {
        let c2p = c2.drop_last();
        lemma_condition_items_concat(db, table, models, c1, c2p, k);
        assert((c1 + c2).drop_last() =~= c1 + c2p);
        assert((c1 + c2).last() == c2.last());
        if let Ok((l1, p1)) = condition_items(db, table, models, c1, k) {
            if let Ok((l2p, p2p)) = condition_items(db, table, models, c2p, k + p1.len()) {
                assert(k + (p1 + p2p).len() == (k + p1.len()) + p2p.len());
                if let Ok((c, p)) = condition_clause(db, table, models, c2.last(), (k + p1.len()) + p2p.len()) {
                    assert((l1 + l2p).push(c) =~= l1 + l2p.push(c));
                    assert((p1 + p2p) + p =~= p1 + (p2p + p));
                }
            }
        }
    }
}

/// The WHERE clause of no conditions is empty and binds nothing.
pub proof fn law_where_clause_empty(db: DatabaseType, table: Seq<char>, models: Seq<ModelView>, k: nat)
    ensures
        where_clause(db, table, models, Seq::empty(), k) == Ok::<(Seq<char>, Seq<Value>), ErrorKind>((Seq::empty(), Seq::empty())),
{
}

/// The WHERE clause of two non-empty condition lists one after the
/// other is the first's clause, ` AND `, and the second's clause with its
/// parameters numbered after the first's; the parameters are the first's
/// followed by the second's. A refusal of either list refuses both
/// together, the first list's refusal first.
pub proof fn law_where_clause_concat(
    db: DatabaseType,
    table: Seq<char>,
    models: Seq<ModelView>,
    c1: Seq<Condition>,
    c2: Seq<Condition>,
    k: nat,
)
    requires
        c1.len() > 0,
        c2.len() > 0,
    ensures
        where_clause(db, table, models, c1 + c2, k) == match where_clause(db, table, models, c1, k) {
            Err(e) => Err(e),
            Ok((s1, p1)) => match where_clause(db, table, models, c2, k + p1.len()) {
                Err(e) => Err(e),
                Ok((s2, p2)) => Ok((s1 + and_word() + s2, p1 + p2)),
            },
        },
{
    lemma_condition_items_concat(db, table, models, c1, c2, k);
    if let Ok((l1, p1)) = condition_items(db, table, models, c1, k) {
        lemma_condition_items_len(db, table, models, c1, k);
        if let Ok((l2, p2)) = condition_items(db, table, models, c2, k + p1.len()) {
            lemma_condition_items_len(db, table, models, c2, k + p1.len());
            crate::text::lemma_join_concat(l1, l2, and_word());
        }
    }
}

pub fn push_and_word(out: &mut String)
    ensures
        final(out)@ == old(out)@ + and_word(),
{
    proof { reveal_strlit(" AND "); }
    out.append(" AND ");
}

pub fn push_or_word(out: &mut String)
    ensures
        final(out)@ == old(out)@ + or_word(),
{
    proof { reveal_strlit(" OR "); }
    out.append(" OR ");
}

/// The WHERE clause of `conditions` with parameters numbered from
/// `start_index` (see `where_clause`).
pub fn build_where_clause_for(
    db: DatabaseType,
    table: &str,
    models: &ModelRegistry,
    conditions: &[QueryCondition],
    start_index: u128,
) -> (r: Result<(String, Vec<DataValue>), QuickDbError>)
    requires
        start_index <= 0x1_0000_0000_0000_0000,
    ensures
        clause_matches(r, where_clause(db, table@, models@, conditions_model(conditions@), start_index as nat)),
{
    let ghost cs = conditions_model(conditions@);
    let mut sql = String::new();
    let mut params: Vec<DataValue> = Vec::new();
    let ghost mut clauses: Seq<Seq<char>> = Seq::empty();
    let mut i: usize = 0;
    assert(values_model(params@) =~= Seq::<Value>::empty());
    assert(cs.subrange(0, 0) =~= Seq::<Condition>::empty());
    while i < conditions.len()
        invariant
            i <= conditions.len(),
            start_index <= 0x1_0000_0000_0000_0000,
            cs == conditions_model(conditions@),
            cs.len() == conditions@.len(),
            condition_items(db, table@, models@, cs.subrange(0, i as int), start_index as nat)
                == Ok::<(Seq<Seq<char>>, Seq<Value>), ErrorKind>((clauses, values_model(params@))),
            sql@ == join(clauses, and_word()),
            clauses.len() == i,
        decreases conditions.len() - i,
    {
        let idx: u128 = start_index + params.len() as u128;
        assert(cs.subrange(0, i + 1).drop_last() =~= cs.subrange(0, i as int));
        assert(cs.subrange(0, i + 1).last() == conditions@[i as int]@);
        match build_condition_clause(db, table, models, &conditions[i], idx) {
            Err(e) => {
                proof {
                    lemma_condition_items_err(db, table@, models@, cs, start_index as nat, i as int + 1);
                    assert(cs.subrange(0, cs.len() as int) =~= cs);
                }
                return Err(e);
            }
            Ok((clause, mut ps)) => {
                let ghost old_clauses = clauses;
                let ghost old_sql = sql@;
                if i > 0 {
                    push_and_word(&mut sql);
                }
                sql.append(clause.as_str());
                let ghost old_params = values_model(params@);
                let ghost new_params = values_model(ps@);
                params.append(&mut ps);
                assert(values_model(params@) =~= old_params + new_params);
                proof {
                    clauses = clauses.push(clause@);
                }
                assert(clauses.drop_last() =~= old_clauses);
                if i == 0 {
                    assert(sql@ =~= clause@);
                }
            }
        }
        i = i + 1;
    }
    assert(cs.subrange(0, conditions.len() as int) =~= cs);
    Ok((sql, params))
}


/// The word that joins the members of a group.
pub open spec fn logical_word(op: LogicalOperator) -> Seq<char> {
    if op == LogicalOperator::And { and_word() } else { or_word() }
}

/// The clause and parameters of a condition tree whose first parameter
/// is number `idx`: a single condition as `condition_clause` gives it; a
/// group as the non-empty clauses of its members joined with its
/// operator, in parentheses when there are two or more, or the empty
/// clause when no member has one.
pub open spec fn group_clause(
    db: DatabaseType,
    table: Seq<char>,
    models: Seq<ModelView>,
    g: Group,
    idx: nat,
) -> Result<(Seq<char>, Seq<Value>), ErrorKind>
    decreases g,
{
    match g {
        Group::Single(c) => condition_clause(db, table, models, c, idx),
        Group::Group { operator, conditions } => match group_members(db, table, models, conditions, idx) {
            Err(e) => Err(e),
            Ok((cl, ps)) => if cl.len() == 0 {
                Ok((Seq::empty(), Seq::empty()))
            } else if cl.len() == 1 {
                Ok((cl[0], ps))
            } else {
                Ok((seq!['('] + join(cl, logical_word(operator)) + seq![')'], ps))
            },
        },
    }
}

/// The non-empty clauses of the members of a group, with their
/// parameters, numbering parameters from `idx`.
pub open spec fn group_members(
    db: DatabaseType,
    table: Seq<char>,
    models: Seq<ModelView>,
    gs: Seq<Group>,
    idx: nat,
) -> Result<(Seq<Seq<char>>, Seq<Value>), ErrorKind>
    decreases gs,
{
    if gs.len() == 0 {
        Ok((Seq::empty(), Seq::empty()))
    } else {
        proof {
            assert(decreases_to!(gs => gs.subrange(0, gs.len() - 1)));
        }
        match group_members(db, table, models, gs.drop_last(), idx) {
            Err(e) => Err(e),
            Ok((cl, ps)) => match group_clause(db, table, models, gs.last(), idx + ps.len()) {
                Err(e) => Err(e),
                Ok((c, p)) => if c.len() == 0 { Ok((cl, ps)) } else { Ok((cl.push(c), ps + p)) },
            },
        }
    }
}


/// A bound on the parameters a condition takes: one more than the items
/// of an array value, one otherwise.
pub open spec fn condition_weight(c: Condition) -> nat {
    match c.value {
        Value::Array(items) => items.len() + 1,
        _ => 1,
    }
}

/// The most parameters a condition tree can take.
pub open spec fn group_weight(g: Group) -> nat
    decreases g,
{
    match g {
        Group::Single(c) => condition_weight(c),
        Group::Group { conditions, .. } => members_weight(conditions),
    }
}

/// The most parameters a list of condition trees can take.
pub open spec fn members_weight(gs: Seq<Group>) -> nat
    decreases gs,
{
    if gs.len() == 0 {
        0
    } else {
        proof {
            assert(decreases_to!(gs => gs.subrange(0, gs.len() - 1)));
        }
        members_weight(gs.drop_last()) + group_weight(gs.last())
    }
}

pub proof fn lemma_condition_weight(db: DatabaseType, table: Seq<char>, models: Seq<ModelView>, c: Condition, idx: nat)
    ensures
        condition_clause(db, table, models, c, idx) matches Ok((s, p)) ==> p.len() <= condition_weight(c),
{
}

pub proof fn lemma_group_weight(db: DatabaseType, table: Seq<char>, models: Seq<ModelView>, g: Group, idx: nat)
    ensures
        group_clause(db, table, models, g, idx) matches Ok((s, p)) ==> p.len() <= group_weight(g),
    decreases g,
{
    match g {
        Group::Single(c) => lemma_condition_weight(db, table, models, c, idx),
        Group::Group { operator, conditions } => lemma_members_weight(db, table, models, conditions, idx),
    }
}

pub proof fn lemma_members_weight(db: DatabaseType, table: Seq<char>, models: Seq<ModelView>, gs: Seq<Group>, idx: nat)
    ensures
        group_members(db, table, models, gs, idx) matches Ok((s, p)) ==> p.len() <= members_weight(gs),
    decreases gs,
{
    if gs.len() > 0 {
        assert(decreases_to!(gs => gs.subrange(0, gs.len() - 1)));
        lemma_members_weight(db, table, models, gs.drop_last(), idx);
        match group_members(db, table, models, gs.drop_last(), idx) {
            Ok((cl, ps)) => lemma_group_weight(db, table, models, gs.last(), idx + ps.len()),
            Err(_) => {},
        }
    }
}

/// Once a prefix of a group's members is refused, every longer prefix is,
/// with the same error.
proof fn lemma_group_members_err_at(
    db: DatabaseType,
    table: Seq<char>,
    models: Seq<ModelView>,
    gs: Seq<Group>,
    start: nat,
    k: int,
    n: int,
)
    requires
        0 <= k <= n <= gs.len(),
        group_members(db, table, models, gs.subrange(0, k), start) is Err,
    ensures
        group_members(db, table, models, gs.subrange(0, n), start)
            == group_members(db, table, models, gs.subrange(0, k), start),
    decreases n - k,
{
    if n > k {
        lemma_group_members_err_at(db, table, models, gs, start, k, n - 1);
        assert(gs.subrange(0, n).drop_last() =~= gs.subrange(0, n - 1));
    }
}

proof fn lemma_members_weight_prefix(gs: Seq<Group>, i: int)
    requires
        0 <= i < gs.len(),
    ensures
        members_weight(gs.subrange(0, i + 1)) == members_weight(gs.subrange(0, i)) + group_weight(gs[i]),
        members_weight(gs.subrange(0, i + 1)) <= members_weight(gs),
    decreases gs.len() - i,
{
    assert(gs.subrange(0, i + 1).drop_last() =~= gs.subrange(0, i));
    if i + 1 < gs.len() {
        lemma_members_weight_prefix(gs, i + 1);
    } else {
        assert(gs.subrange(0, i + 1) =~= gs);
    }
}

/// The model of a group node is its operator and the models of its
/// members.
pub proof fn lemma_group_model(operator: LogicalOperator, conditions: Vec<QueryConditionGroup>)
    ensures
        (QueryConditionGroup::Group { operator, conditions })@
            == (Group::Group { operator, conditions: crate::types::groups_model(conditions@) }),
{
    let g = QueryConditionGroup::Group { operator, conditions };
    assert(g@->conditions.len() == conditions@.len());
    assert(forall|k: int| 0 <= k < conditions@.len() ==> g@->conditions[k] == conditions@[k]@);
    assert(g@->conditions =~= crate::types::groups_model(conditions@));
}

/// The clause and parameters of a condition tree (see `group_clause`).
#[verifier::loop_isolation(false)]
pub fn build_group_clause(
    db: DatabaseType,
    table: &str,
    models: &ModelRegistry,
    group: &QueryConditionGroup,
    idx: u128,
) -> (r: Result<(String, Vec<DataValue>), QuickDbError>)
    requires
        idx + group_weight(group@) <= index_bound(),
    ensures
        clause_matches(r, group_clause(db, table@, models@, group@, idx as nat)),
    decreases group,
{
    match group {
        QueryConditionGroup::Single(c) => {
            build_condition_clause(db, table, models, c, idx)
        }
        QueryConditionGroup::Group { operator, conditions } => {
            proof { lemma_group_model(*operator, *conditions); }
            let ghost gs = crate::types::groups_model(conditions@);
            let mut clauses: Vec<String> = Vec::new();
            let mut params: Vec<DataValue> = Vec::new();
            let mut i: usize = 0;
            assert(values_model(params@) =~= Seq::<Value>::empty());
            assert(gs.subrange(0, 0) =~= Seq::<Group>::empty());
            assert(crate::text::strings_view(clauses@) =~= Seq::<Seq<char>>::empty());
            while i < conditions.len()
                invariant
                    i <= conditions.len(),
                    gs == crate::types::groups_model(conditions@),
                    gs.len() == conditions@.len(),
                    idx + members_weight(gs) <= index_bound(),
                    group_members(db, table@, models@, gs.subrange(0, i as int), idx as nat)
                        == Ok::<(Seq<Seq<char>>, Seq<Value>), ErrorKind>((crate::text::strings_view(clauses@), values_model(params@))),
                    params.len() <= members_weight(gs.subrange(0, i as int)),
                decreases conditions.len() - i,
            {
                proof {
                    assert(decreases_to!(conditions@ => conditions@[i as int]));
                    lemma_members_weight_prefix(gs, i as int);
                    assert(gs.subrange(0, i + 1).drop_last() =~= gs.subrange(0, i as int));
                    assert(gs[i as int] == conditions@[i as int]@);
                }
                let sub_idx: u128 = idx + params.len() as u128;
                match build_group_clause(db, table, models, &conditions[i], sub_idx) {
                    Err(e) => {
                        proof {
                            lemma_group_members_err_at(db, table@, models@, gs, idx as nat, i as int + 1, gs.len() as int);
                            assert(gs.subrange(0, gs.len() as int) =~= gs);
                        }
                        return Err(e);
                    }
                    Ok((clause, mut ps)) => {
                        proof {
                            lemma_group_weight(db, table@, models@, conditions@[i as int]@, sub_idx as nat);
                        }
                        if !clause.as_str().is_empty() {
                            let ghost old_clauses = crate::text::strings_view(clauses@);
                            let ghost old_params = values_model(params@);
                            let ghost new_params = values_model(ps@);
                            clauses.push(clause);
                            params.append(&mut ps);
                            assert(values_model(params@) =~= old_params + new_params);
                            assert(crate::text::strings_view(clauses@) =~= old_clauses.push(clauses@.last()@));
                        }
                    }
                }
                i = i + 1;
            }
            assert(gs.subrange(0, conditions.len() as int) =~= gs);
            let ghost cl = crate::text::strings_view(clauses@);
            if clauses.len() == 0 {
                Ok((String::new(), no_values()))
            } else if clauses.len() == 1 {
                let c = clauses[0].clone();
                Ok((c, params))
            } else {
                let mut sql = String::new();
                push_char(&mut sql, '(');
                let sep = if *operator == LogicalOperator::And { " AND " } else { " OR " };
                proof {
                    reveal_strlit(" AND ");
                    reveal_strlit(" OR ");
                }
                assert(sep@ == logical_word(*operator));
                let body = crate::text::join_strings(&clauses, sep);
                sql.append(body.as_str());
                push_char(&mut sql, ')');
                assert(sql@ =~= seq!['('] + join(cl, logical_word(*operator)) + seq![')']);
                Ok((sql, params))
            }
        }
    }
}


/// The clauses and parameters of a list of condition trees, empty clauses
/// included, numbering parameters from `start`.
pub open spec fn top_group_items(
    db: DatabaseType,
    table: Seq<char>,
    models: Seq<ModelView>,
    gs: Seq<Group>,
    start: nat,
) -> Result<(Seq<Seq<char>>, Seq<Value>), ErrorKind>
    decreases gs.len(),
{
    if gs.len() == 0 {
        Ok((Seq::empty(), Seq::empty()))
    } else {
        match top_group_items(db, table, models, gs.drop_last(), start) {
            Err(e) => Err(e),
            Ok((cl, ps)) => match group_clause(db, table, models, gs.last(), start + ps.len()) {
                Err(e) => Err(e),
                Ok((c, p)) => Ok((cl.push(c), ps + p)),
            },
        }
    }
}

/// A WHERE clause for a list of condition trees: their clauses joined
/// with ` AND `, and their parameters in order.
pub open spec fn groups_where_clause(
    db: DatabaseType,
    table: Seq<char>,
    models: Seq<ModelView>,
    gs: Seq<Group>,
    start: nat,
) -> Result<(Seq<char>, Seq<Value>), ErrorKind> {
    match top_group_items(db, table, models, gs, start) {
        Ok((cl, ps)) => Ok((join(cl, and_word()), ps)),
        Err(e) => Err(e),
    }
}

/// The WHERE clause of no condition trees is empty and binds nothing.
pub proof fn law_groups_where_clause_empty(db: DatabaseType, table: Seq<char>, models: Seq<ModelView>, k: nat)
    ensures
        groups_where_clause(db, table, models, Seq::empty(), k) == Ok::<(Seq<char>, Seq<Value>), ErrorKind>((Seq::empty(), Seq::empty())),
{
}

/// A group with one member, whatever its operator, gives the member's
/// clause and parameters, without parentheses, when that clause is not
/// empty; a refusal of the member refuses the group the same way.
pub proof fn law_single_member_group(
    db: DatabaseType,
    table: Seq<char>,
    models: Seq<ModelView>,
    op: LogicalOperator,
    x: Group,
    idx: nat,
)
    requires
        group_clause(db, table, models, x, idx) matches Ok((c, _)) ==> c.len() > 0,
    ensures
        group_clause(db, table, models, Group::Group { operator: op, conditions: seq![x] }, idx)
            == group_clause(db, table, models, x, idx),
{
    let xs = seq![x];
    assert(xs.drop_last() =~= Seq::<Group>::empty());
    assert(xs.last() == x);
    assert(group_members(db, table, models, Seq::<Group>::empty(), idx) == Ok::<(Seq<Seq<char>>, Seq<Value>), ErrorKind>((Seq::empty(), Seq::empty())));
    if let Ok((c, p)) = group_clause(db, table, models, x, idx) {
        assert(Seq::<Value>::empty() + p =~= p);
        assert(Seq::<Seq<char>>::empty().push(c) =~= seq![c]);
    }
}

/// A group whose members give two or more non-empty clauses gives them
/// joined with its operator (` AND ` or ` OR `) in parentheses, with the
/// members' parameters in order.
pub proof fn law_group_parenthesised(
    db: DatabaseType,
    table: Seq<char>,
    models: Seq<ModelView>,
    op: LogicalOperator,
    xs: Seq<Group>,
    idx: nat,
)
    requires
        group_members(db, table, models, xs, idx) matches Ok((cl, _)) && cl.len() >= 2,
    ensures
        group_clause(db, table, models, Group::Group { operator: op, conditions: xs }, idx) == Ok::<(Seq<char>, Seq<Value>), ErrorKind>((
            seq!['('] + join(group_members(db, table, models, xs, idx)->Ok_0.0, logical_word(op)) + seq![')'],
            group_members(db, table, models, xs, idx)->Ok_0.1,
        )),
{
}

/// The WHERE clause of a single group with one member is the WHERE
/// clause of that member alone, when its clause is not empty.
pub proof fn law_where_of_single_member_group(
    db: DatabaseType,
    table: Seq<char>,
    models: Seq<ModelView>,
    op: LogicalOperator,
    x: Group,
    k: nat,
)
    requires
        group_clause(db, table, models, x, k) matches Ok((c, _)) ==> c.len() > 0,
    ensures
        groups_where_clause(db, table, models, seq![Group::Group { operator: op, conditions: seq![x] }], k)
            == groups_where_clause(db, table, models, seq![x], k),
{
    let g = Group::Group { operator: op, conditions: seq![x] };
    law_single_member_group(db, table, models, op, x, k);
    assert(seq![g].drop_last() =~= Seq::<Group>::empty());
    assert(seq![x].drop_last() =~= Seq::<Group>::empty());
    assert(seq![g].last() == g);
    assert(seq![x].last() == x);
    assert(top_group_items(db, table, models, Seq::<Group>::empty(), k) == Ok::<(Seq<Seq<char>>, Seq<Value>), ErrorKind>((Seq::empty(), Seq::empty())));
    assert(group_clause(db, table, models, g, k) == group_clause(db, table, models, x, k));
    if let Ok((c, p)) = group_clause(db, table, models, x, k) {
        assert(Seq::<Value>::empty() + p =~= p);
        assert(Seq::<Seq<char>>::empty().push(c) =~= seq![c]);
        assert(top_group_items(db, table, models, seq![x], k) == Ok::<(Seq<Seq<char>>, Seq<Value>), ErrorKind>((seq![c], p)));
        assert(top_group_items(db, table, models, seq![g], k) == Ok::<(Seq<Seq<char>>, Seq<Value>), ErrorKind>((seq![c], p)));
    } else {
        assert(top_group_items(db, table, models, seq![x], k) is Err);
        assert(top_group_items(db, table, models, seq![g], k) == top_group_items(db, table, models, seq![x], k));
    }
}

proof fn lemma_top_group_items_err_at(
    db: DatabaseType,
    table: Seq<char>,
    models: Seq<ModelView>,
    gs: Seq<Group>,
    start: nat,
    k: int,
    n: int,
)
    requires
        0 <= k <= n <= gs.len(),
        top_group_items(db, table, models, gs.subrange(0, k), start) is Err,
    ensures
        top_group_items(db, table, models, gs.subrange(0, n), start)
            == top_group_items(db, table, models, gs.subrange(0, k), start),
    decreases n - k,
{
    if n > k {
        lemma_top_group_items_err_at(db, table, models, gs, start, k, n - 1);
        assert(gs.subrange(0, n).drop_last() =~= gs.subrange(0, n - 1));
    }
}

/// The WHERE clause of a list of condition trees with parameters numbered
/// from `start_index` (see `groups_where_clause`).
pub fn build_groups_where_clause(
    db: DatabaseType,
    table: &str,
    models: &ModelRegistry,
    groups: &[QueryConditionGroup],
    start_index: u128,
) -> (r: Result<(String, Vec<DataValue>), QuickDbError>)
    requires
        start_index + members_weight(crate::types::groups_model(groups@)) <= index_bound(),
    ensures
        clause_matches(r, groups_where_clause(db, table@, models@, crate::types::groups_model(groups@), start_index as nat)),
{
    let ghost gs = crate::types::groups_model(groups@);
    let mut sql = String::new();
    let mut params: Vec<DataValue> = Vec::new();
    let ghost mut clauses: Seq<Seq<char>> = Seq::empty();
    let mut i: usize = 0;
    assert(values_model(params@) =~= Seq::<Value>::empty());
    assert(gs.subrange(0, 0) =~= Seq::<Group>::empty());
    while i < groups.len()
        invariant
            i <= groups.len(),
            gs == crate::types::groups_model(groups@),
            gs.len() == groups@.len(),
            start_index + members_weight(gs) <= index_bound(),
            top_group_items(db, table@, models@, gs.subrange(0, i as int), start_index as nat)
                == Ok::<(Seq<Seq<char>>, Seq<Value>), ErrorKind>((clauses, values_model(params@))),
            params.len() <= members_weight(gs.subrange(0, i as int)),
            sql@ == join(clauses, and_word()),
            clauses.len() == i,
        decreases groups.len() - i,
    {
        proof {
            lemma_members_weight_prefix(gs, i as int);
            assert(gs.subrange(0, i + 1).drop_last() =~= gs.subrange(0, i as int));
            assert(gs[i as int] == groups@[i as int]@);
        }
        let idx: u128 = start_index + params.len() as u128;
        match build_group_clause(db, table, models, &groups[i], idx) {
            Err(e) => {
                proof {
                    lemma_top_group_items_err_at(db, table@, models@, gs, start_index as nat, i as int + 1, gs.len() as int);
                    assert(gs.subrange(0, gs.len() as int) =~= gs);
                }
                return Err(e);
            }
            Ok((clause, mut ps)) => {
                proof {
                    lemma_group_weight(db, table@, models@, groups@[i as int]@, idx as nat);
                }
                let ghost old_clauses = clauses;
                if i > 0 {
                    push_and_word(&mut sql);
                }
                sql.append(clause.as_str());
                let ghost old_params = values_model(params@);
                let ghost new_params = values_model(ps@);
                params.append(&mut ps);
                assert(values_model(params@) =~= old_params + new_params);
                proof {
                    clauses = clauses.push(clause@);
                }
                assert(clauses.drop_last() =~= old_clauses);
                if i == 0 {
                    assert(sql@ =~= clause@);
                }
            }
        }
        i = i + 1;
    }
    assert(gs.subrange(0, groups.len() as int) =~= gs);
    Ok((sql, params))
}


/// The kind of statement a builder makes.
#[derive(Clone, Copy, Debug, PartialEq, Eq, Structural)]
pub enum QueryType {
    Select,
    Insert,
    Update,
    Delete,
}

/// The kinds of JOIN.
#[derive(Clone, Copy, Debug, PartialEq, Eq, Structural)]
pub enum JoinType {
    Inner,
    Left,
    Right,
    Full,
}

/// A JOIN of another table on a condition.
#[derive(Debug)]
pub struct JoinClause {
    pub join_type: JoinType,
    pub table: String,
    pub on_condition: String,
}

/// An ORDER BY item.
#[derive(Debug)]
pub struct OrderClause {
    pub field: String,
    pub direction: SortDirection,
}

/// The model of a JOIN.
pub struct JoinView {
    pub join_type: JoinType,
    pub table: Seq<char>,
    pub on_condition: Seq<char>,
}

/// The model of an ORDER BY item.
pub struct OrderView {
    pub field: Seq<char>,
    pub direction: SortDirection,
}

impl View for JoinClause {
    type V = JoinView;

    open spec fn view(&self) -> JoinView {
        JoinView { join_type: self.join_type, table: self.table@, on_condition: self.on_condition@ }
    }
}

impl View for OrderClause {
    type V = OrderView;

    open spec fn view(&self) -> OrderView {
        OrderView { field: self.field@, direction: self.direction }
    }
}

/// Builds SQL statements and their parameter lists.
pub struct SqlQueryBuilder {
    query_type: QueryType,
    table: String,
    fields: Vec<String>,
    conditions: Vec<QueryCondition>,
    condition_groups: Vec<QueryConditionGroup>,
    joins: Vec<JoinClause>,
    order_by: Vec<OrderClause>,
    group_by: Vec<String>,
    having: Vec<QueryCondition>,
    limit: Option<u64>,
    offset: Option<u64>,
    values: Vec<(String, DataValue)>,
    returning_fields: Vec<String>,
    db_type: DatabaseType,
}

/// The model of a builder.
pub struct BuilderView {
    pub query_type: QueryType,
    pub table: Seq<char>,
    pub fields: Seq<Seq<char>>,
    pub conditions: Seq<Condition>,
    pub groups: Seq<Group>,
    pub joins: Seq<JoinView>,
    pub order_by: Seq<OrderView>,
    pub group_by: Seq<Seq<char>>,
    pub having: Seq<Condition>,
    pub limit: Option<u64>,
    pub offset: Option<u64>,
    pub values: Seq<(Seq<char>, Value)>,
    pub returning: Seq<Seq<char>>,
    pub db_type: DatabaseType,
}

pub open spec fn entries_model(v: Seq<(String, DataValue)>) -> Seq<(Seq<char>, Value)> {
    v.map_values(|e: (String, DataValue)| (e.0@, e.1@))
}

pub open spec fn strs_model(v: Seq<&str>) -> Seq<Seq<char>> {
    v.map_values(|s: &str| s@)
}

impl View for SqlQueryBuilder {
    type V = BuilderView;

    closed spec fn view(&self) -> BuilderView {
        BuilderView {
            query_type: self.query_type,
            table: self.table@,
            fields: crate::text::strings_view(self.fields@),
            conditions: conditions_model(self.conditions@),
            groups: crate::types::groups_model(self.condition_groups@),
            joins: self.joins@.map_values(|j: JoinClause| j@),
            order_by: self.order_by@.map_values(|o: OrderClause| o@),
            group_by: crate::text::strings_view(self.group_by@),
            having: conditions_model(self.having@),
            limit: self.limit,
            offset: self.offset,
            values: entries_model(self.values@),
            returning: crate::text::strings_view(self.returning_fields@),
            db_type: self.db_type,
        }
    }
}

/// The text of a JOIN: ` <KIND> JOIN <table> ON <condition>`.
pub open spec fn join_text(j: JoinView) -> Seq<char> {
    let kind = match j.join_type {
        JoinType::Inner => seq!['I', 'N', 'N', 'E', 'R', ' ', 'J', 'O', 'I', 'N'],
        JoinType::Left => seq!['L', 'E', 'F', 'T', ' ', 'J', 'O', 'I', 'N'],
        JoinType::Right => seq!['R', 'I', 'G', 'H', 'T', ' ', 'J', 'O', 'I', 'N'],
        JoinType::Full => seq!['F', 'U', 'L', 'L', ' ', 'O', 'U', 'T', 'E', 'R', ' ', 'J', 'O', 'I', 'N'],
    };
    seq![' '] + kind + seq![' '] + j.table + seq![' ', 'O', 'N', ' '] + j.on_condition
}

/// The texts of the JOINs, one after another.
pub open spec fn joins_text(js: Seq<JoinView>) -> Seq<char>
    decreases js.len(),
{
    if js.len() == 0 { Seq::empty() } else { joins_text(js.drop_last()) + join_text(js.last()) }
}

/// The text of an ORDER BY item: the field, then `ASC` or `DESC`.
pub open spec fn order_text(o: OrderView) -> Seq<char> {
    o.field + (if o.direction == SortDirection::Asc { seq![' ', 'A', 'S', 'C'] } else { seq![' ', 'D', 'E', 'S', 'C'] })
}

pub open spec fn comma() -> Seq<char> {
    seq![',', ' ']
}

/// The text that follows a clause keyword when the list is not empty.
pub open spec fn optional_list(keyword: Seq<char>, items: Seq<Seq<char>>) -> Seq<char> {
    if items.len() == 0 { Seq::empty() } else { keyword + join(items, comma()) }
}

/// The SELECT statement of a builder and its parameters: the fields (or
/// `*`), the table, the JOINs, a WHERE clause from the condition trees
/// when there are any and from the conditions otherwise, GROUP BY,
/// HAVING (its parameters numbered from 1 again), ORDER BY, LIMIT and
/// OFFSET. An empty table name is refused.
pub open spec fn select_statement(b: BuilderView, models: Seq<ModelView>) -> Result<(Seq<char>, Seq<Value>), ErrorKind> {
    if b.table.len() == 0 {
        Err(ErrorKind::Query)
    } else {
        let fields = if b.fields.len() == 0 { seq!['*'] } else { join(b.fields, comma()) };
        let head = "SELECT "@ + fields + " FROM "@ + b.table + joins_text(b.joins);
        let w = if b.groups.len() > 0 {
            groups_where_clause(b.db_type, b.table, models, b.groups, 1)
        } else if b.conditions.len() > 0 {
            where_clause(b.db_type, b.table, models, b.conditions, 1)
        } else {
            Ok((Seq::empty(), Seq::empty()))
        };
        match w {
            Err(e) => Err(e),
            Ok((wc, wp)) => {
                let with_where = if b.groups.len() > 0 || b.conditions.len() > 0 { head + " WHERE "@ + wc } else { head };
                let with_group = with_where + optional_list(" GROUP BY "@, b.group_by);
                let h = if b.having.len() > 0 {
                    where_clause(b.db_type, b.table, models, b.having, 1)
                } else {
                    Ok((Seq::empty(), Seq::empty()))
                };
                match h {
                    Err(e) => Err(e),
                    Ok((hc, hp)) => {
                        let with_having = if b.having.len() > 0 { with_group + " HAVING "@ + hc } else { with_group };
                        let with_order = with_having + optional_list(
                            " ORDER BY "@,
                            b.order_by.map_values(|o: OrderView| order_text(o)),
                        );
                        let with_limit = match b.limit { Some(l) => with_order + " LIMIT "@ + crate::text::decimal(l as nat), None => with_order };
                        let with_offset = match b.offset { Some(o) => with_limit + " OFFSET "@ + crate::text::decimal(o as nat), None => with_limit };
                        Ok((with_offset, wp + hp))
                    },
                }
            },
        }
    }
}


pub(crate) fn push_join_text(out: &mut String, j: &JoinClause)
    ensures
        final(out)@ == old(out)@ + join_text(j@),
{
    let ghost start = out@;
    push_char(out, ' ');
    let kind = match j.join_type {
        JoinType::Inner => "INNER JOIN",
        JoinType::Left => "LEFT JOIN",
        JoinType::Right => "RIGHT JOIN",
        JoinType::Full => "FULL OUTER JOIN",
    };
    proof {
        reveal_strlit("INNER JOIN");
        reveal_strlit("LEFT JOIN");
        reveal_strlit("RIGHT JOIN");
        reveal_strlit("FULL OUTER JOIN");
        reveal_strlit(" ON ");
    }
    out.append(kind);
    push_char(out, ' ');
    out.append(j.table.as_str());
    out.append(" ON ");
    out.append(j.on_condition.as_str());
    assert(out@ =~= start + join_text(j@));
}

pub(crate) fn push_joins(out: &mut String, joins: &Vec<JoinClause>)
    ensures
        final(out)@ == old(out)@ + joins_text(joins@.map_values(|j: JoinClause| j@)),
{
    let ghost js = joins@.map_values(|j: JoinClause| j@);
    let ghost start = out@;
    let mut i: usize = 0;
    assert(js.subrange(0, 0) =~= Seq::<JoinView>::empty());
    while i < joins.len()
        invariant
            i <= joins.len(),
            js == joins@.map_values(|j: JoinClause| j@),
            out@ == start + joins_text(js.subrange(0, i as int)),
        decreases joins.len() - i,
    {
        push_join_text(out, &joins[i]);
        assert(js.subrange(0, i + 1).drop_last() =~= js.subrange(0, i as int));
        i = i + 1;
    }
    assert(js.subrange(0, joins.len() as int) =~= js);
}

pub(crate) fn push_optional_list(out: &mut String, keyword: &str, items: &Vec<String>)
    ensures
        final(out)@ == old(out)@ + optional_list(keyword@, crate::text::strings_view(items@)),
{
    if items.len() > 0 {
        let ghost start = out@;
        out.append(keyword);
        proof { reveal_strlit(", "); }
        assert(", "@ =~= comma());
        let body = crate::text::join_strings(items, ", ");
        out.append(body.as_str());
        assert(out@ =~= start + optional_list(keyword@, crate::text::strings_view(items@)));
    } else {
        assert(crate::text::strings_view(items@).len() == 0);
        assert(out@ =~= old(out)@ + optional_list(keyword@, crate::text::strings_view(items@)));
    }
}

pub(crate) fn order_texts(order_by: &Vec<OrderClause>) -> (r: Vec<String>)
    ensures
        crate::text::strings_view(r@) == order_by@.map_values(|o: OrderClause| o@).map_values(|o: OrderView| order_text(o)),
{
    let mut r: Vec<String> = Vec::new();
    let mut i: usize = 0;
    while i < order_by.len()
        invariant
            i <= order_by.len(),
            r@.len() == i,
            forall|k: int| 0 <= k < i ==> #[trigger] r@[k]@ == order_text(order_by@[k]@),
        decreases order_by.len() - i,
    {
        proof {
            reveal_strlit(" ASC");
            reveal_strlit(" DESC");
        }
        let mut t = order_by[i].field.clone();
        if order_by[i].direction == SortDirection::Asc {
            t.append(" ASC");
        } else {
            t.append(" DESC");
        }
        assert(t@ =~= order_text(order_by@[i as int]@));
        r.push(t);
        i = i + 1;
    }
    assert(crate::text::strings_view(r@) =~= order_by@.map_values(|o: OrderClause| o@).map_values(|o: OrderView| order_text(o)));
    r
}

pub(crate) fn append_values(params: &mut Vec<DataValue>, more: Vec<DataValue>)
    ensures
        values_model(final(params)@) == values_model(old(params)@) + values_model(more@),
{
    let mut more = more;
    let ghost a = values_model(params@);
    let ghost b = values_model(more@);
    params.append(&mut more);
    assert(values_model(params@) =~= a + b);
}

impl SqlQueryBuilder {
    /// The SELECT statement and its parameters (see `select_statement`).
    fn build_select(&self, models: &ModelRegistry) -> (r: Result<(String, Vec<DataValue>), QuickDbError>)
        requires
            members_weight(self@.groups) < 0x1_0000_0000_0000_0000,
        ensures
            clause_matches(r, select_statement(self@, models@)),
    {
        if self.table.as_str().is_empty() {
            return Err(query_error("表名不能为空"));
        }
        let ghost b = self@;
        let mut sql = String::new();
        sql.append("SELECT ");
        if self.fields.len() == 0 {
            push_char(&mut sql, '*');
        } else {
            proof { reveal_strlit(", "); }
            assert(", "@ =~= comma());
            let f = crate::text::join_strings(&self.fields, ", ");
            sql.append(f.as_str());
        }
        sql.append(" FROM ");
        sql.append(self.table.as_str());
        push_joins(&mut sql, &self.joins);
        let ghost fields_text = if b.fields.len() == 0 { seq!['*'] } else { join(b.fields, comma()) };
        assert(sql@ =~= "SELECT "@ + fields_text + " FROM "@ + b.table + joins_text(b.joins));
        let mut params: Vec<DataValue> = Vec::new();
        if self.condition_groups.len() > 0 {
            match build_groups_where_clause(self.db_type, self.table.as_str(), models, self.condition_groups.as_slice(), 1) {
                Err(e) => return Err(e),
                Ok((w, wp)) => {
                    sql.append(" WHERE ");
                    sql.append(w.as_str());
                    params = wp;
                }
            }
        } else if self.conditions.len() > 0 {
            match build_where_clause_for(self.db_type, self.table.as_str(), models, self.conditions.as_slice(), 1) {
                Err(e) => return Err(e),
                Ok((w, wp)) => {
                    sql.append(" WHERE ");
                    sql.append(w.as_str());
                    params = wp;
                }
            }
        } else {
            assert(values_model(params@) =~= Seq::<Value>::empty());
        }
        push_optional_list(&mut sql, " GROUP BY ", &self.group_by);
        if self.having.len() > 0 {
            match build_where_clause_for(self.db_type, self.table.as_str(), models, self.having.as_slice(), 1) {
                Err(e) => return Err(e),
                Ok((h, hp)) => {
                    sql.append(" HAVING ");
                    sql.append(h.as_str());
                    append_values(&mut params, hp);
                }
            }
        } else {
            assert(values_model(params@) =~= values_model(params@) + Seq::<Value>::empty());
        }
        let orders = order_texts(&self.order_by);
        push_optional_list(&mut sql, " ORDER BY ", &orders);
        match self.limit {
            Some(l) => {
                sql.append(" LIMIT ");
                crate::text::push_decimal(&mut sql, l);
            }
            None => {}
        }
        match self.offset {
            Some(o) => {
                sql.append(" OFFSET ");
                crate::text::push_decimal(&mut sql, o);
            }
            None => {}
        }
        Ok((sql, params))
    }
}


/// The entries whose value is not null, in order.
pub open spec fn non_null_entries(vs: Seq<(Seq<char>, Value)>) -> Seq<(Seq<char>, Value)>
    decreases vs.len(),
{
    if vs.len() == 0 {
        Seq::empty()
    } else if vs.last().1 is Null {
        non_null_entries(vs.drop_last())
    } else {
        non_null_entries(vs.drop_last()).push(vs.last())
    }
}

/// ` RETURNING <fields>` when there are returning fields.
pub open spec fn returning_text(b: BuilderView) -> Seq<char> {
    optional_list(" RETURNING "@, b.returning)
}

/// The INSERT statement of a builder and its parameters: the non-null
/// values become the columns and parameters, in order. An empty table
/// name, no values, and only null values are refused.
pub open spec fn insert_statement(b: BuilderView) -> Result<(Seq<char>, Seq<Value>), ErrorKind> {
    let nn = non_null_entries(b.values);
    if b.table.len() == 0 || b.values.len() == 0 || nn.len() == 0 {
        Err(ErrorKind::Query)
    } else {
        Ok((
            "INSERT INTO "@ + b.table + " ("@ + join(nn.map_values(|e: (Seq<char>, Value)| e.0), comma())
                + ") VALUES ("@ + join(placeholders(b.db_type, 1, nn.len()), comma()) + ")"@ + returning_text(b),
            nn.map_values(|e: (Seq<char>, Value)| e.1),
        ))
    }
}

/// The SET items of an UPDATE: `column = placeholder`, numbered from 1.
pub open spec fn set_items(db: DatabaseType, nn: Seq<(Seq<char>, Value)>) -> Seq<Seq<char>> {
    Seq::new(nn.len(), |k: int| nn[k].0 + " = "@ + placeholder(db, (1 + k) as nat))
}

/// The UPDATE statement of a builder and its parameters: the non-null
/// values are set, then the WHERE clause follows, from the condition
/// trees when there are any and from the conditions otherwise, with its
/// parameters numbered after theirs. An empty table name, no values, and
/// only null values are refused.
pub open spec fn update_statement(b: BuilderView, models: Seq<ModelView>) -> Result<(Seq<char>, Seq<Value>), ErrorKind> {
    let nn = non_null_entries(b.values);
    if b.table.len() == 0 || b.values.len() == 0 || nn.len() == 0 {
        Err(ErrorKind::Query)
    } else {
        let head = "UPDATE "@ + b.table + " SET "@ + join(set_items(b.db_type, nn), comma());
        let w = if b.groups.len() > 0 {
            groups_where_clause(b.db_type, b.table, models, b.groups, 1 + nn.len())
        } else if b.conditions.len() > 0 {
            where_clause(b.db_type, b.table, models, b.conditions, 1 + nn.len())
        } else {
            Ok((Seq::empty(), Seq::empty()))
        };
        match w {
            Err(e) => Err(e),
            Ok((wc, wp)) => Ok((
                (if b.groups.len() > 0 || b.conditions.len() > 0 { head + " WHERE "@ + wc } else { head }) + returning_text(b),
                nn.map_values(|e: (Seq<char>, Value)| e.1) + wp,
            )),
        }
    }
}

/// The DELETE statement of a builder and its parameters: a WHERE clause
/// from the condition trees when there are any and from the conditions
/// otherwise. An empty table name is refused.
pub open spec fn delete_statement(b: BuilderView, models: Seq<ModelView>) -> Result<(Seq<char>, Seq<Value>), ErrorKind> {
    if b.table.len() == 0 {
        Err(ErrorKind::Query)
    } else {
        let head = "DELETE FROM "@ + b.table;
        let w = if b.groups.len() > 0 {
            groups_where_clause(b.db_type, b.table, models, b.groups, 1)
        } else if b.conditions.len() > 0 {
            where_clause(b.db_type, b.table, models, b.conditions, 1)
        } else {
            Ok((Seq::empty(), Seq::empty()))
        };
        match w {
            Err(e) => Err(e),
            Ok((wc, wp)) => Ok((
                (if b.groups.len() > 0 || b.conditions.len() > 0 { head + " WHERE "@ + wc } else { head }) + returning_text(b),
                wp,
            )),
        }
    }
}

/// The statement a builder makes, by its query type.
pub open spec fn statement(b: BuilderView, models: Seq<ModelView>) -> Result<(Seq<char>, Seq<Value>), ErrorKind> {
    match b.query_type {
        QueryType::Select => select_statement(b, models),
        QueryType::Insert => insert_statement(b),
        QueryType::Update => update_statement(b, models),
        QueryType::Delete => delete_statement(b, models),
    }
}

/// The columns and values of the non-null entries.
pub(crate) fn split_non_null(values: &Vec<(String, DataValue)>) -> (r: (Vec<String>, Vec<DataValue>))
    ensures
        crate::text::strings_view(r.0@) == non_null_entries(entries_model(values@)).map_values(|e: (Seq<char>, Value)| e.0),
        values_model(r.1@) == non_null_entries(entries_model(values@)).map_values(|e: (Seq<char>, Value)| e.1),
{
    let ghost es = entries_model(values@);
    let mut cols: Vec<String> = Vec::new();
    let mut vals: Vec<DataValue> = Vec::new();
    let mut i: usize = 0;
    assert(es.subrange(0, 0) =~= Seq::<(Seq<char>, Value)>::empty());
    assert(crate::text::strings_view(cols@) =~= Seq::<Seq<char>>::empty());
    assert(values_model(vals@) =~= Seq::<Value>::empty());
    while i < values.len()
        invariant
            i <= values.len(),
            es == entries_model(values@),
            es.len() == values@.len(),
            crate::text::strings_view(cols@) == non_null_entries(es.subrange(0, i as int)).map_values(|e: (Seq<char>, Value)| e.0),
            values_model(vals@) == non_null_entries(es.subrange(0, i as int)).map_values(|e: (Seq<char>, Value)| e.1),
        decreases values.len() - i,
    {
        assert(es.subrange(0, i + 1).drop_last() =~= es.subrange(0, i as int));
        assert(es.subrange(0, i + 1).last() == es[i as int]);
        let ghost prev = non_null_entries(es.subrange(0, i as int));
        match &values[i].1 {
            DataValue::Null => {}
            v => {
                let ghost c0 = crate::text::strings_view(cols@);
                let ghost v0 = values_model(vals@);
                cols.push(values[i].0.clone());
                vals.push(v.duplicate());
                assert(crate::text::strings_view(cols@) =~= c0.push(values@[i as int].0@));
                assert(values_model(vals@) =~= v0.push(values@[i as int].1@));
                assert(prev.push(es[i as int]).map_values(|e: (Seq<char>, Value)| e.0) =~= prev.map_values(|e: (Seq<char>, Value)| e.0).push(es[i as int].0));
                assert(prev.push(es[i as int]).map_values(|e: (Seq<char>, Value)| e.1) =~= prev.map_values(|e: (Seq<char>, Value)| e.1).push(es[i as int].1));
            }
        }
        i = i + 1;
    }
    assert(es.subrange(0, values.len() as int) =~= es);
    (cols, vals)
}

pub(crate) fn push_returning(out: &mut String, fields: &Vec<String>)
    ensures
        final(out)@ == old(out)@ + optional_list(" RETURNING "@, crate::text::strings_view(fields@)),
{
    push_optional_list(out, " RETURNING ", fields);
}

impl SqlQueryBuilder {
    /// The INSERT statement and its parameters (see `insert_statement`).
    fn build_insert(&self) -> (r: Result<(String, Vec<DataValue>), QuickDbError>)
        ensures
            clause_matches(r, insert_statement(self@)),
    {
        let ghost b = self@;
        if self.table.as_str().is_empty() {
            return Err(query_error("表名不能为空"));
        }
        if self.values.len() == 0 {
            return Err(query_error("插入值不能为空"));
        }
        let (cols, params) = split_non_null(&self.values);
        if cols.len() == 0 {
            return Err(query_error("所有插入值都是 NULL，无法插入"));
        }
        let ghost nn = non_null_entries(b.values);
        proof { reveal_strlit(", "); }
        assert(", "@ =~= comma());
        let mut sql = String::new();
        sql.append("INSERT INTO ");
        sql.append(self.table.as_str());
        sql.append(" (");
        let c = crate::text::join_strings(&cols, ", ");
        sql.append(c.as_str());
        sql.append(") VALUES (");
        crate::sql::push_placeholder_list(&mut sql, self.db_type, 1, cols.len());
        sql.append(")");
        push_returning(&mut sql, &self.returning_fields);
        Ok((sql, params))
    }

    /// The DELETE statement and its parameters (see `delete_statement`).
    fn build_delete(&self, models: &ModelRegistry) -> (r: Result<(String, Vec<DataValue>), QuickDbError>)
        requires
            members_weight(self@.groups) < 0x1_0000_0000_0000_0000,
        ensures
            clause_matches(r, delete_statement(self@, models@)),
    {
        if self.table.as_str().is_empty() {
            return Err(query_error("表名不能为空"));
        }
        let mut sql = String::new();
        sql.append("DELETE FROM ");
        sql.append(self.table.as_str());
        let mut params: Vec<DataValue> = Vec::new();
        assert(values_model(params@) =~= Seq::<Value>::empty());
        if self.condition_groups.len() > 0 {
            match build_groups_where_clause(self.db_type, self.table.as_str(), models, self.condition_groups.as_slice(), 1) {
                Err(e) => return Err(e),
                Ok((w, wp)) => {
                    sql.append(" WHERE ");
                    sql.append(w.as_str());
                    params = wp;
                }
            }
        } else if self.conditions.len() > 0 {
            match build_where_clause_for(self.db_type, self.table.as_str(), models, self.conditions.as_slice(), 1) {
                Err(e) => return Err(e),
                Ok((w, wp)) => {
                    sql.append(" WHERE ");
                    sql.append(w.as_str());
                    params = wp;
                }
            }
        }
        push_returning(&mut sql, &self.returning_fields);
        Ok((sql, params))
    }

    /// The UPDATE statement and its parameters (see `update_statement`).
    fn build_update(&self, models: &ModelRegistry) -> (r: Result<(String, Vec<DataValue>), QuickDbError>)
        requires
            members_weight(self@.groups) < 0x1_0000_0000_0000_0000,
        ensures
            clause_matches(r, update_statement(self@, models@)),
    {
        let ghost b = self@;
        if self.table.as_str().is_empty() {
            return Err(query_error("表名不能为空"));
        }
        if self.values.len() == 0 {
            return Err(query_error("更新值不能为空"));
        }
        let (cols, mut params) = split_non_null(&self.values);
        assert(crate::text::strings_view(cols@).len() == cols@.len());
        assert(values_model(params@).len() == params@.len());
        if cols.len() == 0 {
            return Err(query_error("所有更新值都是 NULL，无法更新"));
        }
        let ghost nn = non_null_entries(b.values);
        let ghost items = set_items(self.db_type, nn);
        let mut set_parts: Vec<String> = Vec::new();
        let mut k: usize = 0;
        proof { reveal_strlit(" = "); }
        while k < cols.len()
            invariant
                k <= cols.len(),
                nn == non_null_entries(b.values),
                items == set_items(self.db_type, nn),
                crate::text::strings_view(cols@) == nn.map_values(|e: (Seq<char>, Value)| e.0),
                cols@.len() == nn.len(),
                set_parts@.len() == k,
                forall|j: int| 0 <= j < k ==> #[trigger] set_parts@[j]@ == items[j],
            decreases cols.len() - k,
        {
            proof { reveal_strlit(" = "); }
            let mut t = cols[k].clone();
            t.append(" = ");
            crate::sql::push_placeholder(&mut t, self.db_type, 1 + k as u128);
            assert(crate::text::strings_view(cols@)[k as int] == cols@[k as int]@);
            assert(nn.map_values(|e: (Seq<char>, Value)| e.0)[k as int] == nn[k as int].0);
            assert(cols@[k as int]@ == nn[k as int].0);
            assert(t@ =~= items[k as int]);
            set_parts.push(t);
            k = k + 1;
        }
        assert(crate::text::strings_view(set_parts@) =~= items);
        proof { reveal_strlit(", "); }
        assert(", "@ =~= comma());
        let mut sql = String::new();
        sql.append("UPDATE ");
        sql.append(self.table.as_str());
        sql.append(" SET ");
        let s = crate::text::join_strings(&set_parts, ", ");
        sql.append(s.as_str());
        if self.condition_groups.len() > 0 {
            let start: u128 = 1 + params.len() as u128;
            match build_groups_where_clause(self.db_type, self.table.as_str(), models, self.condition_groups.as_slice(), start) {
                Err(e) => return Err(e),
                Ok((w, wp)) => {
                    sql.append(" WHERE ");
                    sql.append(w.as_str());
                    append_values(&mut params, wp);
                }
            }
        } else if self.conditions.len() > 0 {
            let start: u128 = 1 + params.len() as u128;
            match build_where_clause_for(self.db_type, self.table.as_str(), models, self.conditions.as_slice(), start) {
                Err(e) => return Err(e),
                Ok((w, wp)) => {
                    sql.append(" WHERE ");
                    sql.append(w.as_str());
                    append_values(&mut params, wp);
                }
            }
        } else {
            assert(values_model(params@) =~= values_model(params@) + Seq::<Value>::empty());
        }
        push_returning(&mut sql, &self.returning_fields);
        Ok((sql, params))
    }
}


pub(crate) fn strs_to_strings(fields: &[&str]) -> (r: Vec<String>)
    ensures
        crate::text::strings_view(r@) == strs_model(fields@),
{
    let mut r: Vec<String> = Vec::new();
    let mut i: usize = 0;
    while i < fields.len()
        invariant
            i <= fields.len(),
            r@.len() == i,
            forall|k: int| 0 <= k < i ==> #[trigger] r@[k]@ == fields@[k]@,
        decreases fields.len() - i,
    {
        r.push(fields[i].to_owned());
        i = i + 1;
    }
    assert(crate::text::strings_view(r@) =~= strs_model(fields@));
    r
}

impl SqlQueryBuilder {
    /// An empty SELECT builder for SQLite.
    pub fn new() -> (b: Self)
        ensures
            b@ == (BuilderView {
                query_type: QueryType::Select,
                table: Seq::empty(),
                fields: Seq::empty(),
                conditions: Seq::empty(),
                groups: Seq::empty(),
                joins: Seq::empty(),
                order_by: Seq::empty(),
                group_by: Seq::empty(),
                having: Seq::empty(),
                limit: None,
                offset: None,
                values: Seq::empty(),
                returning: Seq::empty(),
                db_type: DatabaseType::SQLite,
            }),
    {
        let b = SqlQueryBuilder {
            query_type: QueryType::Select,
            table: String::new(),
            fields: Vec::new(),
            conditions: Vec::new(),
            condition_groups: Vec::new(),
            joins: Vec::new(),
            order_by: Vec::new(),
            group_by: Vec::new(),
            having: Vec::new(),
            limit: None,
            offset: None,
            values: Vec::new(),
            returning_fields: Vec::new(),
            db_type: DatabaseType::SQLite,
        };
        assert(crate::text::strings_view(b.fields@) =~= Seq::<Seq<char>>::empty());
        assert(crate::text::strings_view(b.group_by@) =~= Seq::<Seq<char>>::empty());
        assert(crate::text::strings_view(b.returning_fields@) =~= Seq::<Seq<char>>::empty());
        assert(conditions_model(b.conditions@) =~= Seq::<Condition>::empty());
        assert(conditions_model(b.having@) =~= Seq::<Condition>::empty());
        assert(crate::types::groups_model(b.condition_groups@) =~= Seq::<Group>::empty());
        assert(b.joins@.map_values(|j: JoinClause| j@) =~= Seq::<JoinView>::empty());
        assert(b.order_by@.map_values(|o: OrderClause| o@) =~= Seq::<OrderView>::empty());
        assert(entries_model(b.values@) =~= Seq::<(Seq<char>, Value)>::empty());
        b
    }

    /// Sets the database type, which decides the placeholders.
    pub fn database_type(self, db_type: DatabaseType) -> (r: Self)
        ensures
            r@ == (BuilderView { db_type, ..self@ }),
    {
        let mut b = self;
        b.db_type = db_type;
        b
    }

    /// Makes a SELECT of the given fields (all fields when empty).
    pub fn select(self, fields: &[&str]) -> (r: Self)
        ensures
            r@ == (BuilderView { query_type: QueryType::Select, fields: strs_model(fields@), ..self@ }),
    {
        let mut b = self;
        b.query_type = QueryType::Select;
        b.fields = strs_to_strings(fields);
        b
    }

    /// Makes an INSERT of the given column values. The values are kept as
    /// given, in order: each entry becomes a column of the statement, so a
    /// key given twice is written twice (a caller holding a map passes
    /// each key once).
    pub fn insert(self, values: Vec<(String, DataValue)>) -> (r: Self)
        ensures
            r@ == (BuilderView { query_type: QueryType::Insert, values: entries_model(values@), ..self@ }),
    {
        let mut b = self;
        b.query_type = QueryType::Insert;
        b.values = values;
        b
    }

    /// Makes an UPDATE that sets the given column values. The values are
    /// kept as given, in order: each entry becomes a `SET` item, so a key
    /// given twice is set twice (a caller holding a map passes each key
    /// once).
    pub fn update(self, values: Vec<(String, DataValue)>) -> (r: Self)
        ensures
            r@ == (BuilderView { query_type: QueryType::Update, values: entries_model(values@), ..self@ }),
    {
        let mut b = self;
        b.query_type = QueryType::Update;
        b.values = values;
        b
    }

    /// Makes a DELETE.
    pub fn delete(self) -> (r: Self)
        ensures
            r@ == (BuilderView { query_type: QueryType::Delete, ..self@ }),
    {
        let mut b = self;
        b.query_type = QueryType::Delete;
        b
    }

    /// Sets the table.
    pub fn from(self, table: &str) -> (r: Self)
        ensures
            r@ == (BuilderView { table: table@, ..self@ }),
    {
        let mut b = self;
        b.table = table.to_owned();
        b
    }

    /// Adds a WHERE condition.
    pub fn where_condition(self, condition: QueryCondition) -> (r: Self)
        ensures
            r@ == (BuilderView { conditions: self@.conditions.push(condition@), ..self@ }),
    {
        let mut b = self;
        let ghost before = conditions_model(b.conditions@);
        b.conditions.push(condition);
        assert(conditions_model(b.conditions@) =~= before.push(condition@));
        b
    }

    /// Adds WHERE conditions.
    pub fn where_conditions(self, conditions: &[QueryCondition]) -> (r: Self)
        ensures
            r@ == (BuilderView { conditions: self@.conditions + conditions_model(conditions@), ..self@ }),
    {
        let mut b = self;
        let ghost before = conditions_model(b.conditions@);
        let mut i: usize = 0;
        while i < conditions.len()
            invariant
                i <= conditions.len(),
                conditions_model(b.conditions@) == before + conditions_model(conditions@).subrange(0, i as int),
                b@ == (BuilderView { conditions: before + conditions_model(conditions@).subrange(0, i as int), ..self@ }),
            decreases conditions.len() - i,
        {
            let ghost prev = conditions_model(b.conditions@);
            b.conditions.push(conditions[i].duplicate());
            assert(conditions_model(b.conditions@) =~= prev.push(conditions@[i as int]@));
            assert(conditions_model(conditions@).subrange(0, i + 1) =~= conditions_model(conditions@).subrange(0, i as int).push(conditions@[i as int]@));
            i = i + 1;
        }
        assert(conditions_model(conditions@).subrange(0, conditions.len() as int) =~= conditions_model(conditions@));
        b
    }

    /// Adds condition trees; they take the place of the plain conditions,
    /// which are cleared.
    pub fn where_condition_groups(self, groups: &[QueryConditionGroup]) -> (r: Self)
        ensures
            r@ == (BuilderView {
                groups: self@.groups + crate::types::groups_model(groups@),
                conditions: Seq::empty(),
                ..self@
            }),
    {
        let mut b = self;
        let ghost before = crate::types::groups_model(b.condition_groups@);
        let ghost gm = crate::types::groups_model(groups@);
        let mut i: usize = 0;
        while i < groups.len()
            invariant
                i <= groups.len(),
                gm == crate::types::groups_model(groups@),
                b@ == (BuilderView { groups: before + gm.subrange(0, i as int), ..self@ }),
            decreases groups.len() - i,
        {
            let ghost prev = crate::types::groups_model(b.condition_groups@);
            b.condition_groups.push(groups[i].duplicate());
            assert(crate::types::groups_model(b.condition_groups@) =~= prev.push(groups@[i as int]@));
            assert(gm.subrange(0, i + 1) =~= gm.subrange(0, i as int).push(groups@[i as int]@));
            i = i + 1;
        }
        assert(gm.subrange(0, groups.len() as int) =~= gm);
        b.conditions.clear();
        assert(conditions_model(b.conditions@) =~= Seq::<Condition>::empty());
        b
    }

    /// Adds a JOIN.
    pub fn join(self, join_type: JoinType, table: &str, on_condition: &str) -> (r: Self)
        ensures
            r@ == (BuilderView {
                joins: self@.joins.push(JoinView { join_type, table: table@, on_condition: on_condition@ }),
                ..self@
            }),
    {
        let mut b = self;
        let ghost before = b.joins@.map_values(|j: JoinClause| j@);
        b.joins.push(JoinClause { join_type, table: table.to_owned(), on_condition: on_condition.to_owned() });
        assert(b.joins@.map_values(|j: JoinClause| j@) =~= before.push(JoinView { join_type, table: table@, on_condition: on_condition@ }));
        b
    }

    /// Adds an ORDER BY item.
    pub fn order_by(self, field: &str, direction: SortDirection) -> (r: Self)
        ensures
            r@ == (BuilderView { order_by: self@.order_by.push(OrderView { field: field@, direction }), ..self@ }),
    {
        let mut b = self;
        let ghost before = b.order_by@.map_values(|o: OrderClause| o@);
        b.order_by.push(OrderClause { field: field.to_owned(), direction });
        assert(b.order_by@.map_values(|o: OrderClause| o@) =~= before.push(OrderView { field: field@, direction }));
        b
    }

    /// Sets the GROUP BY fields.
    pub fn group_by(self, fields: &[&str]) -> (r: Self)
        ensures
            r@ == (BuilderView { group_by: strs_model(fields@), ..self@ }),
    {
        let mut b = self;
        b.group_by = strs_to_strings(fields);
        b
    }

    /// Adds a HAVING condition.
    pub fn having(self, condition: QueryCondition) -> (r: Self)
        ensures
            r@ == (BuilderView { having: self@.having.push(condition@), ..self@ }),
    {
        let mut b = self;
        let ghost before = conditions_model(b.having@);
        b.having.push(condition);
        assert(conditions_model(b.having@) =~= before.push(condition@));
        b
    }

    /// Sets the LIMIT.
    pub fn limit(self, limit: u64) -> (r: Self)
        ensures
            r@ == (BuilderView { limit: Some(limit), ..self@ }),
    {
        let mut b = self;
        b.limit = Some(limit);
        b
    }

    /// Sets the OFFSET.
    pub fn offset(self, offset: u64) -> (r: Self)
        ensures
            r@ == (BuilderView { offset: Some(offset), ..self@ }),
    {
        let mut b = self;
        b.offset = Some(offset);
        b
    }

    /// Sets the RETURNING fields.
    pub fn returning(self, fields: &[&str]) -> (r: Self)
        ensures
            r@ == (BuilderView { returning: strs_model(fields@), ..self@ }),
    {
        let mut b = self;
        b.returning_fields = strs_to_strings(fields);
        b
    }

    /// The statement and its parameters (see `statement`). `models` holds
    /// the registered field kinds that Contains on PostgreSQL consults.
    pub fn build(&self, models: &ModelRegistry) -> (r: Result<(String, Vec<DataValue>), QuickDbError>)
        requires
            members_weight(self@.groups) < 0x1_0000_0000_0000_0000,
        ensures
            clause_matches(r, statement(self@, models@)),
    {
        match self.query_type {
            QueryType::Select => self.build_select(models),
            QueryType::Insert => self.build_insert(),
            QueryType::Update => self.build_update(models),
            QueryType::Delete => self.build_delete(models),
        }
    }

    /// The WHERE clause of condition trees, parameters numbered from 1
    /// (see `groups_where_clause`).
    pub fn build_where_clause_from_groups(&self, groups: &[QueryConditionGroup], models: &ModelRegistry)
        -> (r: Result<(String, Vec<DataValue>), QuickDbError>)
        requires
            members_weight(crate::types::groups_model(groups@)) < 0x1_0000_0000_0000_0000,
        ensures
            clause_matches(r, groups_where_clause(self@.db_type, self@.table, models@, crate::types::groups_model(groups@), 1)),
    {
        build_groups_where_clause(self.db_type, self.table.as_str(), models, groups, 1)
    }
}

/// The entries that `non_null_entries` keeps hold no null value.
pub proof fn lemma_non_null_entries_hold_no_null(vs: Seq<(Seq<char>, Value)>)
    ensures
        forall|i: int| 0 <= i < non_null_entries(vs).len() ==> !((#[trigger] non_null_entries(vs)[i]).1 is Null),
        non_null_entries(vs).len() <= vs.len(),
    decreases vs.len(),
{
    if vs.len() > 0 {
        lemma_non_null_entries_hold_no_null(vs.drop_last());
        let nn = non_null_entries(vs);
        let pn = non_null_entries(vs.drop_last());
        assert forall|i: int| 0 <= i < nn.len() implies !((#[trigger] nn[i]).1 is Null) by {
            if i < pn.len() {
                assert(nn[i] == pn[i]);
            }
        }
    }
}

/// An INSERT binds no null value, and an UPDATE sets no column to null:
/// null values are left out.
pub proof fn law_writes_bind_no_null(b: BuilderView, models: Seq<ModelView>)
    ensures
        insert_statement(b) matches Ok((s, ps)) ==> forall|i: int| 0 <= i < ps.len() ==> !((#[trigger] ps[i]) is Null),
        update_statement(b, models) matches Ok((s, ps)) ==> {
            &&& non_null_entries(b.values).len() <= ps.len()
            &&& forall|i: int| 0 <= i < non_null_entries(b.values).len() ==> !((#[trigger] ps[i]) is Null)
        },
{
    lemma_non_null_entries_hold_no_null(b.values);
    let nn = non_null_entries(b.values);
    let vals = nn.map_values(|e: (Seq<char>, Value)| e.1);
    assert forall|i: int| 0 <= i < vals.len() implies !((#[trigger] vals[i]) is Null) by {
        assert(!(nn[i].1 is Null));
    }
    if let Ok((s, ps)) = update_statement(b, models) {
        assert forall|i: int| 0 <= i < nn.len() implies !((#[trigger] ps[i]) is Null) by {
            assert(ps[i] == vals[i]);
        }
    }
}

/// The SQL symbol of a plain comparison operator: `=`, `!=`, `>`, `>=`,
/// `<`, `<=`.
pub open spec fn sql_comparison_symbol(op: QueryOperator) -> Option<Seq<char>> {
    match op {
        QueryOperator::Eq => Some(seq!['=']),
        QueryOperator::Ne => Some(seq!['!', '=']),
        QueryOperator::Gt => Some(seq!['>']),
        QueryOperator::Gte => Some(seq!['>', '=']),
        QueryOperator::Lt => Some(seq!['<']),
        QueryOperator::Lte => Some(seq!['<', '=']),
        _ => None,
    }
}

/// Different comparison operators have different symbols.
pub proof fn law_comparison_symbols_distinct(a: QueryOperator, b: QueryOperator)
    requires
        sql_comparison_symbol(a) is Some,
        sql_comparison_symbol(b) is Some,
        a != b,
    ensures
        sql_comparison_symbol(a) != sql_comparison_symbol(b),
{
    let x = sql_comparison_symbol(a)->0;
    let y = sql_comparison_symbol(b)->0;
    if x.len() == y.len() {
        assert(x[0] != y[0] || x[x.len() - 1] != y[y.len() - 1]);
    }
}

/// A condition on a safe field name `f` whose parameter is number `idx`:
/// a comparison is `f <symbol> placeholder` binding the value as it is;
/// StartsWith, EndsWith and (outside PostgreSQL) Contains are `f LIKE
/// placeholder` binding `s%`, `%s` and `%s%` for a string `s`; IsNull is
/// `f IS NULL`; IN and NOT IN on an array list one placeholder per item
/// and bind the items.
pub proof fn law_sql_condition_clauses(db: DatabaseType, table: Seq<char>, models: Seq<ModelView>, c: Condition, idx: nat)
    requires
        safe_identifier(c.field),
    ensures
        sql_comparison_symbol(c.operator) matches Some(sym) ==> condition_clause(db, table, models, c, idx)
            == Ok::<(Seq<char>, Seq<Value>), ErrorKind>((c.field + seq![' '] + sym + seq![' '] + placeholder(db, idx), seq![c.value])),
        c.operator == QueryOperator::StartsWith && c.value is Str ==> condition_clause(db, table, models, c, idx)
            == Ok::<(Seq<char>, Seq<Value>), ErrorKind>((
                c.field + seq![' ', 'L', 'I', 'K', 'E', ' '] + placeholder(db, idx),
                seq![Value::Str(c.value->Str_0 + seq!['%'])],
            )),
        c.operator == QueryOperator::EndsWith && c.value is Str ==> condition_clause(db, table, models, c, idx)
            == Ok::<(Seq<char>, Seq<Value>), ErrorKind>((
                c.field + seq![' ', 'L', 'I', 'K', 'E', ' '] + placeholder(db, idx),
                seq![Value::Str(seq!['%'] + c.value->Str_0)],
            )),
        c.operator == QueryOperator::Contains && c.value is Str && db != DatabaseType::PostgreSQL
            ==> condition_clause(db, table, models, c, idx) == Ok::<(Seq<char>, Seq<Value>), ErrorKind>((
                c.field + seq![' ', 'L', 'I', 'K', 'E', ' '] + placeholder(db, idx),
                seq![Value::Str(seq!['%'] + c.value->Str_0 + seq!['%'])],
            )),
        c.operator == QueryOperator::IsNull ==> condition_clause(db, table, models, c, idx)
            == Ok::<(Seq<char>, Seq<Value>), ErrorKind>((c.field + seq![' ', 'I', 'S', ' ', 'N', 'U', 'L', 'L'], Seq::empty())),
        c.operator == QueryOperator::In && c.value is Array ==> condition_clause(db, table, models, c, idx)
            == Ok::<(Seq<char>, Seq<Value>), ErrorKind>((
                c.field + seq![' ', 'I', 'N', ' ', '('] + join(placeholders(db, idx, c.value->Array_0.len()), seq![',', ' ']) + seq![')'],
                c.value->Array_0,
            )),
        c.operator == QueryOperator::NotIn && c.value is Array ==> condition_clause(db, table, models, c, idx)
            == Ok::<(Seq<char>, Seq<Value>), ErrorKind>((
                c.field + seq![' ', 'N', 'O', 'T', ' ', 'I', 'N', ' ', '('] + join(placeholders(db, idx, c.value->Array_0.len()), seq![',', ' '])
                    + seq![')'],
                c.value->Array_0,
            )),
{
    if let Value::Str(t) = c.value {
        assert(seq!['%'] + t + Seq::<char>::empty() =~= seq!['%'] + t);
        assert(Seq::<char>::empty() + t + seq!['%'] =~= t + seq!['%']);
    }
    if sql_comparison_symbol(c.operator) is Some {
        let sym = sql_comparison_symbol(c.operator)->0;
        assert(comparison_word(c.operator) =~= seq![' '] + sym + seq![' ']);
        assert(is_comparison(c.operator));
        assert(c.field + comparison_word(c.operator) + placeholder(db, idx)
            =~= c.field + seq![' '] + sym + seq![' '] + placeholder(db, idx));
    }
}

/// A group of two or more members with non-empty clauses joins them with
/// ` AND ` for And and ` OR ` for Or, in parentheses.
pub proof fn law_logical_words(op: LogicalOperator)
    ensures
        op == LogicalOperator::And ==> logical_word(op) == seq![' ', 'A', 'N', 'D', ' '],
        op == LogicalOperator::Or ==> logical_word(op) == seq![' ', 'O', 'R', ' '],
{
}

/// An ORDER BY item is the field followed by ` ASC` when ascending and
/// ` DESC` when descending; a JOIN names its kind (`INNER JOIN`, `LEFT
/// JOIN`, `RIGHT JOIN`, `FULL OUTER JOIN`), the table and its ON
/// condition.
pub proof fn law_order_and_join_texts(o: OrderView, j: JoinView)
    ensures
        o.direction == SortDirection::Asc ==> order_text(o) == o.field + seq![' ', 'A', 'S', 'C'],
        o.direction == SortDirection::Desc ==> order_text(o) == o.field + seq![' ', 'D', 'E', 'S', 'C'],
        j.join_type == JoinType::Inner ==> join_text(j)
            == seq![' ', 'I', 'N', 'N', 'E', 'R', ' ', 'J', 'O', 'I', 'N', ' '] + j.table + seq![' ', 'O', 'N', ' '] + j.on_condition,
        j.join_type == JoinType::Left ==> join_text(j)
            == seq![' ', 'L', 'E', 'F', 'T', ' ', 'J', 'O', 'I', 'N', ' '] + j.table + seq![' ', 'O', 'N', ' '] + j.on_condition,
        j.join_type == JoinType::Right ==> join_text(j)
            == seq![' ', 'R', 'I', 'G', 'H', 'T', ' ', 'J', 'O', 'I', 'N', ' '] + j.table + seq![' ', 'O', 'N', ' '] + j.on_condition,
        j.join_type == JoinType::Full ==> join_text(j)
            == seq![' ', 'F', 'U', 'L', 'L', ' ', 'O', 'U', 'T', 'E', 'R', ' ', 'J', 'O', 'I', 'N', ' '] + j.table + seq![' ', 'O', 'N', ' ']
                + j.on_condition,
{
    assert(seq![' '] + seq!['I', 'N', 'N', 'E', 'R', ' ', 'J', 'O', 'I', 'N'] + seq![' '] =~= seq![' ', 'I', 'N', 'N', 'E', 'R', ' ', 'J', 'O', 'I', 'N', ' ']);
    assert(seq![' '] + seq!['L', 'E', 'F', 'T', ' ', 'J', 'O', 'I', 'N'] + seq![' '] =~= seq![' ', 'L', 'E', 'F', 'T', ' ', 'J', 'O', 'I', 'N', ' ']);
    assert(seq![' '] + seq!['R', 'I', 'G', 'H', 'T', ' ', 'J', 'O', 'I', 'N'] + seq![' '] =~= seq![' ', 'R', 'I', 'G', 'H', 'T', ' ', 'J', 'O', 'I', 'N', ' ']);
    assert(seq![' '] + seq!['F', 'U', 'L', 'L', ' ', 'O', 'U', 'T', 'E', 'R', ' ', 'J', 'O', 'I', 'N'] + seq![' ']
        =~= seq![' ', 'F', 'U', 'L', 'L', ' ', 'O', 'U', 'T', 'E', 'R', ' ', 'J', 'O', 'I', 'N', ' ']);
}

} // verus!
