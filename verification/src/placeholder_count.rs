//! The statements of the SQL query builder hold one placeholder for each
//! of their parameters: `?` on MySQL and SQLite, `$n` on PostgreSQL.

use vstd::prelude::*;
use crate::models::{FieldKind, ModelView, table_field_kind};
use crate::postgres_utils::json_query_condition;
use crate::query_builder::{
    BuilderView, JoinType, JoinView, OrderView, and_word, comma, condition_clause, condition_items, delete_statement,
    group_clause, group_members, groups_where_clause, insert_statement, join_text, joins_text, logical_word,
    non_null_entries, optional_list, or_word, order_text, returning_text, select_statement, set_items, statement,
    top_group_items, update_statement, where_clause,
};
use crate::security::{identifier_char, safe_identifier};
use crate::sql::{comparison_word, in_word, is_not_null_word, is_null_word, like_word, placeholder, placeholders, regexp_word};
use crate::text::{count_char, decimal, join, lemma_count_char_concat, lemma_count_char_none, lemma_count_join, parts_count};
use crate::types::{Condition, DatabaseType, Group, QueryOperator, Value};

verus! {

/// The character that starts a placeholder: `$` on PostgreSQL, `?` on
/// the others.
pub open spec fn marker(db: DatabaseType) -> char {
    if db == DatabaseType::PostgreSQL { '$' } else { '?' }
}

/// Whether a condition is a Contains with a null value on a field
/// registered as JSON, on PostgreSQL: its clause is `IS NULL`, with a
/// parameter that has no placeholder.
pub open spec fn json_null_contains(db: DatabaseType, table: Seq<char>, models: Seq<ModelView>, c: Condition) -> bool {
    &&& db == DatabaseType::PostgreSQL
    &&& safe_identifier(c.field)
    &&& c.operator == QueryOperator::Contains
    &&& c.value is Null
    &&& table_field_kind(models, table, c.field) == Some(FieldKind::Json)
}

/// Whether no condition of a list is a `json_null_contains`.
pub open spec fn conditions_placeable(db: DatabaseType, table: Seq<char>, models: Seq<ModelView>, cs: Seq<Condition>) -> bool {
    forall|i: int| 0 <= i < cs.len() ==> !#[trigger] json_null_contains(db, table, models, cs[i])
}

/// Whether no condition of a tree is a `json_null_contains`.
pub open spec fn group_placeable(db: DatabaseType, table: Seq<char>, models: Seq<ModelView>, g: Group) -> bool
    decreases g,
{
    match g {
        Group::Single(c) => !json_null_contains(db, table, models, c),
        Group::Group { conditions, .. } => groups_placeable(db, table, models, conditions),
    }
}

/// Whether no condition of a list of trees is a `json_null_contains`.
pub open spec fn groups_placeable(db: DatabaseType, table: Seq<char>, models: Seq<ModelView>, gs: Seq<Group>) -> bool
    decreases gs,
{
    if gs.len() == 0 {
        true
    } else {
        proof {
            assert(decreases_to!(gs => gs.subrange(0, gs.len() - 1)));
        }
        groups_placeable(db, table, models, gs.drop_last()) && group_placeable(db, table, models, gs.last())
    }
}

/// Whether a text holds no placeholder character of `db`.
pub open spec fn unmarked(db: DatabaseType, s: Seq<char>) -> bool {
    count_char(s, marker(db)) == 0
}

pub open spec fn all_unmarked(db: DatabaseType, ss: Seq<Seq<char>>) -> bool {
    forall|i: int| 0 <= i < ss.len() ==> #[trigger] unmarked(db, ss[i])
}

/// Whether the texts that a builder writes into its statement as they
/// stand (the table, fields, JOINs, GROUP BY and ORDER BY items, column
/// names and RETURNING fields) hold no placeholder character.
pub open spec fn written_texts_unmarked(b: BuilderView) -> bool {
    &&& unmarked(b.db_type, b.table)
    &&& all_unmarked(b.db_type, b.fields)
    &&& forall|i: int| 0 <= i < b.joins.len() ==> #[trigger] unmarked(b.db_type, b.joins[i].table)
        && unmarked(b.db_type, b.joins[i].on_condition)
    &&& all_unmarked(b.db_type, b.group_by)
    &&& forall|i: int| 0 <= i < b.order_by.len() ==> #[trigger] unmarked(b.db_type, b.order_by[i].field)
    &&& forall|i: int| 0 <= i < b.values.len() ==> #[trigger] unmarked(b.db_type, b.values[i].0)
    &&& all_unmarked(b.db_type, b.returning)
}

proof fn lemma_cc(a: Seq<char>, b: Seq<char>, c: char)
    ensures
        count_char(a + b, c) == count_char(a, c) + count_char(b, c),
{
    lemma_count_char_concat(a, b, c);
}

/// The fixed words of clauses and statements hold neither `?` nor `$`.
proof fn lemma_words_unmarked(c: char)
    requires
        c == '?' || c == '$',
    ensures
        count_char(like_word(), c) == 0,
        count_char(regexp_word(), c) == 0,
        count_char(is_null_word(), c) == 0,
        count_char(is_not_null_word(), c) == 0,
        count_char(in_word(true), c) == 0,
        count_char(in_word(false), c) == 0,
        count_char(and_word(), c) == 0,
        count_char(or_word(), c) == 0,
        count_char(comma(), c) == 0,
        count_char(seq!['('], c) == 0,
        count_char(seq![')'], c) == 0,
        count_char(seq!['*'], c) == 0,
        count_char(seq![' '], c) == 0,
        count_char(seq![' ', '@', '>', ' '], c) == 0,
        count_char(seq![':', ':', 't', 'e', 'x', 't', ' ', 'I', 'L', 'I', 'K', 'E', ' '], c) == 0,
        count_char(seq![' ', 'I', 'S', ' ', 'N', 'U', 'L', 'L'], c) == 0,
        count_char(seq![' ', 'O', 'N', ' '], c) == 0,
        count_char(seq![' ', 'A', 'S', 'C'], c) == 0,
        count_char(seq![' ', 'D', 'E', 'S', 'C'], c) == 0,
        count_char(seq!['I', 'N', 'N', 'E', 'R', ' ', 'J', 'O', 'I', 'N'], c) == 0,
        count_char(seq!['L', 'E', 'F', 'T', ' ', 'J', 'O', 'I', 'N'], c) == 0,
        count_char(seq!['R', 'I', 'G', 'H', 'T', ' ', 'J', 'O', 'I', 'N'], c) == 0,
        count_char(seq!['F', 'U', 'L', 'L', ' ', 'O', 'U', 'T', 'E', 'R', ' ', 'J', 'O', 'I', 'N'], c) == 0,
        forall|op: QueryOperator| #[trigger] count_char(comparison_word(op), c) == 0,
        count_char("SELECT "@, c) == 0,
        count_char(" FROM "@, c) == 0,
        count_char(" WHERE "@, c) == 0,
        count_char(" GROUP BY "@, c) == 0,
        count_char(" HAVING "@, c) == 0,
        count_char(" ORDER BY "@, c) == 0,
        count_char(" LIMIT "@, c) == 0,
        count_char(" OFFSET "@, c) == 0,
        count_char(" RETURNING "@, c) == 0,
        count_char("INSERT INTO "@, c) == 0,
        count_char(" ("@, c) == 0,
        count_char(") VALUES ("@, c) == 0,
        count_char(")"@, c) == 0,
        count_char("UPDATE "@, c) == 0,
        count_char(" SET "@, c) == 0,
        count_char(" = "@, c) == 0,
        count_char("DELETE FROM "@, c) == 0,
{
    reveal_strlit("SELECT ");
    reveal_strlit(" FROM ");
    reveal_strlit(" WHERE ");
    reveal_strlit(" GROUP BY ");
    reveal_strlit(" HAVING ");
    reveal_strlit(" ORDER BY ");
    reveal_strlit(" LIMIT ");
    reveal_strlit(" OFFSET ");
    reveal_strlit(" RETURNING ");
    reveal_strlit("INSERT INTO ");
    reveal_strlit(" (");
    reveal_strlit(") VALUES (");
    reveal_strlit(")");
    reveal_strlit("UPDATE ");
    reveal_strlit(" SET ");
    reveal_strlit(" = ");
    reveal_strlit("DELETE FROM ");
    reveal_with_fuel(count_char, 16);
    assert(count_char(seq![' ', '=', ' '], c) == 0);
    assert(count_char(seq![' ', '!', '=', ' '], c) == 0);
    assert(count_char(seq![' ', '>', ' '], c) == 0);
    assert(count_char(seq![' ', '>', '=', ' '], c) == 0);
    assert(count_char(seq![' ', '<', ' '], c) == 0);
    assert(count_char(seq![' ', '<', '=', ' '], c) == 0);
}

/// Decimal digits are neither `?` nor `$`.
proof fn lemma_decimal_unmarked(n: nat, c: char)
    requires
        c == '?' || c == '$',
    ensures
        count_char(decimal(n), c) == 0,
    decreases n,
{
    reveal_with_fuel(count_char, 2);
    if n >= 10 {
        lemma_decimal_unmarked(n / 10, c);
        assert(decimal(n).drop_last() =~= decimal(n / 10));
    }
}

/// A placeholder holds one placeholder character.
proof fn lemma_placeholder_marked(db: DatabaseType, idx: nat)
    ensures
        count_char(placeholder(db, idx), marker(db)) == 1,
{
    reveal_with_fuel(count_char, 2);
    if db == DatabaseType::PostgreSQL {
        lemma_decimal_unmarked(idx, '$');
        lemma_cc(seq!['$'], decimal(idx), '$');
    } else {
        assert(count_char(seq!['?'], '?') == 1);
    }
}

proof fn lemma_placeholders_marked(db: DatabaseType, idx: nat, n: nat)
    ensures
        parts_count(placeholders(db, idx, n), marker(db)) == n,
    decreases n,
{
    if n > 0 {
        lemma_placeholders_marked(db, idx, (n - 1) as nat);
        assert(placeholders(db, idx, n).drop_last() =~= placeholders(db, idx, (n - 1) as nat));
        lemma_placeholder_marked(db, (idx + n - 1) as nat);
    }
}

proof fn lemma_safe_unmarked(f: Seq<char>, c: char)
    requires
        safe_identifier(f),
        c == '?' || c == '$',
    ensures
        count_char(f, c) == 0,
{
    assert forall|i: int| 0 <= i < f.len() implies f[i] != c by {
        assert(identifier_char(f[i]));
    }
    lemma_count_char_none(f, c);
}

/// A condition's clause holds one placeholder for each of its
/// parameters, unless it is a `json_null_contains`.
pub proof fn lemma_condition_clause_marked(db: DatabaseType, table: Seq<char>, models: Seq<ModelView>, c: Condition, idx: nat)
    requires
        !json_null_contains(db, table, models, c),
    ensures
        condition_clause(db, table, models, c, idx) matches Ok((s, p)) ==> count_char(s, marker(db)) == p.len(),
{
    if let Ok((s, p)) = condition_clause(db, table, models, c, idx) {
        let m = marker(db);
        let f = c.field;
        let ph = placeholder(db, idx);
        lemma_safe_unmarked(f, m);
        lemma_words_unmarked(m);
        lemma_placeholder_marked(db, idx);
        lemma_cc(f, comparison_word(c.operator), m);
        lemma_cc(f + comparison_word(c.operator), ph, m);
        lemma_cc(f, like_word(), m);
        lemma_cc(f + like_word(), ph, m);
        lemma_cc(f, regexp_word(), m);
        lemma_cc(f + regexp_word(), ph, m);
        lemma_cc(f, is_null_word(), m);
        lemma_cc(f, is_not_null_word(), m);
        lemma_cc(f, seq![' ', '@', '>', ' '], m);
        lemma_cc(f + seq![' ', '@', '>', ' '], ph, m);
        lemma_cc(f, seq![':', ':', 't', 'e', 'x', 't', ' ', 'I', 'L', 'I', 'K', 'E', ' '], m);
        lemma_cc(f + seq![':', ':', 't', 'e', 'x', 't', ' ', 'I', 'L', 'I', 'K', 'E', ' '], ph, m);
        lemma_cc(f, seq![' ', 'I', 'S', ' ', 'N', 'U', 'L', 'L'], m);
        if c.operator == QueryOperator::In || c.operator == QueryOperator::NotIn {
            if let Value::Array(items) = c.value {
                let w = in_word(c.operator == QueryOperator::NotIn);
                let ps = placeholders(db, idx, items.len());
                lemma_placeholders_marked(db, idx, items.len());
                lemma_count_join(ps, seq![',', ' '], m);
                lemma_cc(f, w, m);
                lemma_cc(f + w, join(ps, seq![',', ' ']), m);
                lemma_cc(f + w + join(ps, seq![',', ' ']), seq![')'], m);
            }
        }
    }
}

proof fn lemma_condition_items_marked(db: DatabaseType, table: Seq<char>, models: Seq<ModelView>, cs: Seq<Condition>, start: nat)
    requires
        conditions_placeable(db, table, models, cs),
    ensures
        condition_items(db, table, models, cs, start) matches Ok((cl, ps)) ==> parts_count(cl, marker(db)) == ps.len(),
    decreases cs.len(),
{
    if cs.len() > 0 {
        assert(conditions_placeable(db, table, models, cs.drop_last())) by {
            assert forall|i: int| 0 <= i < cs.drop_last().len() implies !#[trigger] json_null_contains(db, table, models, cs.drop_last()[i]) by {
                assert(cs.drop_last()[i] == cs[i]);
                assert(!json_null_contains(db, table, models, cs[i]));
            }
        }
        lemma_condition_items_marked(db, table, models, cs.drop_last(), start);
        assert(!json_null_contains(db, table, models, cs[cs.len() - 1]));
        if let Ok((cl, ps)) = condition_items(db, table, models, cs.drop_last(), start) {
            lemma_condition_clause_marked(db, table, models, cs.last(), start + ps.len());
            if let Ok((c, p)) = condition_clause(db, table, models, cs.last(), start + ps.len()) {
                assert(cl.push(c).drop_last() =~= cl);
            }
        }
    }
}

/// The WHERE clause of a condition list holds one placeholder for each
/// of its parameters, when no condition is a `json_null_contains`.
pub proof fn law_where_clause_marked(db: DatabaseType, table: Seq<char>, models: Seq<ModelView>, cs: Seq<Condition>, start: nat)
    requires
        conditions_placeable(db, table, models, cs),
    ensures
        where_clause(db, table, models, cs, start) matches Ok((s, ps)) ==> count_char(s, marker(db)) == ps.len(),
{
    lemma_condition_items_marked(db, table, models, cs, start);
    lemma_words_unmarked(marker(db));
    if let Ok((cl, ps)) = condition_items(db, table, models, cs, start) {
        lemma_count_join(cl, and_word(), marker(db));
    }
}

proof fn lemma_group_marked(db: DatabaseType, table: Seq<char>, models: Seq<ModelView>, g: Group, idx: nat)
    requires
        group_placeable(db, table, models, g),
    ensures
        group_clause(db, table, models, g, idx) matches Ok((s, p)) ==> count_char(s, marker(db)) == p.len(),
    decreases g,
{
    match g {
        Group::Single(c) => {
            lemma_condition_clause_marked(db, table, models, c, idx);
        },
        Group::Group { operator, conditions } => {
            lemma_members_marked(db, table, models, conditions, idx);
            lemma_words_unmarked(marker(db));
            if let Ok((cl, ps)) = group_members(db, table, models, conditions, idx) {
                if cl.len() == 1 {
                    assert(cl.drop_last().len() == 0);
                    assert(parts_count(cl.drop_last(), marker(db)) == 0);
                    assert(cl.last() == cl[0]);
                } else if cl.len() > 1 {
                    let m = marker(db);
                    assert(count_char(logical_word(operator), m) == 0);
                    lemma_count_join(cl, logical_word(operator), m);
                    lemma_cc(seq!['('], join(cl, logical_word(operator)), m);
                    lemma_cc(seq!['('] + join(cl, logical_word(operator)), seq![')'], m);
                }
            }
        },
    }
}

proof fn lemma_members_marked(db: DatabaseType, table: Seq<char>, models: Seq<ModelView>, gs: Seq<Group>, idx: nat)
    requires
        groups_placeable(db, table, models, gs),
    ensures
        group_members(db, table, models, gs, idx) matches Ok((cl, ps)) ==> parts_count(cl, marker(db)) == ps.len(),
    decreases gs,
{
    if gs.len() > 0 {
        assert(decreases_to!(gs => gs.subrange(0, gs.len() - 1)));
        lemma_members_marked(db, table, models, gs.drop_last(), idx);
        if let Ok((cl, ps)) = group_members(db, table, models, gs.drop_last(), idx) {
            lemma_group_marked(db, table, models, gs.last(), idx + ps.len());
            if let Ok((c, p)) = group_clause(db, table, models, gs.last(), idx + ps.len()) {
                if c.len() > 0 {
                    assert(cl.push(c).drop_last() =~= cl);
                }
            }
        }
    }
}

proof fn lemma_top_items_marked(db: DatabaseType, table: Seq<char>, models: Seq<ModelView>, gs: Seq<Group>, start: nat)
    requires
        groups_placeable(db, table, models, gs),
    ensures
        top_group_items(db, table, models, gs, start) matches Ok((cl, ps)) ==> parts_count(cl, marker(db)) == ps.len(),
    decreases gs.len(),
{
    if gs.len() > 0 {
        lemma_top_items_marked(db, table, models, gs.drop_last(), start);
        if let Ok((cl, ps)) = top_group_items(db, table, models, gs.drop_last(), start) {
            lemma_group_marked(db, table, models, gs.last(), start + ps.len());
            if let Ok((c, p)) = group_clause(db, table, models, gs.last(), start + ps.len()) {
                assert(cl.push(c).drop_last() =~= cl);
            }
        }
    }
}

/// The WHERE clause of a list of condition trees holds one placeholder
/// for each of its parameters, when no condition is a
/// `json_null_contains`.
pub proof fn law_groups_where_clause_marked(db: DatabaseType, table: Seq<char>, models: Seq<ModelView>, gs: Seq<Group>, start: nat)
    requires
        groups_placeable(db, table, models, gs),
    ensures
        groups_where_clause(db, table, models, gs, start) matches Ok((s, ps)) ==> count_char(s, marker(db)) == ps.len(),
{
    lemma_top_items_marked(db, table, models, gs, start);
    lemma_words_unmarked(marker(db));
    if let Ok((cl, ps)) = top_group_items(db, table, models, gs, start) {
        lemma_count_join(cl, and_word(), marker(db));
    }
}

proof fn lemma_all_unmarked_count(db: DatabaseType, ss: Seq<Seq<char>>)
    requires
        all_unmarked(db, ss),
    ensures
        parts_count(ss, marker(db)) == 0,
    decreases ss.len(),
{
    if ss.len() > 0 {
        assert(unmarked(db, ss[ss.len() - 1]));
        assert forall|i: int| 0 <= i < ss.drop_last().len() implies #[trigger] unmarked(db, ss.drop_last()[i]) by {
            assert(ss.drop_last()[i] == ss[i]);
        }
        lemma_all_unmarked_count(db, ss.drop_last());
    }
}

proof fn lemma_join_unmarked(db: DatabaseType, ss: Seq<Seq<char>>, sep: Seq<char>)
    requires
        all_unmarked(db, ss),
        unmarked(db, sep),
    ensures
        unmarked(db, join(ss, sep)),
{
    lemma_all_unmarked_count(db, ss);
    lemma_count_join(ss, sep, marker(db));
}

proof fn lemma_optional_list_unmarked(db: DatabaseType, keyword: Seq<char>, items: Seq<Seq<char>>)
    requires
        unmarked(db, keyword),
        all_unmarked(db, items),
    ensures
        unmarked(db, optional_list(keyword, items)),
{
    lemma_words_unmarked(marker(db));
    if items.len() > 0 {
        lemma_join_unmarked(db, items, comma());
        lemma_cc(keyword, join(items, comma()), marker(db));
    } else {
        assert(count_char(Seq::<char>::empty(), marker(db)) == 0);
    }
}

proof fn lemma_joins_unmarked(db: DatabaseType, js: Seq<JoinView>)
    requires
        forall|i: int| 0 <= i < js.len() ==> #[trigger] unmarked(db, js[i].table) && unmarked(db, js[i].on_condition),
    ensures
        unmarked(db, joins_text(js)),
    decreases js.len(),
{
    let m = marker(db);
    lemma_words_unmarked(m);
    if js.len() == 0 {
        assert(count_char(Seq::<char>::empty(), m) == 0);
    } else {
        lemma_joins_unmarked(db, js.drop_last());
        let j = js.last();
        assert(unmarked(db, js[js.len() - 1].table));
        let kind = match j.join_type {
            JoinType::Inner => seq!['I', 'N', 'N', 'E', 'R', ' ', 'J', 'O', 'I', 'N'],
            JoinType::Left => seq!['L', 'E', 'F', 'T', ' ', 'J', 'O', 'I', 'N'],
            JoinType::Right => seq!['R', 'I', 'G', 'H', 'T', ' ', 'J', 'O', 'I', 'N'],
            JoinType::Full => seq!['F', 'U', 'L', 'L', ' ', 'O', 'U', 'T', 'E', 'R', ' ', 'J', 'O', 'I', 'N'],
        };
        assert(join_text(j) == seq![' '] + kind + seq![' '] + j.table + seq![' ', 'O', 'N', ' '] + j.on_condition);
        lemma_cc(seq![' '], kind, m);
        lemma_cc(seq![' '] + kind, seq![' '], m);
        lemma_cc(seq![' '] + kind + seq![' '], j.table, m);
        lemma_cc(seq![' '] + kind + seq![' '] + j.table, seq![' ', 'O', 'N', ' '], m);
        lemma_cc(seq![' '] + kind + seq![' '] + j.table + seq![' ', 'O', 'N', ' '], j.on_condition, m);
        lemma_cc(joins_text(js.drop_last()), join_text(j), m);
    }
}

proof fn lemma_orders_unmarked(db: DatabaseType, os: Seq<OrderView>)
    requires
        forall|i: int| 0 <= i < os.len() ==> #[trigger] unmarked(db, os[i].field),
    ensures
        all_unmarked(db, os.map_values(|o: OrderView| order_text(o))),
{
    lemma_words_unmarked(marker(db));
    let texts = os.map_values(|o: OrderView| order_text(o));
    assert forall|i: int| 0 <= i < texts.len() implies #[trigger] unmarked(db, texts[i]) by {
        assert(unmarked(db, os[i].field));
        assert(texts[i] == order_text(os[i]));
        lemma_cc(os[i].field, seq![' ', 'A', 'S', 'C'], marker(db));
        lemma_cc(os[i].field, seq![' ', 'D', 'E', 'S', 'C'], marker(db));
    }
}

proof fn lemma_non_null_keys_unmarked(db: DatabaseType, vs: Seq<(Seq<char>, Value)>)
    requires
        forall|i: int| 0 <= i < vs.len() ==> #[trigger] unmarked(db, vs[i].0),
    ensures
        forall|i: int| 0 <= i < non_null_entries(vs).len() ==> #[trigger] unmarked(db, non_null_entries(vs)[i].0),
    decreases vs.len(),
{
    if vs.len() > 0 {
        let prev = vs.drop_last();
        assert forall|i: int| 0 <= i < prev.len() implies #[trigger] unmarked(db, prev[i].0) by {
            assert(prev[i] == vs[i]);
        }
        lemma_non_null_keys_unmarked(db, prev);
        assert(unmarked(db, vs[vs.len() - 1].0));
        let nn = non_null_entries(vs);
        let pn = non_null_entries(prev);
        assert forall|i: int| 0 <= i < nn.len() implies #[trigger] unmarked(db, nn[i].0) by {
            if i < pn.len() {
                assert(nn[i] == pn[i]);
            } else {
                assert(nn[i] == vs.last());
            }
        }
    }
}

proof fn lemma_set_items_marked(db: DatabaseType, nn: Seq<(Seq<char>, Value)>, k: nat)
    requires
        forall|i: int| 0 <= i < nn.len() ==> #[trigger] unmarked(db, nn[i].0),
        k <= nn.len(),
    ensures
        parts_count(set_items(db, nn).subrange(0, k as int), marker(db)) == k,
    decreases k,
{
    if k > 0 {
        lemma_set_items_marked(db, nn, (k - 1) as nat);
        let items = set_items(db, nn);
        assert(items.subrange(0, k as int).drop_last() =~= items.subrange(0, k - 1));
        let m = marker(db);
        lemma_words_unmarked(m);
        assert(unmarked(db, nn[k - 1].0));
        lemma_placeholder_marked(db, k as nat);
        assert(items[k - 1] == nn[k - 1].0 + " = "@ + placeholder(db, k as nat));
        lemma_cc(nn[k - 1].0, " = "@, m);
        lemma_cc(nn[k - 1].0 + " = "@, placeholder(db, k as nat), m);
    }
}

/// What a statement law asks of a builder: the written texts hold no
/// placeholder character and no condition is a `json_null_contains`.
pub open spec fn builder_placeable(b: BuilderView, models: Seq<ModelView>) -> bool {
    &&& written_texts_unmarked(b)
    &&& conditions_placeable(b.db_type, b.table, models, b.conditions)
    &&& conditions_placeable(b.db_type, b.table, models, b.having)
    &&& groups_placeable(b.db_type, b.table, models, b.groups)
}

proof fn lemma_select_marked(b: BuilderView, models: Seq<ModelView>)
    requires
        builder_placeable(b, models),
    ensures
        select_statement(b, models) matches Ok((sql, ps)) ==> count_char(sql, marker(b.db_type)) == ps.len(),
{
    if let Ok((sql, ps)) = select_statement(b, models) {
        let db = b.db_type;
        let m = marker(db);
        lemma_words_unmarked(m);
        let fields = if b.fields.len() == 0 { seq!['*'] } else { join(b.fields, comma()) };
        if b.fields.len() > 0 {
            lemma_join_unmarked(db, b.fields, comma());
        }
        lemma_joins_unmarked(db, b.joins);
        lemma_cc("SELECT "@, fields, m);
        lemma_cc("SELECT "@ + fields, " FROM "@, m);
        lemma_cc("SELECT "@ + fields + " FROM "@, b.table, m);
        lemma_cc("SELECT "@ + fields + " FROM "@ + b.table, joins_text(b.joins), m);
        let head = "SELECT "@ + fields + " FROM "@ + b.table + joins_text(b.joins);
        law_groups_where_clause_marked(db, b.table, models, b.groups, 1);
        law_where_clause_marked(db, b.table, models, b.conditions, 1);
        law_where_clause_marked(db, b.table, models, b.having, 1);
        let w = if b.groups.len() > 0 {
            groups_where_clause(db, b.table, models, b.groups, 1)
        } else if b.conditions.len() > 0 {
            where_clause(db, b.table, models, b.conditions, 1)
        } else {
            Ok((Seq::empty(), Seq::empty()))
        };
        let (wc, wp) = w->Ok_0;
        assert(count_char(wc, m) == wp.len()) by {
            if !(b.groups.len() > 0 || b.conditions.len() > 0) {
                assert(count_char(Seq::<char>::empty(), m) == 0);
            }
        }
        lemma_cc(head, " WHERE "@, m);
        lemma_cc(head + " WHERE "@, wc, m);
        let with_where = if b.groups.len() > 0 || b.conditions.len() > 0 { head + " WHERE "@ + wc } else { head };
        lemma_optional_list_unmarked(db, " GROUP BY "@, b.group_by);
        lemma_cc(with_where, optional_list(" GROUP BY "@, b.group_by), m);
        let with_group = with_where + optional_list(" GROUP BY "@, b.group_by);
        let h = if b.having.len() > 0 {
            where_clause(db, b.table, models, b.having, 1)
        } else {
            Ok((Seq::empty(), Seq::empty()))
        };
        let (hc, hp) = h->Ok_0;
        assert(count_char(hc, m) == hp.len()) by {
            if b.having.len() == 0 {
                assert(count_char(Seq::<char>::empty(), m) == 0);
            }
        }
        lemma_cc(with_group, " HAVING "@, m);
        lemma_cc(with_group + " HAVING "@, hc, m);
        let with_having = if b.having.len() > 0 { with_group + " HAVING "@ + hc } else { with_group };
        let orders = b.order_by.map_values(|o: OrderView| order_text(o));
        lemma_orders_unmarked(db, b.order_by);
        lemma_optional_list_unmarked(db, " ORDER BY "@, orders);
        lemma_cc(with_having, optional_list(" ORDER BY "@, orders), m);
        let with_order = with_having + optional_list(" ORDER BY "@, orders);
        assert(count_char(with_order, m) == wp.len() + hp.len());
        if let Some(l) = b.limit {
            lemma_decimal_unmarked(l as nat, m);
            lemma_cc(with_order, " LIMIT "@, m);
            lemma_cc(with_order + " LIMIT "@, decimal(l as nat), m);
        }
        let with_limit = match b.limit { Some(l) => with_order + " LIMIT "@ + decimal(l as nat), None => with_order };
        if let Some(o) = b.offset {
            lemma_decimal_unmarked(o as nat, m);
            lemma_cc(with_limit, " OFFSET "@, m);
            lemma_cc(with_limit + " OFFSET "@, decimal(o as nat), m);
        }
    }
}

proof fn lemma_insert_marked(b: BuilderView)
    requires
        written_texts_unmarked(b),
    ensures
        insert_statement(b) matches Ok((sql, ps)) ==> count_char(sql, marker(b.db_type)) == ps.len(),
{
    if let Ok((sql, ps)) = insert_statement(b) {
        let db = b.db_type;
        let m = marker(db);
        lemma_words_unmarked(m);
        let nn = non_null_entries(b.values);
        lemma_non_null_keys_unmarked(db, b.values);
        let cols = nn.map_values(|e: (Seq<char>, Value)| e.0);
        assert forall|i: int| 0 <= i < cols.len() implies #[trigger] unmarked(db, cols[i]) by {
            assert(unmarked(db, nn[i].0));
        }
        lemma_join_unmarked(db, cols, comma());
        lemma_placeholders_marked(db, 1, nn.len());
        lemma_count_join(placeholders(db, 1, nn.len()), comma(), m);
        lemma_optional_list_unmarked(db, " RETURNING "@, b.returning);
        let a0 = "INSERT INTO "@ + b.table;
        lemma_cc("INSERT INTO "@, b.table, m);
        lemma_cc(a0, " ("@, m);
        lemma_cc(a0 + " ("@, join(cols, comma()), m);
        let a1 = a0 + " ("@ + join(cols, comma());
        lemma_cc(a1, ") VALUES ("@, m);
        lemma_cc(a1 + ") VALUES ("@, join(placeholders(db, 1, nn.len()), comma()), m);
        let a2 = a1 + ") VALUES ("@ + join(placeholders(db, 1, nn.len()), comma());
        lemma_cc(a2, ")"@, m);
        lemma_cc(a2 + ")"@, returning_text(b), m);
    }
}

proof fn lemma_update_marked(b: BuilderView, models: Seq<ModelView>)
    requires
        builder_placeable(b, models),
    ensures
        update_statement(b, models) matches Ok((sql, ps)) ==> count_char(sql, marker(b.db_type)) == ps.len(),
{
    if let Ok((sql, ps)) = update_statement(b, models) {
        let db = b.db_type;
        let m = marker(db);
        lemma_words_unmarked(m);
        let nn = non_null_entries(b.values);
        lemma_non_null_keys_unmarked(db, b.values);
        let items = set_items(db, nn);
        lemma_set_items_marked(db, nn, nn.len());
        assert(items.subrange(0, nn.len() as int) =~= items);
        lemma_count_join(items, comma(), m);
        lemma_cc("UPDATE "@, b.table, m);
        lemma_cc("UPDATE "@ + b.table, " SET "@, m);
        lemma_cc("UPDATE "@ + b.table + " SET "@, join(items, comma()), m);
        let head = "UPDATE "@ + b.table + " SET "@ + join(items, comma());
        assert(count_char(head, m) == nn.len());
        law_where_clause_marked(db, b.table, models, b.conditions, 1 + nn.len());
        law_groups_where_clause_marked(db, b.table, models, b.groups, 1 + nn.len());
        lemma_optional_list_unmarked(db, " RETURNING "@, b.returning);
        if b.groups.len() > 0 {
            let (wc, wp) = groups_where_clause(db, b.table, models, b.groups, 1 + nn.len())->Ok_0;
            lemma_cc(head, " WHERE "@, m);
            lemma_cc(head + " WHERE "@, wc, m);
            lemma_cc(head + " WHERE "@ + wc, returning_text(b), m);
        } else if b.conditions.len() > 0 {
            let (wc, wp) = where_clause(db, b.table, models, b.conditions, 1 + nn.len())->Ok_0;
            lemma_cc(head, " WHERE "@, m);
            lemma_cc(head + " WHERE "@, wc, m);
            lemma_cc(head + " WHERE "@ + wc, returning_text(b), m);
        } else {
            lemma_cc(head, returning_text(b), m);
        }
    }
}

proof fn lemma_delete_marked(b: BuilderView, models: Seq<ModelView>)
    requires
        builder_placeable(b, models),
    ensures
        delete_statement(b, models) matches Ok((sql, ps)) ==> count_char(sql, marker(b.db_type)) == ps.len(),
{
    if let Ok((sql, ps)) = delete_statement(b, models) {
        let db = b.db_type;
        let m = marker(db);
        lemma_words_unmarked(m);
        lemma_cc("DELETE FROM "@, b.table, m);
        let head = "DELETE FROM "@ + b.table;
        law_where_clause_marked(db, b.table, models, b.conditions, 1);
        law_groups_where_clause_marked(db, b.table, models, b.groups, 1);
        lemma_optional_list_unmarked(db, " RETURNING "@, b.returning);
        if b.groups.len() > 0 {
            let (wc, wp) = groups_where_clause(db, b.table, models, b.groups, 1)->Ok_0;
            lemma_cc(head, " WHERE "@, m);
            lemma_cc(head + " WHERE "@, wc, m);
            lemma_cc(head + " WHERE "@ + wc, returning_text(b), m);
        } else if b.conditions.len() > 0 {
            let (wc, wp) = where_clause(db, b.table, models, b.conditions, 1)->Ok_0;
            lemma_cc(head, " WHERE "@, m);
            lemma_cc(head + " WHERE "@, wc, m);
            lemma_cc(head + " WHERE "@ + wc, returning_text(b), m);
        } else {
            lemma_cc(head, returning_text(b), m);
        }
    }
}

/// A statement that the builder makes holds one placeholder for each of
/// its parameters (`?` on MySQL and SQLite, `$n` on PostgreSQL), when the
/// texts it writes as they stand hold no placeholder character and no
/// condition is a Contains with a null value on a PostgreSQL JSON field.
pub proof fn law_statement_marked(b: BuilderView, models: Seq<ModelView>)
    requires
        builder_placeable(b, models),
    ensures
        statement(b, models) matches Ok((sql, ps)) ==> count_char(sql, marker(b.db_type)) == ps.len(),
{
    lemma_select_marked(b, models);
    lemma_insert_marked(b);
    lemma_update_marked(b, models);
    lemma_delete_marked(b, models);
}

} // verus!
