//! Stored query templates: the `{WHERE}`, `{GROUP_BY}`, `{HAVING}`,
//! `{ORDER_BY}`, `{LIMIT}` and `{OFFSET}` placeholders of a template are
//! filled from the call's parameters, then each SQL back end tidies the
//! text in its own way.

use vstd::prelude::*;
use crate::query_builder::entries_model;
use crate::render::{display_text, display_string};
use crate::sql_inserts::{field_value, field_value_of};
use crate::text::{replace_all, replace_text, trim, trim_text};
use crate::types::{DataValue, Value};

verus! {

/// What a placeholder becomes: ` KEYWORD text` when the parameters hold a
/// value for its key (the value's display text), and nothing otherwise.
pub open spec fn placeholder_fill(params: Option<Seq<(Seq<char>, Value)>>, key: Seq<char>, keyword: Seq<char>) -> Seq<char> {
    match params {
        None => Seq::empty(),
        Some(ps) => match field_value(ps, key) {
            Some(v) => seq![' '] + keyword + seq![' '] + display_text(v),
            None => Seq::empty(),
        },
    }
}

/// The template with its six placeholders filled, in order.
pub open spec fn filled_template(t: Seq<char>, ps: Option<Seq<(Seq<char>, Value)>>) -> Seq<char> {
    let a = replace_all(t, "{WHERE}"@, placeholder_fill(ps, "WHERE"@, "WHERE"@));
    let b = replace_all(a, "{GROUP_BY}"@, placeholder_fill(ps, "GROUP_BY"@, "GROUP BY"@));
    let c = replace_all(b, "{HAVING}"@, placeholder_fill(ps, "HAVING"@, "HAVING"@));
    let d = replace_all(c, "{ORDER_BY}"@, placeholder_fill(ps, "ORDER_BY"@, "ORDER BY"@));
    let e = replace_all(d, "{LIMIT}"@, placeholder_fill(ps, "LIMIT"@, "LIMIT"@));
    replace_all(e, "{OFFSET}"@, placeholder_fill(ps, "OFFSET"@, "OFFSET"@))
}

/// The SQLite query of a template: the filled template with any
/// placeholder left in the parameters' texts removed, double spaces made
/// single, spaces before commas dropped, and the ends trimmed.
pub open spec fn sqlite_template_query(t: Seq<char>, ps: Option<Seq<(Seq<char>, Value)>>) -> Seq<char> {
    let f = filled_template(t, ps);
    let a = replace_all(f, "{WHERE}"@, Seq::empty());
    let b = replace_all(a, "{GROUP_BY}"@, Seq::empty());
    let c = replace_all(b, "{HAVING}"@, Seq::empty());
    let d = replace_all(c, "{ORDER_BY}"@, Seq::empty());
    let e = replace_all(d, "{LIMIT}"@, Seq::empty());
    let g = replace_all(e, "{OFFSET}"@, Seq::empty());
    let h = replace_all(g, "  "@, " "@);
    let i = replace_all(h, " ,"@, ","@);
    trim(replace_all(i, ", "@, ", "@))
}

/// The MySQL query of a template: the filled template with double spaces
/// made single, spaces before commas dropped, and every ` WHERE `,
/// ` HAVING `, ` ORDER BY `, ` LIMIT ` and ` OFFSET ` removed.
pub open spec fn mysql_template_query(t: Seq<char>, ps: Option<Seq<(Seq<char>, Value)>>) -> Seq<char> {
    let f = filled_template(t, ps);
    let a = replace_all(f, "  "@, " "@);
    let b = replace_all(a, " ,"@, ","@);
    let c = replace_all(b, ", "@, ", "@);
    let d = replace_all(c, " WHERE "@, Seq::empty());
    let e = replace_all(d, " HAVING "@, Seq::empty());
    let g = replace_all(e, " ORDER BY "@, Seq::empty());
    let h = replace_all(g, " LIMIT "@, Seq::empty());
    replace_all(h, " OFFSET "@, Seq::empty())
}

/// The PostgreSQL query of a template: as for MySQL, with ` LIMIT `
/// removed twice over.
pub open spec fn postgres_template_query(t: Seq<char>, ps: Option<Seq<(Seq<char>, Value)>>) -> Seq<char> {
    let f = filled_template(t, ps);
    let a = replace_all(f, "  "@, " "@);
    let b = replace_all(a, " ,"@, ","@);
    let c = replace_all(b, ", "@, ", "@);
    let d = replace_all(c, " WHERE "@, Seq::empty());
    let e = replace_all(d, " HAVING "@, Seq::empty());
    let g = replace_all(e, " ORDER BY "@, Seq::empty());
    let h = replace_all(g, " LIMIT "@, Seq::empty());
    let i = replace_all(h, " LIMIT "@, Seq::empty());
    replace_all(i, " OFFSET "@, Seq::empty())
}

pub open spec fn params_model(params: Option<&Vec<(String, DataValue)>>) -> Option<Seq<(Seq<char>, Value)>> {
    match params {
        Some(ps) => Some(entries_model(ps@)),
        None => None,
    }
}

fn placeholder_text(params: Option<&Vec<(String, DataValue)>>, key: &str, keyword: &str) -> (r: String)
    ensures
        r@ == placeholder_fill(params_model(params), key@, keyword@),
{
    match params {
        None => String::new(),
        Some(ps) => match field_value_of(ps, key) {
            Some(v) => {
                let mut t = String::new();
                crate::text::push_char(&mut t, ' ');
                t.append(keyword);
                crate::text::push_char(&mut t, ' ');
                let d = display_string(&v);
                t.append(d.as_str());
                t
            }
            None => String::new(),
        },
    }
}

fn fill_template(template: &str, params: Option<&Vec<(String, DataValue)>>) -> (r: String)
    ensures
        r@ == filled_template(template@, params_model(params)),
{
    proof {
        reveal_strlit("{WHERE}");
        reveal_strlit("{GROUP_BY}");
        reveal_strlit("{HAVING}");
        reveal_strlit("{ORDER_BY}");
        reveal_strlit("{LIMIT}");
        reveal_strlit("{OFFSET}");
    }
    let a = replace_text(template, "{WHERE}", placeholder_text(params, "WHERE", "WHERE").as_str());
    let b = replace_text(a.as_str(), "{GROUP_BY}", placeholder_text(params, "GROUP_BY", "GROUP BY").as_str());
    let c = replace_text(b.as_str(), "{HAVING}", placeholder_text(params, "HAVING", "HAVING").as_str());
    let d = replace_text(c.as_str(), "{ORDER_BY}", placeholder_text(params, "ORDER_BY", "ORDER BY").as_str());
    let e = replace_text(d.as_str(), "{LIMIT}", placeholder_text(params, "LIMIT", "LIMIT").as_str());
    replace_text(e.as_str(), "{OFFSET}", placeholder_text(params, "OFFSET", "OFFSET").as_str())
}

/// The SQLite query of a stored template (see `sqlite_template_query`).
pub fn build_sqlite_query_from_template(template: &str, params: Option<&Vec<(String, DataValue)>>) -> (r: String)
    ensures
        r@ == sqlite_template_query(template@, params_model(params)),
{
    proof {
        reveal_strlit("{WHERE}");
        reveal_strlit("{GROUP_BY}");
        reveal_strlit("{HAVING}");
        reveal_strlit("{ORDER_BY}");
        reveal_strlit("{LIMIT}");
        reveal_strlit("{OFFSET}");
        reveal_strlit("  ");
        reveal_strlit(" ,");
        reveal_strlit(", ");
    }
    proof { reveal_strlit(""); }
    assert(""@ =~= Seq::<char>::empty());
    let f = fill_template(template, params);
    let a = replace_text(f.as_str(), "{WHERE}", "");
    let b = replace_text(a.as_str(), "{GROUP_BY}", "");
    let c = replace_text(b.as_str(), "{HAVING}", "");
    let d = replace_text(c.as_str(), "{ORDER_BY}", "");
    let e = replace_text(d.as_str(), "{LIMIT}", "");
    let g = replace_text(e.as_str(), "{OFFSET}", "");
    let h = replace_text(g.as_str(), "  ", " ");
    let i = replace_text(h.as_str(), " ,", ",");
    let j = replace_text(i.as_str(), ", ", ", ");
    trim_text(j.as_str())
}

fn tidy_clauses(f: &str, limit_twice: bool) -> (r: String)
    ensures
        ({
            let a = replace_all(f@, "  "@, " "@);
            let b = replace_all(a, " ,"@, ","@);
            let c = replace_all(b, ", "@, ", "@);
            let d = replace_all(c, " WHERE "@, Seq::empty());
            let e = replace_all(d, " HAVING "@, Seq::empty());
            let g = replace_all(e, " ORDER BY "@, Seq::empty());
            let h = replace_all(g, " LIMIT "@, Seq::empty());
            let i = if limit_twice { replace_all(h, " LIMIT "@, Seq::empty()) } else { h };
            r@ == replace_all(i, " OFFSET "@, Seq::empty())
        }),
{
    proof {
        reveal_strlit("  ");
        reveal_strlit(" ,");
        reveal_strlit(", ");
        reveal_strlit(" WHERE ");
        reveal_strlit(" HAVING ");
        reveal_strlit(" ORDER BY ");
        reveal_strlit(" LIMIT ");
        reveal_strlit(" OFFSET ");
        reveal_strlit("");
    }
    assert(""@ =~= Seq::<char>::empty());
    let a = replace_text(f, "  ", " ");
    let b = replace_text(a.as_str(), " ,", ",");
    let c = replace_text(b.as_str(), ", ", ", ");
    let d = replace_text(c.as_str(), " WHERE ", "");
    let e = replace_text(d.as_str(), " HAVING ", "");
    let g = replace_text(e.as_str(), " ORDER BY ", "");
    let h = replace_text(g.as_str(), " LIMIT ", "");
    let i = if limit_twice { replace_text(h.as_str(), " LIMIT ", "") } else { h };
    replace_text(i.as_str(), " OFFSET ", "")
}

/// The MySQL query of a stored template (see `mysql_template_query`).
pub fn build_mysql_query_from_template(template: &str, params: Option<&Vec<(String, DataValue)>>) -> (r: String)
    ensures
        r@ == mysql_template_query(template@, params_model(params)),
{
    let f = fill_template(template, params);
    tidy_clauses(f.as_str(), false)
}

/// The PostgreSQL query of a stored template (see
/// `postgres_template_query`).
pub fn build_postgres_query_from_template(template: &str, params: Option<&Vec<(String, DataValue)>>) -> (r: String)
    ensures
        r@ == postgres_template_query(template@, params_model(params)),
{
    let f = fill_template(template, params);
    tidy_clauses(f.as_str(), true)
}

} // verus!
