//! Stored procedures of the SQL back ends: the SELECT a procedure runs,
//! over its first dependency joined with the others, as an SQLite
//! `CREATE PROCEDURE` statement or as a PostgreSQL query template whose
//! placeholders `templates` fills.

use vstd::prelude::*;
use crate::error::{QuickDbError, ErrorKind, validation_error};
use crate::models::{ModelMeta, ModelView};
use crate::mongo_procedures::MongoAggregationOperation;
use crate::query_builder::{JoinClause, JoinType, JoinView, join_text, push_join_text};
use crate::text::{join, join_strings, strings_view};

verus! {

/// A table a stored procedure joins: `local_field` of the table before
/// it is matched with `foreign_field` of this one.
#[derive(Debug)]
pub struct ProcedureJoin {
    pub table: String,
    pub local_field: String,
    pub foreign_field: String,
    pub join_type: JoinType,
}

/// The model of a procedure join.
pub struct ProcedureJoinView {
    pub table: Seq<char>,
    pub local_field: Seq<char>,
    pub foreign_field: Seq<char>,
    pub join_type: JoinType,
}

impl View for ProcedureJoin {
    type V = ProcedureJoinView;

    open spec fn view(&self) -> ProcedureJoinView {
        ProcedureJoinView {
            table: self.table@,
            local_field: self.local_field@,
            foreign_field: self.foreign_field@,
            join_type: self.join_type,
        }
    }
}

/// What a stored procedure selects: its name, the database it belongs
/// to, the models it reads (the first is the main table), its output
/// fields as `(alias, expression)` pairs, its joins, and, for the
/// document store, the aggregation pipeline that replaces the fields and
/// joins when it is given.
pub struct StoredProcedureConfig {
    pub procedure_name: String,
    pub database: String,
    pub dependencies: Vec<ModelMeta>,
    pub fields: Vec<(String, String)>,
    pub joins: Vec<ProcedureJoin>,
    pub mongo_pipeline: Option<Vec<MongoAggregationOperation>>,
}

/// The model of a procedure configuration.
pub struct ProcedureView {
    pub procedure_name: Seq<char>,
    pub database: Seq<char>,
    pub dependencies: Seq<ModelView>,
    pub fields: Seq<(Seq<char>, Seq<char>)>,
    pub joins: Seq<ProcedureJoinView>,
}

impl View for StoredProcedureConfig {
    type V = ProcedureView;

    open spec fn view(&self) -> ProcedureView {
        ProcedureView {
            procedure_name: self.procedure_name@,
            database: self.database@,
            dependencies: self.dependencies@.map_values(|m: ModelMeta| m@),
            fields: self.fields@.map_values(|f: (String, String)| (f.0@, f.1@)),
            joins: self.joins@.map_values(|j: ProcedureJoin| j@),
        }
    }
}

/// An output field: the expression, named by its alias when the two
/// differ.
pub open spec fn select_item(alias: Seq<char>, expr: Seq<char>) -> Seq<char> {
    if alias == expr { expr } else { expr + " AS "@ + alias }
}

/// The output fields, comma separated.
pub open spec fn select_list(fields: Seq<(Seq<char>, Seq<char>)>) -> Seq<char> {
    join(fields.map_values(|f: (Seq<char>, Seq<char>)| select_item(f.0, f.1)), ", "@)
}

/// The name of the check that asks for a main table.
pub open spec fn dependencies_key() -> Seq<char> {
    seq!['d', 'e', 'p', 'e', 'n', 'd', 'e', 'n', 'c', 'i', 'e', 's']
}

/// A PostgreSQL join, whose fields already name their tables.
pub open spec fn postgres_join(j: ProcedureJoinView) -> Seq<char> {
    join_text(JoinView { join_type: j.join_type, table: j.table, on_condition: j.local_field + " = "@ + j.foreign_field })
}

/// The PostgreSQL query template of a procedure: its SELECT over the
/// first dependency's table with the joins, followed by the `{WHERE}`,
/// `{GROUP_BY}`, `{HAVING}`, `{ORDER_BY}`, `{LIMIT}` and `{OFFSET}`
/// placeholders; a validation error about `dependencies` when it has no
/// dependency.
pub open spec fn postgres_procedure_template(c: ProcedureView) -> Result<Seq<char>, ErrorKind> {
    if c.dependencies.len() == 0 {
        Err(ErrorKind::Validation { field: dependencies_key() })
    } else {
        let joins = c.joins.map_values(|j: ProcedureJoinView| postgres_join(j));
        Ok("SELECT "@ + select_list(c.fields) + " FROM "@ + c.dependencies[0].table
            + (if joins.len() == 0 { Seq::empty() } else { " "@ + join(joins, " "@) })
            + "{WHERE}{GROUP_BY}{HAVING}{ORDER_BY}{LIMIT}{OFFSET}"@)
    }
}

/// An SQLite join: `local_field` of the previous table (the main table
/// for the first join) against `foreign_field` of the joined one.
pub open spec fn sqlite_join(j: ProcedureJoinView, local_table: Seq<char>) -> Seq<char> {
    join_text(JoinView {
        join_type: j.join_type,
        table: j.table,
        on_condition: local_table + "."@ + j.local_field + " = "@ + j.table + "."@ + j.foreign_field,
    })
}

/// The SQLite joins of a procedure over its main table.
pub open spec fn sqlite_joins(joins: Seq<ProcedureJoinView>, base: Seq<char>) -> Seq<Seq<char>> {
    Seq::new(joins.len(), |i: int| sqlite_join(joins[i], if i == 0 { base } else { joins[i - 1].table }))
}

/// The SQLite `CREATE PROCEDURE` statement of a procedure; a validation
/// error about `dependencies` when it has no dependency.
pub open spec fn sqlite_procedure_sql(c: ProcedureView) -> Result<Seq<char>, ErrorKind> {
    if c.dependencies.len() == 0 {
        Err(ErrorKind::Validation { field: dependencies_key() })
    } else {
        let base = c.dependencies[0].table;
        Ok("CREATE PROCEDURE IF NOT EXISTS "@ + c.procedure_name + "()\nAS BEGIN\n    SELECT "@ + select_list(c.fields)
            + "\n    FROM "@ + base + join(sqlite_joins(c.joins, base), " "@) + "\n; END"@)
    }
}

fn select_items_text(fields: &Vec<(String, String)>) -> (r: String)
    ensures
        r@ == select_list(fields@.map_values(|f: (String, String)| (f.0@, f.1@))),
{
    let ghost fs = fields@.map_values(|f: (String, String)| (f.0@, f.1@));
    let ghost items = fs.map_values(|f: (Seq<char>, Seq<char>)| select_item(f.0, f.1));
    let mut parts: Vec<String> = Vec::new();
    let mut i: usize = 0;
    while i < fields.len()
        invariant
            i <= fields.len(),
            fs == fields@.map_values(|f: (String, String)| (f.0@, f.1@)),
            items == fs.map_values(|f: (Seq<char>, Seq<char>)| select_item(f.0, f.1)),
            strings_view(parts@) == items.subrange(0, i as int),
        decreases fields.len() - i,
    {
        let (alias, expr) = (&fields[i].0, &fields[i].1);
        let mut t = String::new();
        t.append(expr.as_str());
        if !crate::models::str_eq(alias.as_str(), expr.as_str()) {
            t.append(" AS ");
            t.append(alias.as_str());
        }
        proof { reveal_strlit(" AS "); }
        assert(t@ == items[i as int]);
        let ghost before = parts@;
        parts.push(t);
        assert(strings_view(parts@) =~= strings_view(before).push(items[i as int]));
        assert(items.subrange(0, i + 1) =~= items.subrange(0, i as int).push(items[i as int]));
        i = i + 1;
    }
    assert(items.subrange(0, fields.len() as int) =~= items);
    proof { reveal_strlit(", "); }
    join_strings(&parts, ", ")
}

/// The PostgreSQL query template of a procedure (see
/// `postgres_procedure_template`).
pub fn generate_postgres_procedure_template(config: &StoredProcedureConfig) -> (r: Result<String, QuickDbError>)
    ensures
        match (r, postgres_procedure_template(config@)) {
            (Ok(x), Ok(y)) => x@ == y,
            (Err(e), Err(k)) => e@ == k,
            _ => false,
        },
{
    if config.dependencies.len() == 0 {
        proof { reveal_strlit("dependencies"); }
        assert("dependencies"@ == dependencies_key());
        return Err(validation_error("dependencies", "至少需要一个依赖表作为主表"));
    }
    let ghost c = config@;
    let ghost joins = c.joins.map_values(|j: ProcedureJoinView| postgres_join(j));
    let mut join_parts: Vec<String> = Vec::new();
    let mut i: usize = 0;
    while i < config.joins.len()
        invariant
            i <= config.joins.len(),
            c == config@,
            joins == c.joins.map_values(|j: ProcedureJoinView| postgres_join(j)),
            strings_view(join_parts@) == joins.subrange(0, i as int),
        decreases config.joins.len() - i,
    {
        let j = &config.joins[i];
        let mut on = String::new();
        on.append(j.local_field.as_str());
        on.append(" = ");
        on.append(j.foreign_field.as_str());
        let clause = JoinClause { join_type: j.join_type, table: j.table.clone(), on_condition: on };
        let mut t = String::new();
        push_join_text(&mut t, &clause);
        proof { reveal_strlit(" = "); }
        assert(t@ == joins[i as int]);
        let ghost before = join_parts@;
        join_parts.push(t);
        assert(strings_view(join_parts@) =~= strings_view(before).push(joins[i as int]));
        assert(joins.subrange(0, i + 1) =~= joins.subrange(0, i as int).push(joins[i as int]));
        i = i + 1;
    }
    assert(joins.subrange(0, config.joins.len() as int) =~= joins);
    let mut sql = String::new();
    sql.append("SELECT ");
    let items = select_items_text(&config.fields);
    sql.append(items.as_str());
    sql.append(" FROM ");
    sql.append(config.dependencies[0].collection_name.as_str());
    let ghost head = sql@;
    if join_parts.len() > 0 {
        sql.append(" ");
        let js = join_strings(&join_parts, " ");
        sql.append(js.as_str());
    }
    sql.append("{WHERE}{GROUP_BY}{HAVING}{ORDER_BY}{LIMIT}{OFFSET}");
    proof {
        reveal_strlit("SELECT ");
        reveal_strlit(" FROM ");
        reveal_strlit(" ");
    }
    assert(c.dependencies[0].table == config.dependencies@[0].collection_name@);
    Ok(sql)
}

/// The SQLite `CREATE PROCEDURE` statement of a procedure (see
/// `sqlite_procedure_sql`).
pub fn generate_sqlite_procedure_sql(config: &StoredProcedureConfig) -> (r: Result<String, QuickDbError>)
    ensures
        match (r, sqlite_procedure_sql(config@)) {
            (Ok(x), Ok(y)) => x@ == y,
            (Err(e), Err(k)) => e@ == k,
            _ => false,
        },
{
    if config.dependencies.len() == 0 {
        proof { reveal_strlit("dependencies"); }
        assert("dependencies"@ == dependencies_key());
        return Err(validation_error("dependencies", "至少需要一个依赖表作为主表"));
    }
    let ghost c = config@;
    let base = &config.dependencies[0].collection_name;
    assert(c.dependencies[0].table == base@);
    let ghost joins = sqlite_joins(c.joins, base@);
    let mut join_parts: Vec<String> = Vec::new();
    let mut i: usize = 0;
    while i < config.joins.len()
        invariant
            i <= config.joins.len(),
            c == config@,
            joins == sqlite_joins(c.joins, base@),
            strings_view(join_parts@) == joins.subrange(0, i as int),
        decreases config.joins.len() - i,
    {
        let j = &config.joins[i];
        let local = if i == 0 { base } else { &config.joins[i - 1].table };
        let mut on = String::new();
        on.append(local.as_str());
        on.append(".");
        on.append(j.local_field.as_str());
        on.append(" = ");
        on.append(j.table.as_str());
        on.append(".");
        on.append(j.foreign_field.as_str());
        let clause = JoinClause { join_type: j.join_type, table: j.table.clone(), on_condition: on };
        let mut t = String::new();
        push_join_text(&mut t, &clause);
        proof {
            reveal_strlit(" = ");
            reveal_strlit(".");
        }
        assert(t@ == joins[i as int]);
        let ghost before = join_parts@;
        join_parts.push(t);
        assert(strings_view(join_parts@) =~= strings_view(before).push(joins[i as int]));
        assert(joins.subrange(0, i + 1) =~= joins.subrange(0, i as int).push(joins[i as int]));
        i = i + 1;
    }
    assert(joins.subrange(0, config.joins.len() as int) =~= joins);
    let mut sql = String::new();
    sql.append("CREATE PROCEDURE IF NOT EXISTS ");
    sql.append(config.procedure_name.as_str());
    sql.append("()\nAS BEGIN\n    SELECT ");
    let items = select_items_text(&config.fields);
    sql.append(items.as_str());
    sql.append("\n    FROM ");
    sql.append(base.as_str());
    let js = join_strings(&join_parts, " ");
    sql.append(js.as_str());
    sql.append("\n; END");
    Ok(sql)
}

} // verus!
