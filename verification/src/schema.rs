//! Table and index definitions for SQLite and MySQL: the `CREATE TABLE`
//! statement of a model's fields and the `CREATE INDEX` statement of an
//! index.

use vstd::prelude::*;
use crate::models::{FieldKind, FieldType};
use crate::text::{decimal, join, join_strings, push_decimal, strings_view};
use crate::types::{IdRule, IdStrategy};

verus! {

/// A field of a model as a table column: its kind, whether it must
/// hold a value, and, for an array field, the type of its items.
#[derive(Debug)]
pub struct FieldDefinition {
    pub field_type: FieldType,
    pub required: bool,
    pub item_type: Option<FieldType>,
}

/// The model of a field definition.
pub struct FieldDefinitionView {
    pub kind: FieldKind,
    pub required: bool,
    pub item_kind: Option<FieldKind>,
}

impl View for FieldDefinition {
    type V = FieldDefinitionView;

    open spec fn view(&self) -> FieldDefinitionView {
        FieldDefinitionView {
            kind: self.field_type@,
            required: self.required,
            item_kind: match self.item_type {
                Some(t) => Some(t@),
                None => None,
            },
        }
    }
}

/// The SQLite column type of a field kind: `VARCHAR(n)` for strings with
/// a maximum length, `INTEGER` for integers and booleans, `REAL` for
/// floats and decimals, `BLOB` for binary data, and `TEXT` for every
/// other kind (date-times, UUIDs, JSON, arrays, objects and references
/// among them).
pub open spec fn sqlite_column_type(k: FieldKind) -> Seq<char> {
    match k {
        FieldKind::String { max_length: Some(n) } => "VARCHAR("@ + decimal(n as nat) + ")"@,
        FieldKind::Integer => "INTEGER"@,
        FieldKind::BigInteger => "INTEGER"@,
        FieldKind::Boolean => "INTEGER"@,
        FieldKind::Float => "REAL"@,
        FieldKind::Double => "REAL"@,
        FieldKind::Decimal { .. } => "REAL"@,
        FieldKind::Binary => "BLOB"@,
        _ => "TEXT"@,
    }
}

/// The definition of one column: `id` is the primary key; any other
/// column is `NOT NULL` when its field is required.
pub open spec fn sqlite_column(name: Seq<char>, d: FieldDefinitionView) -> Seq<char> {
    if name == "id"@ {
        name + " "@ + sqlite_column_type(d.kind) + " PRIMARY KEY"@
    } else {
        name + " "@ + sqlite_column_type(d.kind) + " "@ + (if d.required { "NOT NULL"@ } else { Seq::empty() })
    }
}

/// The `CREATE TABLE` statement of a model's fields: an auto-increment
/// `id` primary key first when no field is called `id`, then one column
/// per field.
pub open spec fn sqlite_create_table(table: Seq<char>, fields: Seq<(Seq<char>, FieldDefinitionView)>) -> Seq<char> {
    let implicit_id: Seq<Seq<char>> = if forall|i: int| 0 <= i < fields.len() ==> #[trigger] fields[i].0 != "id"@ {
        seq!["id INTEGER PRIMARY KEY AUTOINCREMENT"@]
    } else {
        Seq::empty()
    };
    let columns = implicit_id + fields.map_values(|f: (Seq<char>, FieldDefinitionView)| sqlite_column(f.0, f.1));
    "CREATE TABLE IF NOT EXISTS "@ + table + " ("@ + join(columns, ", "@) + ")"@
}

/// The SQLite column type of a field kind (see `sqlite_column_type`).
pub fn column_type_text(t: &FieldType) -> (r: String)
    ensures
        r@ == sqlite_column_type(t@),
{
    let mut r = String::new();
    match t {
        FieldType::String { max_length: Some(n) } => {
            r.append("VARCHAR(");
            push_decimal(&mut r, *n);
            r.append(")");
        }
        FieldType::Integer | FieldType::BigInteger | FieldType::Boolean => r.append("INTEGER"),
        FieldType::Float | FieldType::Double | FieldType::Decimal { .. } => r.append("REAL"),
        FieldType::Binary => r.append("BLOB"),
        _ => r.append("TEXT"),
    }
    proof {
        reveal_strlit("VARCHAR(");
        reveal_strlit(")");
        reveal_strlit("INTEGER");
        reveal_strlit("REAL");
        reveal_strlit("BLOB");
        reveal_strlit("TEXT");
    }
    r
}

fn column_text(name: &str, d: &FieldDefinition) -> (r: String)
    ensures
        r@ == sqlite_column(name@, d@),
{
    let mut r = String::new();
    r.append(name);
    r.append(" ");
    let ty = column_type_text(&d.field_type);
    r.append(ty.as_str());
    if crate::models::str_eq(name, "id") {
        r.append(" PRIMARY KEY");
    } else {
        r.append(" ");
        if d.required {
            r.append("NOT NULL");
        }
    }
    proof {
        reveal_strlit(" ");
        reveal_strlit(" PRIMARY KEY");
        reveal_strlit("NOT NULL");
    }
    assert(r@ =~= sqlite_column(name@, d@));
    r
}

/// The `CREATE TABLE` statement of a model's fields (see
/// `sqlite_create_table`).
pub fn sqlite_create_table_sql(table: &str, fields: &Vec<(String, FieldDefinition)>) -> (r: String)
    ensures
        r@ == sqlite_create_table(table@, fields@.map_values(|f: (String, FieldDefinition)| (f.0@, f.1@))),
{
    let ghost fs = fields@.map_values(|f: (String, FieldDefinition)| (f.0@, f.1@));
    let ghost cols = fs.map_values(|f: (Seq<char>, FieldDefinitionView)| sqlite_column(f.0, f.1));
    let mut has_id = false;
    let mut columns: Vec<String> = Vec::new();
    let mut i: usize = 0;
    while i < fields.len()
        invariant
            i <= fields.len(),
            fs == fields@.map_values(|f: (String, FieldDefinition)| (f.0@, f.1@)),
            cols == fs.map_values(|f: (Seq<char>, FieldDefinitionView)| sqlite_column(f.0, f.1)),
            has_id == exists|j: int| 0 <= j < i && #[trigger] fs[j].0 == "id"@,
            strings_view(columns@) == cols.subrange(0, i as int),
        decreases fields.len() - i,
    {
        if crate::models::str_eq(fields[i].0.as_str(), "id") {
            has_id = true;
        }
        let c = column_text(fields[i].0.as_str(), &fields[i].1);
        let ghost before = columns@;
        columns.push(c);
        assert(strings_view(columns@) =~= strings_view(before).push(cols[i as int]));
        assert(cols.subrange(0, i + 1) =~= cols.subrange(0, i as int).push(cols[i as int]));
        i = i + 1;
    }
    assert(cols.subrange(0, fields.len() as int) =~= cols);
    let mut all: Vec<String> = Vec::new();
    if !has_id {
        all.push("id INTEGER PRIMARY KEY AUTOINCREMENT".to_owned());
    }
    let ghost head = strings_view(all@);
    all.append(&mut columns);
    assert(strings_view(all@) =~= head + cols);
    let ghost implicit: Seq<Seq<char>> = if forall|k: int| 0 <= k < fs.len() ==> #[trigger] fs[k].0 != "id"@ {
        seq!["id INTEGER PRIMARY KEY AUTOINCREMENT"@]
    } else {
        Seq::empty()
    };
    proof {
        if has_id {
            let j = choose|j: int| 0 <= j < fields.len() && #[trigger] fs[j].0 == "id"@;
            assert(!(forall|k: int| 0 <= k < fs.len() ==> #[trigger] fs[k].0 != "id"@));
            assert(head =~= implicit);
        } else {
            assert forall|k: int| 0 <= k < fs.len() implies #[trigger] fs[k].0 != "id"@ by {
                if fs[k].0 == "id"@ {
                    assert(exists|j: int| 0 <= j < fields.len() && #[trigger] fs[j].0 == "id"@);
                }
            }
            assert(head =~= implicit);
        }
        reveal_strlit("CREATE TABLE IF NOT EXISTS ");
        reveal_strlit(" (");
        reveal_strlit(")");
        reveal_strlit(", ");
    }
    let body = join_strings(&all, ", ");
    let mut sql = String::new();
    sql.append("CREATE TABLE IF NOT EXISTS ");
    sql.append(table);
    sql.append(" (");
    sql.append(body.as_str());
    sql.append(")");
    sql
}

/// The `CREATE INDEX` statement of an index on `table`: `UNIQUE` when
/// asked, the fields comma separated.
pub open spec fn sqlite_create_index(table: Seq<char>, index_name: Seq<char>, fields: Seq<Seq<char>>, unique: bool) -> Seq<char> {
    "CREATE "@ + (if unique { "UNIQUE "@ } else { Seq::empty() }) + "INDEX IF NOT EXISTS "@ + index_name + " ON "@ + table
        + " ("@ + join(fields, ", "@) + ")"@
}

/// The `CREATE INDEX` statement of an index (see `sqlite_create_index`).
pub fn sqlite_create_index_sql(table: &str, index_name: &str, fields: &Vec<String>, unique: bool) -> (r: String)
    ensures
        r@ == sqlite_create_index(table@, index_name@, strings_view(fields@), unique),
{
    let list = join_strings(fields, ", ");
    let mut sql = String::new();
    sql.append("CREATE ");
    if unique {
        sql.append("UNIQUE ");
    }
    sql.append("INDEX IF NOT EXISTS ");
    sql.append(index_name);
    sql.append(" ON ");
    sql.append(table);
    sql.append(" (");
    sql.append(list.as_str());
    sql.append(")");
    proof {
        reveal_strlit("CREATE ");
        reveal_strlit("UNIQUE ");
        reveal_strlit("INDEX IF NOT EXISTS ");
        reveal_strlit(" ON ");
        reveal_strlit(" (");
        reveal_strlit(")");
        reveal_strlit(", ");
    }
    sql
}

/// The statement that drops a table when it exists, as the SQLite and
/// MySQL back ends write it.
pub open spec fn drop_table_statement(table: Seq<char>) -> Seq<char> {
    "DROP TABLE IF EXISTS "@ + table
}

/// The statement that drops a table (see `drop_table_statement`).
pub fn drop_table_sql(table: &str) -> (r: String)
    ensures
        r@ == drop_table_statement(table@),
{
    let mut sql = String::new();
    sql.append("DROP TABLE IF EXISTS ");
    sql.append(table);
    proof {
        reveal_strlit("DROP TABLE IF EXISTS ");
    }
    sql
}

/// The MySQL column type of a field kind.
pub open spec fn mysql_column_type(k: FieldKind) -> Seq<char> {
    match k {
        FieldKind::String { max_length: Some(n) } => "VARCHAR("@ + decimal(n as nat) + ")"@,
        FieldKind::String { max_length: None } => "VARCHAR(1000)"@,
        FieldKind::Integer => "INT"@,
        FieldKind::BigInteger => "BIGINT"@,
        FieldKind::Float => "FLOAT"@,
        FieldKind::Double => "DOUBLE"@,
        FieldKind::Text => "TEXT"@,
        FieldKind::Boolean => "BOOLEAN"@,
        FieldKind::DateTime => "DATETIME"@,
        FieldKind::DateTimeWithTz { .. } => "DATETIME"@,
        FieldKind::Date => "DATE"@,
        FieldKind::Time => "TIME"@,
        FieldKind::Uuid => "VARCHAR(36)"@,
        FieldKind::Json => "JSON"@,
        FieldKind::Binary => "BLOB"@,
        FieldKind::Decimal { precision, scale } => "DECIMAL("@ + decimal(precision as nat) + ","@ + decimal(scale as nat) + ")"@,
        FieldKind::Array => "JSON"@,
        FieldKind::Object => "JSON"@,
        FieldKind::Reference { .. } => "VARCHAR(255)"@,
    }
}

/// The MySQL `id` column of an id strategy.
pub open spec fn mysql_id_column(s: IdRule) -> Seq<char> {
    match s {
        IdRule::AutoIncrement => "id BIGINT AUTO_INCREMENT PRIMARY KEY"@,
        IdRule::ObjectId => "id VARCHAR(255) PRIMARY KEY"@,
        IdRule::Uuid => "id VARCHAR(36) PRIMARY KEY"@,
        IdRule::Snowflake { .. } => "id BIGINT PRIMARY KEY"@,
        IdRule::Custom(_) => "id VARCHAR(255) PRIMARY KEY"@,
    }
}

/// A MySQL column: name, type, and `NOT NULL` or `NULL`.
pub open spec fn mysql_column(name: Seq<char>, d: FieldDefinitionView) -> Seq<char> {
    name + " "@ + mysql_column_type(d.kind) + " "@ + (if d.required { "NOT NULL"@ } else { "NULL"@ })
}

/// The MySQL columns of the fields other than `id`.
pub open spec fn mysql_columns(fields: Seq<(Seq<char>, FieldDefinitionView)>) -> Seq<Seq<char>>
    decreases fields.len(),
{
    if fields.len() == 0 {
        Seq::empty()
    } else if fields.last().0 == "id"@ {
        mysql_columns(fields.drop_last())
    } else {
        mysql_columns(fields.drop_last()).push(mysql_column(fields.last().0, fields.last().1))
    }
}

/// The MySQL `CREATE TABLE` statement of a model's fields: the `id`
/// column of the id strategy first (a field called `id` gives way to it),
/// then one column per other field.
pub open spec fn mysql_create_table(table: Seq<char>, fields: Seq<(Seq<char>, FieldDefinitionView)>, s: IdRule) -> Seq<char> {
    "CREATE TABLE IF NOT EXISTS "@ + table + " ("@ + join(seq![mysql_id_column(s)] + mysql_columns(fields), ", "@) + ")"@
}

/// The MySQL column type of a field kind (see `mysql_column_type`).
pub fn mysql_column_type_text(t: &FieldType) -> (r: String)
    ensures
        r@ == mysql_column_type(t@),
{
    let mut r = String::new();
    match t {
        FieldType::String { max_length: Some(n) } => {
            r.append("VARCHAR(");
            push_decimal(&mut r, *n);
            r.append(")");
        }
        FieldType::String { max_length: None } => r.append("VARCHAR(1000)"),
        FieldType::Integer => r.append("INT"),
        FieldType::BigInteger => r.append("BIGINT"),
        FieldType::Float => r.append("FLOAT"),
        FieldType::Double => r.append("DOUBLE"),
        FieldType::Text => r.append("TEXT"),
        FieldType::Boolean => r.append("BOOLEAN"),
        FieldType::DateTime | FieldType::DateTimeWithTz { .. } => r.append("DATETIME"),
        FieldType::Date => r.append("DATE"),
        FieldType::Time => r.append("TIME"),
        FieldType::Uuid => r.append("VARCHAR(36)"),
        FieldType::Json | FieldType::Array | FieldType::Object => r.append("JSON"),
        FieldType::Binary => r.append("BLOB"),
        FieldType::Decimal { precision, scale } => {
            r.append("DECIMAL(");
            push_decimal(&mut r, *precision as u64);
            r.append(",");
            push_decimal(&mut r, *scale as u64);
            r.append(")");
        }
        FieldType::Reference { .. } => r.append("VARCHAR(255)"),
    }
    proof {
        reveal_strlit("VARCHAR(");
        reveal_strlit(")");
        reveal_strlit(",");
        reveal_strlit("DECIMAL(");
    }
    r
}

/// The MySQL `CREATE TABLE` statement of a model's fields (see
/// `mysql_create_table`).
pub fn mysql_create_table_sql(table: &str, fields: &Vec<(String, FieldDefinition)>, id_strategy: &IdStrategy) -> (r: String)
    ensures
        r@ == mysql_create_table(table@, fields@.map_values(|f: (String, FieldDefinition)| (f.0@, f.1@)), id_strategy@),
{
    let ghost fs = fields@.map_values(|f: (String, FieldDefinition)| (f.0@, f.1@));
    let id_column = match id_strategy {
        IdStrategy::AutoIncrement => "id BIGINT AUTO_INCREMENT PRIMARY KEY",
        IdStrategy::ObjectId => "id VARCHAR(255) PRIMARY KEY",
        IdStrategy::Uuid => "id VARCHAR(36) PRIMARY KEY",
        IdStrategy::Snowflake { .. } => "id BIGINT PRIMARY KEY",
        IdStrategy::Custom(_) => "id VARCHAR(255) PRIMARY KEY",
    };
    let mut columns: Vec<String> = Vec::new();
    columns.push(id_column.to_owned());
    let mut i: usize = 0;
    assert(fs.subrange(0, 0) =~= Seq::<(Seq<char>, FieldDefinitionView)>::empty());
    assert(strings_view(columns@) =~= seq![mysql_id_column(id_strategy@)] + mysql_columns(fs.subrange(0, 0)));
    while i < fields.len()
        invariant
            i <= fields.len(),
            fs == fields@.map_values(|f: (String, FieldDefinition)| (f.0@, f.1@)),
            strings_view(columns@) == seq![mysql_id_column(id_strategy@)] + mysql_columns(fs.subrange(0, i as int)),
        decreases fields.len() - i,
    {
        let ghost sub = fs.subrange(0, i + 1);
        assert(sub.drop_last() =~= fs.subrange(0, i as int));
        assert(sub.last() == (fields@[i as int].0@, fields@[i as int].1@));
        if !crate::models::str_eq(fields[i].0.as_str(), "id") {
            let mut c = String::new();
            c.append(fields[i].0.as_str());
            c.append(" ");
            let ty = mysql_column_type_text(&fields[i].1.field_type);
            c.append(ty.as_str());
            c.append(" ");
            if fields[i].1.required {
                c.append("NOT NULL");
            } else {
                c.append("NULL");
            }
            proof {
                reveal_strlit(" ");
                reveal_strlit("NOT NULL");
                reveal_strlit("NULL");
            }
            assert(c@ =~= mysql_column(fields@[i as int].0@, fields@[i as int].1@));
            let ghost before = strings_view(columns@);
            columns.push(c);
            assert(strings_view(columns@) =~= before.push(mysql_column(fields@[i as int].0@, fields@[i as int].1@)));
        }
        i = i + 1;
    }
    assert(fs.subrange(0, fields.len() as int) =~= fs);
    let body = join_strings(&columns, ", ");
    let mut sql = String::new();
    sql.append("CREATE TABLE IF NOT EXISTS ");
    sql.append(table);
    sql.append(" (");
    sql.append(body.as_str());
    sql.append(")");
    proof {
        reveal_strlit("CREATE TABLE IF NOT EXISTS ");
        reveal_strlit(" (");
        reveal_strlit(")");
        reveal_strlit(", ");
    }
    sql
}

/// The MySQL `CREATE INDEX` statement of an index: `UNIQUE` when asked,
/// the fields comma separated.
pub open spec fn mysql_create_index(table: Seq<char>, index_name: Seq<char>, fields: Seq<Seq<char>>, unique: bool) -> Seq<char> {
    "CREATE "@ + (if unique { "UNIQUE "@ } else { Seq::empty() }) + "INDEX "@ + index_name + " ON "@ + table
        + " ("@ + join(fields, ", "@) + ")"@
}

/// The MySQL `CREATE INDEX` statement of an index (see
/// `mysql_create_index`).
pub fn mysql_create_index_sql(table: &str, index_name: &str, fields: &Vec<String>, unique: bool) -> (r: String)
    ensures
        r@ == mysql_create_index(table@, index_name@, strings_view(fields@), unique),
{
    let list = join_strings(fields, ", ");
    let mut sql = String::new();
    sql.append("CREATE ");
    if unique {
        sql.append("UNIQUE ");
    }
    sql.append("INDEX ");
    sql.append(index_name);
    sql.append(" ON ");
    sql.append(table);
    sql.append(" (");
    sql.append(list.as_str());
    sql.append(")");
    proof {
        reveal_strlit("CREATE ");
        reveal_strlit("UNIQUE ");
        reveal_strlit("INDEX ");
        reveal_strlit(" ON ");
        reveal_strlit(" (");
        reveal_strlit(")");
        reveal_strlit(", ");
    }
    sql
}

/// Whether a column type is one of the integer types (`INT`, `BIGINT`,
/// `INTEGER`, `SMALLINT`, `TINYINT`).
pub open spec fn integer_column_type(t: Seq<char>) -> bool {
    t == seq!['I', 'N', 'T'] || t == seq!['B', 'I', 'G', 'I', 'N', 'T'] || t == seq!['I', 'N', 'T', 'E', 'G', 'E', 'R']
        || t == seq!['S', 'M', 'A', 'L', 'L', 'I', 'N', 'T'] || t == seq!['T', 'I', 'N', 'Y', 'I', 'N', 'T']
}

/// Fields that hold fractions get fractional column types: on MySQL a
/// float field is `FLOAT`, a double field `DOUBLE` and a decimal field
/// `DECIMAL(p,s)`; on SQLite all three are `REAL`. None of them is an
/// integer column type. Integer fields are `INT` and `BIGINT` on MySQL
/// and `INTEGER` on SQLite.
pub proof fn law_numeric_column_types(precision: u32, scale: u32)
    ensures
        mysql_column_type(FieldKind::Float) == seq!['F', 'L', 'O', 'A', 'T'],
        mysql_column_type(FieldKind::Double) == seq!['D', 'O', 'U', 'B', 'L', 'E'],
        mysql_column_type(FieldKind::Decimal { precision, scale })
            == seq!['D', 'E', 'C', 'I', 'M', 'A', 'L', '('] + decimal(precision as nat) + seq![','] + decimal(scale as nat) + seq![')'],
        mysql_column_type(FieldKind::Integer) == seq!['I', 'N', 'T'],
        mysql_column_type(FieldKind::BigInteger) == seq!['B', 'I', 'G', 'I', 'N', 'T'],
        sqlite_column_type(FieldKind::Float) == seq!['R', 'E', 'A', 'L'],
        sqlite_column_type(FieldKind::Double) == seq!['R', 'E', 'A', 'L'],
        sqlite_column_type(FieldKind::Decimal { precision, scale }) == seq!['R', 'E', 'A', 'L'],
        sqlite_column_type(FieldKind::Integer) == seq!['I', 'N', 'T', 'E', 'G', 'E', 'R'],
        !integer_column_type(mysql_column_type(FieldKind::Float)),
        !integer_column_type(mysql_column_type(FieldKind::Double)),
        !integer_column_type(mysql_column_type(FieldKind::Decimal { precision, scale })),
        !integer_column_type(sqlite_column_type(FieldKind::Float)),
        !integer_column_type(sqlite_column_type(FieldKind::Double)),
        !integer_column_type(sqlite_column_type(FieldKind::Decimal { precision, scale })),
{
    reveal_strlit("FLOAT");
    reveal_strlit("DOUBLE");
    reveal_strlit("DECIMAL(");
    reveal_strlit(",");
    reveal_strlit(")");
    reveal_strlit("INT");
    reveal_strlit("BIGINT");
    reveal_strlit("REAL");
    reveal_strlit("INTEGER");
    let d = mysql_column_type(FieldKind::Decimal { precision, scale });
    assert(d =~= seq!['D', 'E', 'C', 'I', 'M', 'A', 'L', '('] + decimal(precision as nat) + seq![','] + decimal(scale as nat) + seq![')']);
    assert(d[0] == 'D');
}

/// The MySQL column types of the other field kinds: text is `TEXT`, a
/// boolean `BOOLEAN`, date-times (with or without a time zone)
/// `DATETIME`, a date `DATE`, a time `TIME`, a UUID `VARCHAR(36)`, JSON,
/// arrays and objects `JSON`, binary data `BLOB`, a reference
/// `VARCHAR(255)`, and a string without a maximum length
/// `VARCHAR(1000)`.
pub proof fn law_mysql_column_types(tz: Seq<char>, target: Seq<char>)
    ensures
        mysql_column_type(FieldKind::Text) == seq!['T', 'E', 'X', 'T'],
        mysql_column_type(FieldKind::Boolean) == seq!['B', 'O', 'O', 'L', 'E', 'A', 'N'],
        mysql_column_type(FieldKind::DateTime) == seq!['D', 'A', 'T', 'E', 'T', 'I', 'M', 'E'],
        mysql_column_type(FieldKind::DateTimeWithTz { timezone_offset: tz }) == seq!['D', 'A', 'T', 'E', 'T', 'I', 'M', 'E'],
        mysql_column_type(FieldKind::Date) == seq!['D', 'A', 'T', 'E'],
        mysql_column_type(FieldKind::Time) == seq!['T', 'I', 'M', 'E'],
        mysql_column_type(FieldKind::Uuid) == seq!['V', 'A', 'R', 'C', 'H', 'A', 'R', '(', '3', '6', ')'],
        mysql_column_type(FieldKind::Json) == seq!['J', 'S', 'O', 'N'],
        mysql_column_type(FieldKind::Array) == seq!['J', 'S', 'O', 'N'],
        mysql_column_type(FieldKind::Object) == seq!['J', 'S', 'O', 'N'],
        mysql_column_type(FieldKind::Binary) == seq!['B', 'L', 'O', 'B'],
        mysql_column_type(FieldKind::Reference { target_collection: target })
            == seq!['V', 'A', 'R', 'C', 'H', 'A', 'R', '(', '2', '5', '5', ')'],
        mysql_column_type(FieldKind::String { max_length: None })
            == seq!['V', 'A', 'R', 'C', 'H', 'A', 'R', '(', '1', '0', '0', '0', ')'],
{
    reveal_strlit("TEXT");
    reveal_strlit("BOOLEAN");
    reveal_strlit("DATETIME");
    reveal_strlit("DATE");
    reveal_strlit("TIME");
    reveal_strlit("VARCHAR(36)");
    reveal_strlit("JSON");
    reveal_strlit("BLOB");
    reveal_strlit("VARCHAR(255)");
    reveal_strlit("VARCHAR(1000)");
}

/// The SQLite column types of the other field kinds: big integers and
/// booleans are `INTEGER`, binary data `BLOB`, and text, strings without a
/// maximum length, date-times, dates, times, UUIDs, JSON, arrays, objects
/// and references `TEXT`.
pub proof fn law_sqlite_column_types(tz: Seq<char>, target: Seq<char>)
    ensures
        sqlite_column_type(FieldKind::BigInteger) == seq!['I', 'N', 'T', 'E', 'G', 'E', 'R'],
        sqlite_column_type(FieldKind::Boolean) == seq!['I', 'N', 'T', 'E', 'G', 'E', 'R'],
        sqlite_column_type(FieldKind::Binary) == seq!['B', 'L', 'O', 'B'],
        sqlite_column_type(FieldKind::Text) == seq!['T', 'E', 'X', 'T'],
        sqlite_column_type(FieldKind::String { max_length: None }) == seq!['T', 'E', 'X', 'T'],
        sqlite_column_type(FieldKind::DateTime) == seq!['T', 'E', 'X', 'T'],
        sqlite_column_type(FieldKind::DateTimeWithTz { timezone_offset: tz }) == seq!['T', 'E', 'X', 'T'],
        sqlite_column_type(FieldKind::Date) == seq!['T', 'E', 'X', 'T'],
        sqlite_column_type(FieldKind::Time) == seq!['T', 'E', 'X', 'T'],
        sqlite_column_type(FieldKind::Uuid) == seq!['T', 'E', 'X', 'T'],
        sqlite_column_type(FieldKind::Json) == seq!['T', 'E', 'X', 'T'],
        sqlite_column_type(FieldKind::Array) == seq!['T', 'E', 'X', 'T'],
        sqlite_column_type(FieldKind::Object) == seq!['T', 'E', 'X', 'T'],
        sqlite_column_type(FieldKind::Reference { target_collection: target }) == seq!['T', 'E', 'X', 'T'],
{
    reveal_strlit("INTEGER");
    reveal_strlit("BLOB");
    reveal_strlit("TEXT");
}

} // verus!
