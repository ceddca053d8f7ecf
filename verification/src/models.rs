//! Model metadata: the registered tables and the kinds of their fields.

use vstd::prelude::*;

verus! {

/// The kind of a model field.
#[derive(Debug)]
pub enum FieldType {
    String { max_length: Option<u64> },
    Integer,
    BigInteger,
    Float,
    Double,
    Text,
    Boolean,
    DateTime,
    DateTimeWithTz { timezone_offset: String },
    Date,
    Time,
    Uuid,
    Json,
    Binary,
    Decimal { precision: u32, scale: u32 },
    Array,
    Object,
    Reference { target_collection: String },
}

/// The model of a field kind.
pub enum FieldKind {
    String { max_length: Option<u64> },
    Integer,
    BigInteger,
    Float,
    Double,
    Text,
    Boolean,
    DateTime,
    DateTimeWithTz { timezone_offset: Seq<char> },
    Date,
    Time,
    Uuid,
    Json,
    Binary,
    Decimal { precision: u32, scale: u32 },
    Array,
    Object,
    Reference { target_collection: Seq<char> },
}

impl View for FieldType {
    type V = FieldKind;

    open spec fn view(&self) -> FieldKind {
        match self {
            FieldType::String { max_length } => FieldKind::String { max_length: *max_length },
            FieldType::Integer => FieldKind::Integer,
            FieldType::BigInteger => FieldKind::BigInteger,
            FieldType::Float => FieldKind::Float,
            FieldType::Double => FieldKind::Double,
            FieldType::Text => FieldKind::Text,
            FieldType::Boolean => FieldKind::Boolean,
            FieldType::DateTime => FieldKind::DateTime,
            FieldType::DateTimeWithTz { timezone_offset } => FieldKind::DateTimeWithTz { timezone_offset: timezone_offset@ },
            FieldType::Date => FieldKind::Date,
            FieldType::Time => FieldKind::Time,
            FieldType::Uuid => FieldKind::Uuid,
            FieldType::Json => FieldKind::Json,
            FieldType::Binary => FieldKind::Binary,
            FieldType::Decimal { precision, scale } => FieldKind::Decimal { precision: *precision, scale: *scale },
            FieldType::Array => FieldKind::Array,
            FieldType::Object => FieldKind::Object,
            FieldType::Reference { target_collection } => FieldKind::Reference { target_collection: target_collection@ },
        }
    }
}

impl FieldType {
    /// A copy with the same model.
    pub fn duplicate(&self) -> (r: FieldType)
        ensures
            r@ == self@,
    {
        match self {
            FieldType::String { max_length } => FieldType::String { max_length: *max_length },
            FieldType::Integer => FieldType::Integer,
            FieldType::BigInteger => FieldType::BigInteger,
            FieldType::Float => FieldType::Float,
            FieldType::Double => FieldType::Double,
            FieldType::Text => FieldType::Text,
            FieldType::Boolean => FieldType::Boolean,
            FieldType::DateTime => FieldType::DateTime,
            FieldType::DateTimeWithTz { timezone_offset } => FieldType::DateTimeWithTz { timezone_offset: timezone_offset.clone() },
            FieldType::Date => FieldType::Date,
            FieldType::Time => FieldType::Time,
            FieldType::Uuid => FieldType::Uuid,
            FieldType::Json => FieldType::Json,
            FieldType::Binary => FieldType::Binary,
            FieldType::Decimal { precision, scale } => FieldType::Decimal { precision: *precision, scale: *scale },
            FieldType::Array => FieldType::Array,
            FieldType::Object => FieldType::Object,
            FieldType::Reference { target_collection } => FieldType::Reference { target_collection: target_collection.clone() },
        }
    }
}

/// The metadata of one registered model: its table, the database alias it
/// belongs to, and its fields in order.
pub struct ModelMeta {
    pub collection_name: String,
    pub database_alias: String,
    pub fields: Vec<(String, FieldType)>,
}

/// The registered models.
pub struct ModelRegistry {
    pub models: Vec<ModelMeta>,
}

/// The model of one registered model.
pub struct ModelView {
    pub table: Seq<char>,
    pub alias: Seq<char>,
    pub fields: Seq<(Seq<char>, FieldKind)>,
}

impl View for ModelMeta {
    type V = ModelView;

    open spec fn view(&self) -> ModelView {
        ModelView {
            table: self.collection_name@,
            alias: self.database_alias@,
            fields: self.fields@.map_values(|f: (String, FieldType)| (f.0@, f.1@)),
        }
    }
}

impl View for ModelRegistry {
    type V = Seq<ModelView>;

    open spec fn view(&self) -> Seq<ModelView> {
        self.models@.map_values(|m: ModelMeta| m@)
    }
}

/// The index of the first field called `name`, if any.
pub open spec fn first_field(fields: Seq<(Seq<char>, FieldKind)>, name: Seq<char>) -> Option<int>
    decreases fields.len(),
{
    if fields.len() == 0 {
        None
    } else if fields.last().0 == name && first_field(fields.drop_last(), name) is None {
        Some(fields.len() - 1)
    } else {
        first_field(fields.drop_last(), name)
    }
}

/// The index of the first model for `table`, whatever its alias.
pub open spec fn first_model_for_table(models: Seq<ModelView>, table: Seq<char>) -> Option<int>
    decreases models.len(),
{
    if models.len() == 0 {
        None
    } else if models.last().table == table && first_model_for_table(models.drop_last(), table) is None {
        Some(models.len() - 1)
    } else {
        first_model_for_table(models.drop_last(), table)
    }
}

/// The index of the first model for `table` under `alias`.
pub open spec fn first_model(models: Seq<ModelView>, table: Seq<char>, alias: Seq<char>) -> Option<int>
    decreases models.len(),
{
    if models.len() == 0 {
        None
    } else if models.last().table == table && models.last().alias == alias
        && first_model(models.drop_last(), table, alias) is None {
        Some(models.len() - 1)
    } else {
        first_model(models.drop_last(), table, alias)
    }
}

/// The kind of `field` in the model at `index`, if the model has it.
pub open spec fn field_kind_in(models: Seq<ModelView>, index: Option<int>, field: Seq<char>) -> Option<FieldKind> {
    match index {
        Some(m) => match first_field(models[m].fields, field) {
            Some(f) => Some(models[m].fields[f].1),
            None => None,
        },
        None => None,
    }
}

/// The kind of `field` in the model registered for `table` under `alias`.
pub open spec fn field_kind(models: Seq<ModelView>, table: Seq<char>, alias: Seq<char>, field: Seq<char>) -> Option<FieldKind> {
    field_kind_in(models, first_model(models, table, alias), field)
}

/// The kind of `field` in the first model registered for `table`.
pub open spec fn table_field_kind(models: Seq<ModelView>, table: Seq<char>, field: Seq<char>) -> Option<FieldKind> {
    field_kind_in(models, first_model_for_table(models, table), field)
}

pub open spec fn option_kind(o: Option<FieldType>) -> Option<FieldKind> {
    match o {
        Some(t) => Some(t@),
        None => None,
    }
}

proof fn lemma_first_field_prefix(fields: Seq<(Seq<char>, FieldKind)>, name: Seq<char>, i: int)
    requires
        0 <= i <= fields.len(),
    ensures
        first_field(fields.subrange(0, i), name) is None ==> (forall|j: int| 0 <= j < i ==> fields[j].0 != name),
        (forall|j: int| 0 <= j < i ==> fields[j].0 != name) ==> first_field(fields.subrange(0, i), name) is None,
        first_field(fields.subrange(0, i), name) matches Some(k) ==> 0 <= k < i && fields[k].0 == name,
    decreases i,
{
    if i > 0 {
        lemma_first_field_prefix(fields, name, i - 1);
        assert(fields.subrange(0, i).drop_last() =~= fields.subrange(0, i - 1));
    }
}

proof fn lemma_first_model_prefix(models: Seq<ModelView>, table: Seq<char>, alias: Seq<char>, i: int)
    requires
        0 <= i <= models.len(),
    ensures
        (forall|j: int| 0 <= j < i ==> !(models[j].table == table && models[j].alias == alias))
            ==> first_model(models.subrange(0, i), table, alias) is None,
        first_model(models.subrange(0, i), table, alias) matches Some(k) ==> 0 <= k < i,
    decreases i,
{
    if i > 0 {
        lemma_first_model_prefix(models, table, alias, i - 1);
        assert(models.subrange(0, i).drop_last() =~= models.subrange(0, i - 1));
    }
}

proof fn lemma_first_model_for_table_prefix(models: Seq<ModelView>, table: Seq<char>, i: int)
    requires
        0 <= i <= models.len(),
    ensures
        (forall|j: int| 0 <= j < i ==> models[j].table != table)
            ==> first_model_for_table(models.subrange(0, i), table) is None,
        first_model_for_table(models.subrange(0, i), table) matches Some(k) ==> 0 <= k < i,
    decreases i,
{
    if i > 0 {
        lemma_first_model_for_table_prefix(models, table, i - 1);
        assert(models.subrange(0, i).drop_last() =~= models.subrange(0, i - 1));
    }
}

/// Once no earlier entry matches and entry `i` does, the first match is `i`
/// in every longer prefix.
proof fn lemma_first_field_found(fields: Seq<(Seq<char>, FieldKind)>, name: Seq<char>, i: int, n: int)
    requires
        0 <= i < n <= fields.len(),
        fields[i].0 == name,
        forall|j: int| 0 <= j < i ==> fields[j].0 != name,
    ensures
        first_field(fields.subrange(0, n), name) == Some(i),
    decreases n,
{
    if n == i + 1 {
        lemma_first_field_prefix(fields, name, i);
        assert(fields.subrange(0, n).drop_last() =~= fields.subrange(0, i));
    } else {
        lemma_first_field_found(fields, name, i, n - 1);
        assert(fields.subrange(0, n).drop_last() =~= fields.subrange(0, n - 1));
    }
}

proof fn lemma_first_model_found(models: Seq<ModelView>, table: Seq<char>, alias: Seq<char>, i: int, n: int)
    requires
        0 <= i < n <= models.len(),
        models[i].table == table && models[i].alias == alias,
        forall|j: int| 0 <= j < i ==> !(models[j].table == table && models[j].alias == alias),
    ensures
        first_model(models.subrange(0, n), table, alias) == Some(i),
    decreases n,
{
    if n == i + 1 {
        lemma_first_model_prefix(models, table, alias, i);
        assert(models.subrange(0, n).drop_last() =~= models.subrange(0, i));
    } else {
        lemma_first_model_found(models, table, alias, i, n - 1);
        assert(models.subrange(0, n).drop_last() =~= models.subrange(0, n - 1));
    }
}

proof fn lemma_first_model_for_table_found(models: Seq<ModelView>, table: Seq<char>, i: int, n: int)
    requires
        0 <= i < n <= models.len(),
        models[i].table == table,
        forall|j: int| 0 <= j < i ==> models[j].table != table,
    ensures
        first_model_for_table(models.subrange(0, n), table) == Some(i),
    decreases n,
{
    if n == i + 1 {
        lemma_first_model_for_table_prefix(models, table, i);
        assert(models.subrange(0, n).drop_last() =~= models.subrange(0, i));
    } else {
        lemma_first_model_for_table_found(models, table, i, n - 1);
        assert(models.subrange(0, n).drop_last() =~= models.subrange(0, n - 1));
    }
}

pub(crate) fn str_eq(a: &str, b: &str) -> (r: bool)
    ensures
        r == (a@ == b@),
{
    let n = a.unicode_len();
    let m = b.unicode_len();
    if n != m {
        return false;
    }
    let mut i: usize = 0;
    while i < n
        invariant
            n == a@.len(),
            m == b@.len(),
            n == m,
            i <= n,
            forall|j: int| 0 <= j < i ==> a@[j] == b@[j],
        decreases n - i,
    {
        if a.get_char(i) != b.get_char(i) {
            return false;
        }
        i = i + 1;
    }
    assert(a@ =~= b@);
    true
}

impl ModelMeta {
    /// The kind of the first field called `name`.
    pub fn field_type(&self, name: &str) -> (r: Option<FieldType>)
        ensures
            option_kind(r) == (match first_field(self@.fields, name@) {
                Some(f) => Some(self@.fields[f].1),
                None => None,
            }),
    {
        let ghost fs = self@.fields;
        let mut i: usize = 0;
        while i < self.fields.len()
            invariant
                i <= self.fields.len(),
                fs == self@.fields,
                fs.len() == self.fields@.len(),
                forall|j: int| 0 <= j < i ==> fs[j].0 != name@,
            decreases self.fields.len() - i,
        {
            if str_eq(self.fields[i].0.as_str(), name) {
                proof {
                    lemma_first_field_found(fs, name@, i as int, fs.len() as int);
                    assert(fs.subrange(0, fs.len() as int) =~= fs);
                }
                return Some(self.fields[i].1.duplicate());
            }
            i = i + 1;
        }
        proof {
            lemma_first_field_prefix(fs, name@, fs.len() as int);
            assert(fs.subrange(0, fs.len() as int) =~= fs);
        }
        None
    }
}

impl ModelRegistry {
    /// The first model registered for `table` under `alias`.
    pub fn find_model(&self, table: &str, alias: &str) -> (r: Option<usize>)
        ensures
            r matches Some(i) ==> i < self.models@.len(),
            (match r { Some(i) => Some(i as int), None => None }) == first_model(self@, table@, alias@),
    {
        let ghost ms = self@;
        let mut i: usize = 0;
        while i < self.models.len()
            invariant
                i <= self.models.len(),
                ms == self@,
                ms.len() == self.models@.len(),
                forall|j: int| 0 <= j < i ==> !(ms[j].table == table@ && ms[j].alias == alias@),
            decreases self.models.len() - i,
        {
            if str_eq(self.models[i].collection_name.as_str(), table)
                && str_eq(self.models[i].database_alias.as_str(), alias) {
                proof {
                    lemma_first_model_found(ms, table@, alias@, i as int, ms.len() as int);
                    assert(ms.subrange(0, ms.len() as int) =~= ms);
                }
                return Some(i);
            }
            i = i + 1;
        }
        proof {
            lemma_first_model_prefix(ms, table@, alias@, ms.len() as int);
            assert(ms.subrange(0, ms.len() as int) =~= ms);
        }
        None
    }

    /// The first model registered for `table`, whatever its alias.
    pub fn find_model_for_table(&self, table: &str) -> (r: Option<usize>)
        ensures
            r matches Some(i) ==> i < self.models@.len(),
            (match r { Some(i) => Some(i as int), None => None }) == first_model_for_table(self@, table@),
    {
        let ghost ms = self@;
        let mut i: usize = 0;
        while i < self.models.len()
            invariant
                i <= self.models.len(),
                ms == self@,
                ms.len() == self.models@.len(),
                forall|j: int| 0 <= j < i ==> ms[j].table != table@,
            decreases self.models.len() - i,
        {
            if str_eq(self.models[i].collection_name.as_str(), table) {
                proof {
                    lemma_first_model_for_table_found(ms, table@, i as int, ms.len() as int);
                    assert(ms.subrange(0, ms.len() as int) =~= ms);
                }
                return Some(i);
            }
            i = i + 1;
        }
        proof {
            lemma_first_model_for_table_prefix(ms, table@, ms.len() as int);
            assert(ms.subrange(0, ms.len() as int) =~= ms);
        }
        None
    }

    /// The kind of `field` in the first model registered for `table`,
    /// whatever its alias.
    pub fn table_field_type(&self, table: &str, field: &str) -> (r: Option<FieldType>)
        ensures
            option_kind(r) == table_field_kind(self@, table@, field@),
    {
        match self.find_model_for_table(table) {
            Some(i) => self.models[i].field_type(field),
            None => None,
        }
    }
}

/// The kind of `field_name` in the model registered for `table_name`
/// under `alias`; `None` when no such model is registered or it has no
/// such field.
pub fn get_field_type(models: &ModelRegistry, table_name: &str, alias: &str, field_name: &str) -> (r: Option<FieldType>)
    ensures
        option_kind(r) == field_kind(models@, table_name@, alias@, field_name@),
{
    match models.find_model(table_name, alias) {
        Some(i) => models.models[i].field_type(field_name),
        None => None,
    }
}

} // verus!
