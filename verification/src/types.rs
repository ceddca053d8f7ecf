//! The values, conditions and field kinds that queries are built from.

use vstd::prelude::*;

verus! {

/// A point in time with its UTC offset: seconds since the Unix epoch,
/// the sub-second nanoseconds, and the offset east of UTC in seconds.
#[derive(Clone, Copy, Debug, PartialEq, Eq, Structural)]
pub struct OffsetTimestamp {
    pub seconds: i64,
    pub nanos: u32,
    pub offset_seconds: i32,
}

/// A point in time in UTC: seconds since the Unix epoch and nanoseconds.
#[derive(Clone, Copy, Debug, PartialEq, Eq, Structural)]
pub struct UtcTimestamp {
    pub seconds: i64,
    pub nanos: u32,
}

/// A value stored in or compared against a column.
///
/// `Float` holds the decimal text of a 64-bit float (the text that
/// `str::parse::<f64>` reads); `Json` holds the compact JSON text of a
/// JSON value; `Uuid` holds the 128 bits of a UUID; `Object` keeps its
/// entries in order.
#[derive(Debug, PartialEq)]
pub enum DataValue {
    String(String),
    Int(i64),
    UInt(u64),
    Float(String),
    Bool(bool),
    DateTime(OffsetTimestamp),
    DateTimeUTC(UtcTimestamp),
    Uuid(u128),
    Json(String),
    Array(Vec<DataValue>),
    Object(Vec<(String, DataValue)>),
    Null,
    Bytes(Vec<u8>),
}

/// The mathematical model of a [`DataValue`].
pub enum Value {
    Str(Seq<char>),
    Int(i64),
    UInt(u64),
    Float(Seq<char>),
    Bool(bool),
    DateTime(OffsetTimestamp),
    DateTimeUTC(UtcTimestamp),
    Uuid(u128),
    Json(Seq<char>),
    Array(Seq<Value>),
    Object(Seq<(Seq<char>, Value)>),
    Null,
    Bytes(Seq<u8>),
}

impl DataValue {
    pub open spec fn model(&self) -> Value
        decreases self,
    {
        match self {
            DataValue::String(s) => Value::Str(s@),
            DataValue::Int(i) => Value::Int(*i),
            DataValue::UInt(u) => Value::UInt(*u),
            DataValue::Float(s) => Value::Float(s@),
            DataValue::Bool(b) => Value::Bool(*b),
            DataValue::DateTime(t) => Value::DateTime(*t),
            DataValue::DateTimeUTC(t) => Value::DateTimeUTC(*t),
            DataValue::Uuid(u) => Value::Uuid(*u),
            DataValue::Json(s) => Value::Json(s@),
            DataValue::Array(v) => Value::Array(
                Seq::new(v@.len(), |i: int| if 0 <= i < v@.len() { v@[i].model() } else { Value::Null }),
            ),
            DataValue::Object(v) => Value::Object(
                Seq::new(v@.len(), |i: int| if 0 <= i < v@.len() { (v@[i].0@, v@[i].1.model()) } else { (Seq::empty(), Value::Null) }),
            ),
            DataValue::Null => Value::Null,
            DataValue::Bytes(b) => Value::Bytes(b@),
        }
    }
}

impl DataValue {
    /// A copy of the value with the same model.
    #[verifier::loop_isolation(false)]
    pub fn duplicate(&self) -> (r: DataValue)
        ensures
            r@ == self@,
        decreases self,
    {
        match self {
            DataValue::String(s) => {
                let c = s.clone();
                assert(c@ == s@);
                let r = DataValue::String(c);
                assert(r.model() == Value::Str(c@));
                r
            }
            DataValue::Int(i) => DataValue::Int(*i),
            DataValue::UInt(u) => DataValue::UInt(*u),
            DataValue::Float(s) => DataValue::Float(s.clone()),
            DataValue::Bool(b) => DataValue::Bool(*b),
            DataValue::DateTime(t) => DataValue::DateTime(*t),
            DataValue::DateTimeUTC(t) => DataValue::DateTimeUTC(*t),
            DataValue::Uuid(u) => DataValue::Uuid(*u),
            DataValue::Json(s) => DataValue::Json(s.clone()),
            DataValue::Array(v) => {
                let mut out: Vec<DataValue> = Vec::new();
                let mut i: usize = 0;
                while i < v.len()
                    invariant
                        i <= v.len(),
                        out@.len() == i,
                        forall|j: int| 0 <= j < i ==> #[trigger] out@[j].model() == v@[j].model(),
                    decreases v.len() - i,
                {
                    proof {
                        assert(decreases_to!(v@ => v@[i as int]));
                    }
                    let c = v[i].duplicate();
                    out.push(c);
                    i = i + 1;
                }
                let r = DataValue::Array(out);
                assert(r.model()->Array_0.len() == out@.len());
                assert(self.model()->Array_0.len() == v@.len());
                assert(forall|k: int| 0 <= k < out@.len() ==> r.model()->Array_0[k] == out@[k].model());
                assert(forall|k: int| 0 <= k < v@.len() ==> self.model()->Array_0[k] == v@[k].model());
                assert(r.model()->Array_0 =~= self.model()->Array_0);
                r
            }
            DataValue::Object(v) => {
                let mut out: Vec<(String, DataValue)> = Vec::new();
                let mut i: usize = 0;
                while i < v.len()
                    invariant
                        i <= v.len(),
                        out@.len() == i,
                        forall|j: int| 0 <= j < i ==> out@[j].0@ == v@[j].0@ && #[trigger] out@[j].1.model() == v@[j].1.model(),
                    decreases v.len() - i,
                {
                    proof {
                        assert(decreases_to!(v@ => v@[i as int]));
                        assert(decreases_to!(v@[i as int] => v@[i as int].1));
                    }
                    let k = v[i].0.clone();
                    let c = v[i].1.duplicate();
                    out.push((k, c));
                    i = i + 1;
                }
                let r = DataValue::Object(out);
                assert(r.model()->Object_0.len() == out@.len());
                assert(self.model()->Object_0.len() == v@.len());
                assert(forall|k: int| 0 <= k < out@.len() ==> r.model()->Object_0[k] == (out@[k].0@, out@[k].1.model()));
                assert(forall|k: int| 0 <= k < v@.len() ==> self.model()->Object_0[k] == (v@[k].0@, v@[k].1.model()));
                assert(r.model()->Object_0 =~= self.model()->Object_0);
                r
            }
            DataValue::Null => DataValue::Null,
            DataValue::Bytes(b) => {
                let c = b.clone();
                assert(c@ =~= b@);
                DataValue::Bytes(c)
            }
        }
    }
}

impl View for DataValue {
    type V = Value;

    open spec fn view(&self) -> Value {
        self.model()
    }
}

} // verus!

verus! {

/// The database back ends.
#[derive(Clone, Copy, Debug, PartialEq, Eq, Structural)]
pub enum DatabaseType {
    SQLite,
    PostgreSQL,
    MySQL,
    MongoDB,
}

/// How the id of a new record is chosen.
#[derive(Debug)]
pub enum IdStrategy {
    /// The database numbers records.
    AutoIncrement,
    /// A UUID, kept as text.
    Uuid,
    /// A snowflake id from the given machine and data center.
    Snowflake { machine_id: u16, datacenter_id: u16 },
    /// A document-store object id.
    ObjectId,
    /// Ids chosen by the caller, with the given prefix.
    Custom(String),
}

/// The model of an id strategy.
pub enum IdRule {
    AutoIncrement,
    Uuid,
    Snowflake { machine_id: u16, datacenter_id: u16 },
    ObjectId,
    Custom(Seq<char>),
}

impl View for IdStrategy {
    type V = IdRule;

    open spec fn view(&self) -> IdRule {
        match self {
            IdStrategy::AutoIncrement => IdRule::AutoIncrement,
            IdStrategy::Uuid => IdRule::Uuid,
            IdStrategy::Snowflake { machine_id, datacenter_id } => IdRule::Snowflake {
                machine_id: *machine_id,
                datacenter_id: *datacenter_id,
            },
            IdStrategy::ObjectId => IdRule::ObjectId,
            IdStrategy::Custom(p) => IdRule::Custom(p@),
        }
    }
}

/// The comparison a condition makes between a field and its value.
#[derive(Clone, Copy, Debug, PartialEq, Eq, Structural)]
pub enum QueryOperator {
    Eq,
    Ne,
    Gt,
    Gte,
    Lt,
    Lte,
    Contains,
    JsonContains,
    StartsWith,
    EndsWith,
    In,
    NotIn,
    Regex,
    Exists,
    IsNull,
    IsNotNull,
}

/// How the members of a condition group are combined.
#[derive(Clone, Copy, Debug, PartialEq, Eq, Structural)]
pub enum LogicalOperator {
    And,
    Or,
}

/// Sort order of an ORDER BY item.
#[derive(Clone, Copy, Debug, PartialEq, Eq, Structural)]
pub enum SortDirection {
    Asc,
    Desc,
}

/// A single condition: `field operator value`.
#[derive(Debug)]
pub struct QueryCondition {
    pub field: String,
    pub operator: QueryOperator,
    pub value: DataValue,
}

/// A condition that also says whether string comparison ignores case.
#[derive(Debug)]
pub struct QueryConditionWithConfig {
    pub field: String,
    pub operator: QueryOperator,
    pub value: DataValue,
    pub case_insensitive: bool,
}

/// A tree of conditions combined with AND / OR.
#[derive(Debug)]
pub enum QueryConditionGroup {
    Single(QueryCondition),
    Group { operator: LogicalOperator, conditions: Vec<QueryConditionGroup> },
}

/// A tree of conditions with case configuration, combined with AND / OR.
#[derive(Debug)]
pub enum QueryConditionGroupWithConfig {
    Single(QueryConditionWithConfig),
    GroupWithConfig { operator: LogicalOperator, conditions: Vec<QueryConditionGroupWithConfig> },
}

/// The model of a condition.
pub struct Condition {
    pub field: Seq<char>,
    pub operator: QueryOperator,
    pub value: Value,
    pub case_insensitive: bool,
}

/// The model of a condition tree.
pub enum Group {
    Single(Condition),
    Group { operator: LogicalOperator, conditions: Seq<Group> },
}

impl View for QueryCondition {
    type V = Condition;

    open spec fn view(&self) -> Condition {
        Condition {
            field: self.field@,
            operator: self.operator,
            value: self.value@,
            case_insensitive: false,
        }
    }
}

impl View for QueryConditionWithConfig {
    type V = Condition;

    open spec fn view(&self) -> Condition {
        Condition {
            field: self.field@,
            operator: self.operator,
            value: self.value@,
            case_insensitive: self.case_insensitive,
        }
    }
}

impl QueryConditionGroup {
    pub open spec fn model(&self) -> Group
        decreases self,
    {
        match self {
            QueryConditionGroup::Single(c) => Group::Single(c@),
            QueryConditionGroup::Group { operator, conditions } => Group::Group {
                operator: *operator,
                conditions: Seq::new(
                    conditions@.len(),
                    |i: int| if 0 <= i < conditions@.len() { conditions@[i].model() } else { Group::Group { operator: LogicalOperator::And, conditions: Seq::empty() } },
                ),
            },
        }
    }
}

impl View for QueryConditionGroup {
    type V = Group;

    open spec fn view(&self) -> Group {
        self.model()
    }
}

impl QueryConditionGroupWithConfig {
    pub open spec fn model(&self) -> Group
        decreases self,
    {
        match self {
            QueryConditionGroupWithConfig::Single(c) => Group::Single(c@),
            QueryConditionGroupWithConfig::GroupWithConfig { operator, conditions } => Group::Group {
                operator: *operator,
                conditions: Seq::new(
                    conditions@.len(),
                    |i: int| if 0 <= i < conditions@.len() { conditions@[i].model() } else { Group::Group { operator: LogicalOperator::And, conditions: Seq::empty() } },
                ),
            },
        }
    }
}

impl View for QueryConditionGroupWithConfig {
    type V = Group;

    open spec fn view(&self) -> Group {
        self.model()
    }
}

/// The models of a slice of values.
pub open spec fn values_model(s: Seq<DataValue>) -> Seq<Value> {
    s.map_values(|v: DataValue| v@)
}

/// The model of an array value is the models of its items.
pub proof fn lemma_array_model(items: Vec<DataValue>)
    ensures
        DataValue::Array(items)@ == Value::Array(values_model(items@)),
{
    let v = DataValue::Array(items);
    assert(v@->Array_0.len() == items@.len());
    assert(forall|k: int| 0 <= k < items@.len() ==> v@->Array_0[k] == items@[k]@);
    assert(v@->Array_0 =~= values_model(items@));
}

/// The models of a slice of conditions.
pub open spec fn conditions_model(s: Seq<QueryCondition>) -> Seq<Condition> {
    s.map_values(|c: QueryCondition| c@)
}

/// The models of a slice of configured conditions.
pub open spec fn config_conditions_model(s: Seq<QueryConditionWithConfig>) -> Seq<Condition> {
    s.map_values(|c: QueryConditionWithConfig| c@)
}

/// The models of a slice of condition groups.
pub open spec fn groups_model(s: Seq<QueryConditionGroup>) -> Seq<Group> {
    s.map_values(|g: QueryConditionGroup| g@)
}

/// The models of a slice of configured condition groups.
pub open spec fn config_groups_model(s: Seq<QueryConditionGroupWithConfig>) -> Seq<Group> {
    s.map_values(|g: QueryConditionGroupWithConfig| g@)
}

impl QueryCondition {
    /// A copy of the condition with the same model.
    pub fn duplicate(&self) -> (r: QueryCondition)
        ensures
            r@ == self@,
    {
        QueryCondition {
            field: self.field.clone(),
            operator: self.operator,
            value: self.value.duplicate(),
        }
    }
}

impl QueryConditionWithConfig {
    /// A copy of the condition with the same model.
    pub fn duplicate(&self) -> (r: QueryConditionWithConfig)
        ensures
            r@ == self@,
    {
        QueryConditionWithConfig {
            field: self.field.clone(),
            operator: self.operator,
            value: self.value.duplicate(),
            case_insensitive: self.case_insensitive,
        }
    }
}

} // verus!

verus! {

impl QueryConditionGroup {
    /// A copy of the tree with the same model.
    #[verifier::loop_isolation(false)]
    pub fn duplicate(&self) -> (r: QueryConditionGroup)
        ensures
            r@ == self@,
        decreases self,
    {
        match self {
            QueryConditionGroup::Single(c) => QueryConditionGroup::Single(c.duplicate()),
            QueryConditionGroup::Group { operator, conditions } => {
                let mut out: Vec<QueryConditionGroup> = Vec::new();
                let mut i: usize = 0;
                while i < conditions.len()
                    invariant
                        i <= conditions.len(),
                        out@.len() == i,
                        forall|j: int| 0 <= j < i ==> #[trigger] out@[j].model() == conditions@[j].model(),
                    decreases conditions.len() - i,
                {
                    proof {
                        assert(decreases_to!(conditions@ => conditions@[i as int]));
                    }
                    out.push(conditions[i].duplicate());
                    i = i + 1;
                }
                let r = QueryConditionGroup::Group { operator: *operator, conditions: out };
                assert(r.model()->conditions.len() == out@.len());
                assert(self.model()->conditions.len() == conditions@.len());
                assert(forall|k: int| 0 <= k < out@.len() ==> r.model()->conditions[k] == out@[k].model());
                assert(forall|k: int| 0 <= k < conditions@.len() ==> self.model()->conditions[k] == conditions@[k].model());
                assert(r.model()->conditions =~= self.model()->conditions);
                r
            }
        }
    }
}

} // verus!

verus! {

/// The id strategy a configuration names: `Uuid`, `Snowflake` (machine 1,
/// data center 1), `ObjectId`, `Custom:` followed by the custom prefix,
/// and auto-increment for no name or any other name.
pub open spec fn id_strategy_named(name: Option<Seq<char>>) -> IdRule {
    match name {
        None => IdRule::AutoIncrement,
        Some(n) => if n == "Uuid"@ {
            IdRule::Uuid
        } else if n == "Snowflake"@ {
            IdRule::Snowflake { machine_id: 1, datacenter_id: 1 }
        } else if n == "ObjectId"@ {
            IdRule::ObjectId
        } else if n.len() >= 7 && n.subrange(0, 7) == "Custom:"@ {
            IdRule::Custom(n.subrange(7, n.len() as int))
        } else {
            IdRule::AutoIncrement
        },
    }
}

/// The id strategy a configuration names (see `id_strategy_named`).
pub fn id_strategy_from_name(name: Option<&str>) -> (r: IdStrategy)
    ensures
        r@ == id_strategy_named(match name { Some(n) => Some(n@), None => None }),
{
    let n = match name {
        None => return IdStrategy::AutoIncrement,
        Some(n) => n,
    };
    if crate::models::str_eq(n, "Uuid") {
        return IdStrategy::Uuid;
    }
    if crate::models::str_eq(n, "Snowflake") {
        return IdStrategy::Snowflake { machine_id: 1, datacenter_id: 1 };
    }
    if crate::models::str_eq(n, "ObjectId") {
        return IdStrategy::ObjectId;
    }
    proof { reveal_strlit("Custom:"); }
    let cs = crate::text::chars_of(n);
    let tag = crate::text::chars_of("Custom:");
    let mut same = cs.len() >= 7;
    let mut i: usize = 0;
    while same && i < 7
        invariant
            tag@ == "Custom:"@,
            tag@.len() == 7,
            same ==> cs@.len() >= 7,
            i <= 7,
            same == (cs@.len() >= 7 && forall|j: int| 0 <= j < i ==> cs@[j] == tag@[j]),
        decreases 7 - i,
    {
        if cs[i] != tag[i] {
            same = false;
        }
        i = i + 1;
    }
    if same {
        assert(cs@.subrange(0, 7) =~= "Custom:"@);
        let mut prefix = String::new();
        crate::text::push_chars(&mut prefix, vstd::slice::slice_subrange(cs.as_slice(), 7, cs.len()));
        IdStrategy::Custom(prefix)
    } else {
        assert(!(n@.len() >= 7 && n@.subrange(0, 7) == "Custom:"@)) by {
            if n@.len() >= 7 && n@.subrange(0, 7) == "Custom:"@ {
                let j = choose|j: int| 0 <= j < i && cs@[j] != tag@[j];
                assert(n@.subrange(0, 7)[j] == cs@[j]);
            }
        }
        IdStrategy::AutoIncrement
    }
}

} // verus!
