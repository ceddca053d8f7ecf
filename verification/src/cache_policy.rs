//! What the caching adapter decides around the database calls it wraps:
//! which record key an id is cached under, how plain conditions are
//! looked up as a condition tree, and which cached entries a write makes
//! stale.

use vstd::prelude::*;
use crate::error::QuickDbError;
use crate::types::{DataValue, Value, Condition, Group, QueryCondition, QueryConditionGroup, LogicalOperator, conditions_model, groups_model};

verus! {

/// The key a record is cached under.
#[derive(Debug, PartialEq)]
pub enum IdType {
    Number(i64),
    String(String),
}

/// The model of a record key.
pub enum IdKey {
    Number(i64),
    Str(Seq<char>),
}

impl View for IdType {
    type V = IdKey;

    open spec fn view(&self) -> IdKey {
        match self {
            IdType::Number(n) => IdKey::Number(*n),
            IdType::String(s) => IdKey::Str(s@),
        }
    }
}

/// The record key of an id: integers and strings have one, other values
/// are not cached.
pub open spec fn id_key(id: Value) -> Option<IdKey> {
    match id {
        Value::Int(n) => Some(IdKey::Number(n)),
        Value::Str(s) => Some(IdKey::Str(s)),
        _ => None,
    }
}

pub open spec fn option_id_view(o: Option<IdType>) -> Option<IdKey> {
    match o {
        Some(k) => Some(k@),
        None => None,
    }
}

/// The record key of an id (see `id_key`).
pub fn id_type_of(id: &DataValue) -> (r: Option<IdType>)
    ensures
        option_id_view(r) == id_key(id@),
{
    match id {
        DataValue::Int(n) => Some(IdType::Number(*n)),
        DataValue::String(s) => Some(IdType::String(s.clone())),
        _ => None,
    }
}

/// The condition trees that a plain condition list is looked up as: none
/// for no conditions, and otherwise one AND group of the conditions.
pub open spec fn condition_groups_of(cs: Seq<Condition>) -> Seq<Group> {
    if cs.len() == 0 {
        Seq::empty()
    } else {
        seq![Group::Group { operator: LogicalOperator::And, conditions: cs.map_values(|c: Condition| Group::Single(c)) }]
    }
}

/// The condition trees of a plain condition list (see
/// `condition_groups_of`).
pub fn find_condition_groups(conditions: &[QueryCondition]) -> (r: Vec<QueryConditionGroup>)
    ensures
        groups_model(r@) == condition_groups_of(conditions_model(conditions@)),
{
    let mut r: Vec<QueryConditionGroup> = Vec::new();
    if conditions.len() == 0 {
        assert(groups_model(r@) =~= Seq::<Group>::empty());
        return r;
    }
    let mut singles: Vec<QueryConditionGroup> = Vec::new();
    let mut i: usize = 0;
    while i < conditions.len()
        invariant
            i <= conditions.len(),
            singles@.len() == i,
            forall|k: int| 0 <= k < i ==> #[trigger] singles@[k]@ == Group::Single(conditions@[k]@),
        decreases conditions.len() - i,
    {
        singles.push(QueryConditionGroup::Single(conditions[i].duplicate()));
        i = i + 1;
    }
    proof { crate::query_builder::lemma_group_model(LogicalOperator::And, singles); }
    assert(groups_model(singles@) =~= conditions_model(conditions@).map_values(|c: Condition| Group::Single(c)));
    r.push(QueryConditionGroup::Group { operator: LogicalOperator::And, conditions: singles });
    assert(groups_model(r@) =~= condition_groups_of(conditions_model(conditions@)));
    r
}

/// How a write through the adapter ended.
#[derive(Debug)]
pub enum WriteOutcome {
    /// A record was created.
    Created,
    /// Records matching conditions were updated; how many.
    Updated(u64),
    /// The record with an id was updated, or not found.
    UpdatedById(bool),
    /// Records matching conditions were deleted; how many.
    Deleted(u64),
    /// The record with an id was deleted, or not found.
    DeletedById(bool),
    /// The table was dropped.
    TableDropped,
    /// The write failed.
    Failed,
}

/// The cached entries that a write makes stale: the table's query
/// results, the table's records, and one record.
#[derive(Debug, PartialEq)]
pub struct CacheInvalidation {
    pub clear_query_cache: bool,
    pub clear_record_cache: bool,
    pub invalidate_record: Option<IdType>,
}

/// The model of an invalidation.
pub struct InvalidationView {
    pub clear_query_cache: bool,
    pub clear_record_cache: bool,
    pub invalidate_record: Option<IdKey>,
}

impl View for CacheInvalidation {
    type V = InvalidationView;

    open spec fn view(&self) -> InvalidationView {
        InvalidationView {
            clear_query_cache: self.clear_query_cache,
            clear_record_cache: self.clear_record_cache,
            invalidate_record: option_id_view(self.invalidate_record),
        }
    }
}

/// What a write makes stale: a creation, and an update that changed
/// records, clear the table's query results; a deletion that removed
/// records clears the table's query results and records; an update or
/// deletion by id that found its record clears the table's query results
/// and that record, when the id has a record key (and nothing otherwise).
/// A dropped table clears the table's query results. A failed write, or
/// one that changed nothing, leaves the cache.
pub open spec fn invalidation_after(outcome: WriteOutcome, id: Option<Value>) -> InvalidationView {
    let nothing = InvalidationView { clear_query_cache: false, clear_record_cache: false, invalidate_record: None };
    let queries = InvalidationView { clear_query_cache: true, clear_record_cache: false, invalidate_record: None };
    let by_id = match id {
        Some(v) => match id_key(v) {
            Some(k) => InvalidationView { clear_query_cache: true, clear_record_cache: false, invalidate_record: Some(k) },
            None => nothing,
        },
        None => nothing,
    };
    match outcome {
        WriteOutcome::Created => queries,
        WriteOutcome::Updated(n) => if n > 0 { queries } else { nothing },
        WriteOutcome::Deleted(n) => if n > 0 {
            InvalidationView { clear_query_cache: true, clear_record_cache: true, invalidate_record: None }
        } else {
            nothing
        },
        WriteOutcome::UpdatedById(found) | WriteOutcome::DeletedById(found) => if found { by_id } else { nothing },
        WriteOutcome::TableDropped => queries,
        WriteOutcome::Failed => nothing,
    }
}

pub open spec fn option_value(id: Option<&DataValue>) -> Option<Value> {
    match id {
        Some(v) => Some(v@),
        None => None,
    }
}

/// What a write makes stale (see `invalidation_after`); `id` is the id a
/// write by id was given.
pub fn cache_invalidation(outcome: WriteOutcome, id: Option<&DataValue>) -> (r: CacheInvalidation)
    ensures
        r@ == invalidation_after(outcome, option_value(id)),
{
    let nothing = CacheInvalidation { clear_query_cache: false, clear_record_cache: false, invalidate_record: None };
    let found = match outcome {
        WriteOutcome::Created => {
            return CacheInvalidation { clear_query_cache: true, clear_record_cache: false, invalidate_record: None };
        }
        WriteOutcome::Updated(n) => {
            if n > 0 {
                return CacheInvalidation { clear_query_cache: true, clear_record_cache: false, invalidate_record: None };
            }
            return nothing;
        }
        WriteOutcome::Deleted(n) => {
            if n > 0 {
                return CacheInvalidation { clear_query_cache: true, clear_record_cache: true, invalidate_record: None };
            }
            return nothing;
        }
        WriteOutcome::UpdatedById(found) => found,
        WriteOutcome::DeletedById(found) => found,
        WriteOutcome::TableDropped => {
            return CacheInvalidation { clear_query_cache: true, clear_record_cache: false, invalidate_record: None };
        }
        WriteOutcome::Failed => false,
    };
    if !found {
        return nothing;
    }
    match id {
        Some(v) => match id_type_of(v) {
            Some(k) => CacheInvalidation { clear_query_cache: true, clear_record_cache: false, invalidate_record: Some(k) },
            None => nothing,
        },
        None => nothing,
    }
}

/// What the cache answered a lookup with: a cached entry, nothing, or a
/// failure of the cache itself.
#[derive(Debug)]
pub enum CacheReply<T> {
    Hit(T),
    Miss,
    Failed,
}

/// What a cached read does next: answer with the cached entry, or ask
/// the wrapped adapter.
#[derive(Debug)]
pub enum ReadStep<T> {
    Answer(T),
    AskInner,
}

/// A cached read answers a hit with the cached entry, and asks the
/// wrapped adapter on a miss or when the cache fails.
pub fn read_step<T>(reply: CacheReply<T>) -> (r: ReadStep<T>)
    ensures
        match reply {
            CacheReply::Hit(v) => r == ReadStep::Answer(v),
            _ => r == ReadStep::<T>::AskInner,
        },
{
    match reply {
        CacheReply::Hit(v) => ReadStep::Answer(v),
        _ => ReadStep::AskInner,
    }
}

/// The record a lookup by id puts into the cache after asking the
/// wrapped adapter: the record it found, and nothing when it found none
/// or failed.
pub fn record_to_cache(result: &Result<Option<DataValue>, QuickDbError>) -> (r: Option<DataValue>)
    ensures
        match result {
            Ok(Some(record)) => r matches Some(v) && v@ == record@,
            _ => r is None,
        },
{
    match result {
        Ok(Some(record)) => Some(record.duplicate()),
        _ => None,
    }
}

} // verus!
