//! Updates given as operations on fields (set, increment, decrement,
//! multiply, divide, percentage change): the SET clause of the SQL back
//! ends.

use vstd::prelude::*;
use crate::error::{QuickDbError, ErrorKind, validation_error};
use crate::models::{ModelRegistry, ModelView};
use crate::query_builder::{build_where_clause_for, clause_matches, comma, where_clause, append_values};
use crate::sql::{placeholder, push_placeholder};
use crate::text::{join, strings_view};
use crate::types::{DataValue, DatabaseType, Value, QueryCondition, conditions_model, values_model};

verus! {

/// What an update operation does to its field.
#[derive(Clone, Copy, Debug, PartialEq, Eq, Structural)]
pub enum UpdateOperator {
    Assign,
    Increment,
    Decrement,
    Multiply,
    Divide,
    PercentIncrease,
    PercentDecrease,
}

/// An update of one field by one operation with one value.
#[derive(Debug)]
pub struct UpdateOperation {
    pub field: String,
    pub operation: UpdateOperator,
    pub value: DataValue,
}

/// The model of an update operation.
pub struct OperationView {
    pub field: Seq<char>,
    pub operation: UpdateOperator,
    pub value: Value,
}

impl View for UpdateOperation {
    type V = OperationView;

    open spec fn view(&self) -> OperationView {
        OperationView { field: self.field@, operation: self.operation, value: self.value@ }
    }
}

pub open spec fn operations_model(ops: Seq<UpdateOperation>) -> Seq<OperationView> {
    ops.map_values(|o: UpdateOperation| o@)
}

/// The SET item of an operation whose parameter has placeholder `ph`:
/// `f = ph`, `f = f + ph`, `f = f - ph`, `f = f * ph`, `f = f / ph`,
/// `f = f * (1.0 + ph/100.0)` or `f = f * (1.0 - ph/100.0)`.
pub open spec fn operation_item(op: OperationView, ph: Seq<char>) -> Seq<char> {
    let f = op.field;
    match op.operation {
        UpdateOperator::Assign => f + " = "@ + ph,
        UpdateOperator::Increment => f + " = "@ + f + " + "@ + ph,
        UpdateOperator::Decrement => f + " = "@ + f + " - "@ + ph,
        UpdateOperator::Multiply => f + " = "@ + f + " * "@ + ph,
        UpdateOperator::Divide => f + " = "@ + f + " / "@ + ph,
        UpdateOperator::PercentIncrease => f + " = "@ + f + " * (1.0 + "@ + ph + "/100.0)"@,
        UpdateOperator::PercentDecrease => f + " = "@ + f + " * (1.0 - "@ + ph + "/100.0)"@,
    }
}

/// The SET items of the operations, parameters numbered from 1.
pub open spec fn operation_items(db: DatabaseType, ops: Seq<OperationView>) -> Seq<Seq<char>> {
    Seq::new(ops.len(), |k: int| operation_item(ops[k], placeholder(db, (k + 1) as nat)))
}

/// The UPDATE statement of a list of operations on `table`: the SET
/// items joined with `, `, each binding its operation's value, then the
/// WHERE clause of the conditions with its parameters numbered after
/// them. No operations are refused with a validation error about
/// `operations`.
pub open spec fn operations_statement(
    db: DatabaseType,
    table: Seq<char>,
    models: Seq<ModelView>,
    conditions: Seq<crate::types::Condition>,
    ops: Seq<OperationView>,
) -> Result<(Seq<char>, Seq<Value>), ErrorKind> {
    if ops.len() == 0 {
        Err(ErrorKind::Validation { field: "operations"@ })
    } else {
        let head = "UPDATE "@ + table + " SET "@ + join(operation_items(db, ops), comma());
        let vals = ops.map_values(|o: OperationView| o.value);
        if conditions.len() == 0 {
            Ok((head, vals))
        } else {
            match where_clause(db, table, models, conditions, 1 + ops.len()) {
                Err(e) => Err(e),
                Ok((w, wp)) => Ok((head + " WHERE "@ + w, vals + wp)),
            }
        }
    }
}

/// The SET item of one operation (see `operation_item`).
pub fn push_operation_item(out: &mut String, op: &UpdateOperation, ph: &str)
    ensures
        final(out)@ == old(out)@ + operation_item(op@, ph@),
{
    let ghost start = out@;
    let f = op.field.as_str();
    out.append(f);
    out.append(" = ");
    match op.operation {
        UpdateOperator::Assign => {}
        UpdateOperator::Increment => {
            out.append(f);
            out.append(" + ");
        }
        UpdateOperator::Decrement => {
            out.append(f);
            out.append(" - ");
        }
        UpdateOperator::Multiply => {
            out.append(f);
            out.append(" * ");
        }
        UpdateOperator::Divide => {
            out.append(f);
            out.append(" / ");
        }
        UpdateOperator::PercentIncrease => {
            out.append(f);
            out.append(" * (1.0 + ");
        }
        UpdateOperator::PercentDecrease => {
            out.append(f);
            out.append(" * (1.0 - ");
        }
    }
    out.append(ph);
    if op.operation == UpdateOperator::PercentIncrease || op.operation == UpdateOperator::PercentDecrease {
        out.append("/100.0)");
    }
    assert(out@ =~= start + operation_item(op@, ph@));
}

/// The SET items of the operations and their values (see
/// `operation_items`).
pub fn operation_set_items(db: DatabaseType, operations: &[UpdateOperation]) -> (r: (Vec<String>, Vec<DataValue>))
    ensures
        strings_view(r.0@) == operation_items(db, operations_model(operations@)),
        values_model(r.1@) == operations_model(operations@).map_values(|o: OperationView| o.value),
{
    let ghost ops = operations_model(operations@);
    let mut items: Vec<String> = Vec::new();
    let mut vals: Vec<DataValue> = Vec::new();
    let mut k: usize = 0;
    while k < operations.len()
        invariant
            k <= operations.len(),
            ops == operations_model(operations@),
            items@.len() == k,
            vals@.len() == k,
            forall|j: int| 0 <= j < k ==> #[trigger] items@[j]@ == operation_item(ops[j], placeholder(db, (j + 1) as nat)),
            forall|j: int| 0 <= j < k ==> #[trigger] vals@[j]@ == ops[j].value,
        decreases operations.len() - k,
    {
        let mut ph = String::new();
        push_placeholder(&mut ph, db, k as u128 + 1);
        let mut item = String::new();
        push_operation_item(&mut item, &operations[k], ph.as_str());
        assert(ops[k as int] == operations@[k as int]@);
        items.push(item);
        vals.push(operations[k].value.duplicate());
        k = k + 1;
    }
    assert(strings_view(items@) =~= operation_items(db, ops));
    assert(values_model(vals@) =~= ops.map_values(|o: OperationView| o.value));
    (items, vals)
}

/// The UPDATE statement of a list of operations (see
/// `operations_statement`).
pub fn build_update_with_operations(
    db: DatabaseType,
    table: &str,
    models: &ModelRegistry,
    conditions: &[QueryCondition],
    operations: &[UpdateOperation],
) -> (r: Result<(String, Vec<DataValue>), QuickDbError>)
    ensures
        clause_matches(r, operations_statement(db, table@, models@, conditions_model(conditions@), operations_model(operations@))),
{
    if operations.len() == 0 {
        return Err(validation_error("operations", "更新操作不能为空"));
    }
    let (items, mut params) = operation_set_items(db, operations);
    proof { reveal_strlit(", "); }
    assert(", "@ =~= comma());
    let mut sql = String::new();
    sql.append("UPDATE ");
    sql.append(table);
    sql.append(" SET ");
    let set = crate::text::join_strings(&items, ", ");
    sql.append(set.as_str());
    if conditions.len() > 0 {
        let start: u128 = 1 + operations.len() as u128;
        match build_where_clause_for(db, table, models, conditions, start) {
            Err(e) => return Err(e),
            Ok((w, wp)) => {
                sql.append(" WHERE ");
                sql.append(w.as_str());
                append_values(&mut params, wp);
            }
        }
    }
    Ok((sql, params))
}

/// The arithmetic sign of an operation that combines a field with its
/// value: `+` to increment, `-` to decrement, `*` to multiply and `/` to
/// divide.
pub open spec fn arithmetic_sign(o: UpdateOperator) -> Option<char> {
    match o {
        UpdateOperator::Increment => Some('+'),
        UpdateOperator::Decrement => Some('-'),
        UpdateOperator::Multiply => Some('*'),
        UpdateOperator::Divide => Some('/'),
        _ => None,
    }
}

/// Different arithmetic operations have different signs.
pub proof fn law_arithmetic_signs_distinct(a: UpdateOperator, b: UpdateOperator)
    requires
        arithmetic_sign(a) is Some,
        arithmetic_sign(b) is Some,
        a != b,
    ensures
        arithmetic_sign(a) != arithmetic_sign(b),
{
}

/// The SET item of an operation on field `f` whose value has placeholder
/// `p`: an assignment is `f = p`; an arithmetic operation is `f = f c p`
/// with its sign `c` (so a multiplication is `f = f * p` and a division
/// `f = f / p`); a percentage increase is `f = f * (1.0 + p/100.0)` and a
/// decrease `f = f * (1.0 - p/100.0)`.
pub proof fn law_operation_items(op: OperationView, p: Seq<char>)
    ensures
        op.operation == UpdateOperator::Assign ==> operation_item(op, p) == op.field + seq![' ', '=', ' '] + p,
        arithmetic_sign(op.operation) matches Some(c) ==> operation_item(op, p)
            == op.field + seq![' ', '=', ' '] + op.field + seq![' ', c, ' '] + p,
        op.operation == UpdateOperator::PercentIncrease ==> operation_item(op, p)
            == op.field + seq![' ', '=', ' '] + op.field + seq![' ', '*', ' ', '(', '1', '.', '0', ' ', '+', ' '] + p
                + seq!['/', '1', '0', '0', '.', '0', ')'],
        op.operation == UpdateOperator::PercentDecrease ==> operation_item(op, p)
            == op.field + seq![' ', '=', ' '] + op.field + seq![' ', '*', ' ', '(', '1', '.', '0', ' ', '-', ' '] + p
                + seq!['/', '1', '0', '0', '.', '0', ')'],
{
    reveal_strlit(" = ");
    reveal_strlit(" + ");
    reveal_strlit(" - ");
    reveal_strlit(" * ");
    reveal_strlit(" / ");
    reveal_strlit(" * (1.0 + ");
    reveal_strlit(" * (1.0 - ");
    reveal_strlit("/100.0)");
    let f = op.field;
    assert(operation_item(op, p) =~= match op.operation {
        UpdateOperator::Assign => f + seq![' ', '=', ' '] + p,
        UpdateOperator::Increment => f + seq![' ', '=', ' '] + f + seq![' ', '+', ' '] + p,
        UpdateOperator::Decrement => f + seq![' ', '=', ' '] + f + seq![' ', '-', ' '] + p,
        UpdateOperator::Multiply => f + seq![' ', '=', ' '] + f + seq![' ', '*', ' '] + p,
        UpdateOperator::Divide => f + seq![' ', '=', ' '] + f + seq![' ', '/', ' '] + p,
        UpdateOperator::PercentIncrease => f + seq![' ', '=', ' '] + f + seq![' ', '*', ' ', '(', '1', '.', '0', ' ', '+', ' '] + p
            + seq!['/', '1', '0', '0', '.', '0', ')'],
        UpdateOperator::PercentDecrease => f + seq![' ', '=', ' '] + f + seq![' ', '*', ' ', '(', '1', '.', '0', ' ', '-', ' '] + p
            + seq!['/', '1', '0', '0', '.', '0', ')'],
    });
}

/// An UPDATE by one operation sets its field by that operation with the
/// first placeholder and binds the operation's value first; the WHERE
/// clause of the conditions follows, its parameters numbered from 2.
pub proof fn law_single_operation_statement(
    db: DatabaseType,
    table: Seq<char>,
    models: Seq<ModelView>,
    conditions: Seq<crate::types::Condition>,
    op: OperationView,
)
    ensures
        operations_statement(db, table, models, conditions, seq![op]) == ({
            let head = "UPDATE "@ + table + " SET "@ + operation_item(op, placeholder(db, 1));
            if conditions.len() == 0 {
                Ok::<(Seq<char>, Seq<Value>), ErrorKind>((head, seq![op.value]))
            } else {
                match where_clause(db, table, models, conditions, 2) {
                    Err(e) => Err(e),
                    Ok((w, wp)) => Ok((head + " WHERE "@ + w, seq![op.value] + wp)),
                }
            }
        }),
{
    let items = operation_items(db, seq![op]);
    assert(items.len() == 1);
    assert(items[0] == operation_item(op, placeholder(db, 1)));
    assert(join(items, comma()) == items[0]);
    assert(seq![op].map_values(|o: OperationView| o.value) =~= seq![op.value]);
}

} // verus!
