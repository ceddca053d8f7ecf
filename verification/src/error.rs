//! Errors of query building.

use vstd::prelude::*;

verus! {

/// What can go wrong while a query is built.
#[derive(Debug)]
pub enum QuickDbError {
    /// The query as a whole cannot be built.
    QueryError { message: String },
    /// A field or a value fails a check.
    ValidationError { field: String, message: String },
    /// A value cannot be serialized.
    SerializationError { message: String },
    /// The database type has no adapter.
    UnsupportedDatabase { db_type: String },
    /// A statement named a table that does not exist.
    TableNotExistError { table: String, message: String },
}

/// The model of an error: its kind, and the field for validation errors.
pub enum ErrorKind {
    Query,
    Validation { field: Seq<char> },
    Serialization,
    UnsupportedDatabase,
    TableNotExist { table: Seq<char> },
}

impl View for QuickDbError {
    type V = ErrorKind;

    open spec fn view(&self) -> ErrorKind {
        match self {
            QuickDbError::QueryError { .. } => ErrorKind::Query,
            QuickDbError::ValidationError { field, .. } => ErrorKind::Validation { field: field@ },
            QuickDbError::SerializationError { .. } => ErrorKind::Serialization,
            QuickDbError::UnsupportedDatabase { .. } => ErrorKind::UnsupportedDatabase,
            QuickDbError::TableNotExistError { table, .. } => ErrorKind::TableNotExist { table: table@ },
        }
    }
}

/// Builds a query error with the given message.
pub fn query_error(message: &str) -> (e: QuickDbError)
    ensures
        e@ == ErrorKind::Query,
        e matches QuickDbError::QueryError { message: m } && m@ == message@,
{
    QuickDbError::QueryError { message: message.to_owned() }
}

/// Builds a validation error about `field` with the given message.
pub fn validation_error(field: &str, message: &str) -> (e: QuickDbError)
    ensures
        e@ == (ErrorKind::Validation { field: field@ }),
        e matches QuickDbError::ValidationError { field: f, message: m } && f@ == field@ && m@ == message@,
{
    QuickDbError::ValidationError { field: field.to_owned(), message: message.to_owned() }
}

} // verus!
