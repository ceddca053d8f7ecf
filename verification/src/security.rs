//! Checks on the identifiers that are written into SQL text.

use vstd::prelude::*;
use crate::types::DatabaseType;
use crate::error::{QuickDbError, ErrorKind, validation_error};

verus! {

/// A character that may appear in a field identifier: an ASCII letter or
/// digit, `_`, or `.` (for `table.column`).
pub open spec fn identifier_char(c: char) -> bool {
    ('a' <= c && c <= 'z') || ('A' <= c && c <= 'Z') || ('0' <= c && c <= '9') || c == '_' || c == '.'
}

/// A field name that may be written into SQL text as it stands.
pub open spec fn safe_identifier(s: Seq<char>) -> bool {
    s.len() > 0 && forall|i: int| 0 <= i < s.len() ==> #[trigger] identifier_char(s[i])
}

/// Checks field names before they are written into SQL.
pub struct DatabaseSecurityValidator {
    pub db_type: DatabaseType,
}

impl DatabaseSecurityValidator {
    pub fn new(db_type: DatabaseType) -> (v: Self)
        ensures
            v.db_type == db_type,
    {
        DatabaseSecurityValidator { db_type }
    }

    /// The identifier to write for `field`: the field itself when it is a
    /// safe identifier, and a validation error about it otherwise.
    pub fn get_safe_field_identifier(&self, field: &str) -> (r: Result<String, QuickDbError>)
        ensures
            safe_identifier(field@) ==> (r matches Ok(s) && s@ == field@),
            !safe_identifier(field@) ==> (r matches Err(e) && e@ == (ErrorKind::Validation { field: field@ })),
    {
        if is_safe_identifier(field) {
            Ok(field.to_owned())
        } else {
            Err(validation_error(field, "字段名包含不安全的字符"))
        }
    }
}

fn is_identifier_char(c: char) -> (b: bool)
    ensures
        b == identifier_char(c),
{
    ('a' <= c && c <= 'z') || ('A' <= c && c <= 'Z') || ('0' <= c && c <= '9') || c == '_' || c == '.'
}

/// Whether `s` is a safe identifier.
pub fn is_safe_identifier(s: &str) -> (b: bool)
    ensures
        b == safe_identifier(s@),
{
    let n = s.unicode_len();
    if n == 0 {
        return false;
    }
    let mut i: usize = 0;
    while i < n
        invariant
            n == s@.len(),
            i <= n,
            forall|j: int| 0 <= j < i ==> #[trigger] identifier_char(s@[j]),
        decreases n - i,
    {
        if !is_identifier_char(s.get_char(i)) {
            return false;
        }
        i = i + 1;
    }
    true
}

} // verus!
