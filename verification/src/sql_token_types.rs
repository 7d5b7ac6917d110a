//! Token kinds used by an earlier revision of the SQL scanner.  Kept as part
//! of the crate's public surface; the storage layer never inspects them.

use vstd::prelude::*;

verus! {

/// Every kind of token this scanner revision can emit.
#[derive(Debug, PartialEq, Clone, Copy)]
pub enum SQLTokenTypes {
    Select,
    Insert,
    Delete,
    Update,
    Create,
    Drop,
    Truncate,
    Rename,
    Alter,
    Commit,
    Rollback,
    Savepoint,
    TableIdentifier,
    Identifier,
    Number,
    Eof,
    Leftparen,
    Rightparen,
    Star,
    Comma,
    Semicolon,
    Newline,
    Greater,
    Lesser,
    Equal,
    Primary,
    Key,
    Not,
    Unique,
    Null,
    Into,
    Values,
    SetKeyword,
    Where,
    From,
    And,
    OR,
    NotEqual,
    String,
    Table,
    IS,
    GreaterThanOrEqualTo,
    LesserThanOrEqualTo,
}

} // verus!
