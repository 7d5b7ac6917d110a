//! Token kinds produced by the SQL scanner that feeds the engine's front
//! end.  The storage layer never inspects these; they are plain data carried
//! by the crate for its callers.

use vstd::prelude::*;

verus! {

/// Every kind of token the SQL scanner can emit.
#[derive(Debug, PartialEq, Clone, Copy)]
pub enum Types {
    Create,
    Drop,
    Alter,
    Rename,
    Table,
    Schema,
    Select,
    Distinct,
    From,
    Where,
    OrderBy,
    LeftJoin,
    RightJoin,
    FullOuterJoin,
    On,
    Insert,
    Values,
    Into,
    Update,
    SetKeyword,
    Delete,
    Lock,
    BeginTransaction,
    RollBack,
    Commit,
    Addition,
    Subtraction,
    Division,
    Modulus,
    EqualTo,
    GreaterThan,
    LessThan,
    GreaterThanOrEqualTo,
    LessThanOrEqualTo,
    NotEqualTo,
    And,
    Or,
    Not,
    In,
    Integer,
    Text,
    Decimal,
    Boolean,
    PrimaryKey,
    UniqueKey,
    ForeginKey,
    Null,
    Constraint,
    Add,
    Truncate,
    Is,
    Identifier,
    Literal,
    OpenParen,
    CloseParen,
    Comma,
    Semicolon,
    Eof,
    AllColumnsOrMultiplication,
    Invalid,
    AscendingOrder,
    DecendingOrder,
}

} // verus!
