//! Abstract syntax for the SQL statements understood by the engine's front
//! end: table creation and removal, column definitions and the operators a
//! `WHERE` clause can carry.  The storage layer never inspects these; they
//! are plain data carried by the crate for its callers.

use crate::tokens::Types;
use vstd::prelude::*;

verus! {

/// `CREATE TABLE <table> (<columns>)`.
#[derive(Debug)]
pub struct CreateStatement {
    pub table: String,
    pub columns: Vec<ColumnDefinition>,
}

/// One column of a `CREATE TABLE` statement: its name, its type, and its
/// constraints.
#[derive(Debug)]
pub struct ColumnDefinition {
    pub name: String,
    pub data_type: DataType,
    pub constraints: Vec<ColumnConstraint>,
}

/// The data types a column can be declared with.
#[derive(Debug, PartialEq, Clone, Copy)]
pub enum DataType {
    Integer,
    Decimal,
    Text,
    Boolean,
}

/// The constraints a column can be declared with.
#[derive(Debug, PartialEq, Clone, Copy)]
pub enum ColumnConstraint {
    PrimaryKey,
    NotNull,
    UniqueKey,
}

/// `DROP TABLE <table>`.
#[derive(Debug)]
pub struct DropStatement {
    pub table: String,
}

/// One `ORDER BY` entry: the column and its direction.
#[derive(Debug)]
pub struct OrderByClause {
    pub column_name: String,
    pub is_asec: bool,
}

/// One projected column of a `SELECT`: either `*` or a named column.
#[derive(Debug)]
pub enum SelectColumn {
    All,
    Column(String),
}

/// An `IS NULL` / `IS NOT NULL` test on an identifier.
#[derive(Debug)]
pub enum NullCheckCondition {
    IsNull { identifier: String },
    IsNotNull { identifier: String },
}

/// The comparison operators a `WHERE` clause can use.
#[derive(Debug, PartialEq, Clone, Copy)]
pub enum ComparisonOperator {
    EqualTo,
    NotEqual,
    GreaterThan,
    LessThan,
    GreaterThanOrEqual,
    LessThanOrEqual,
}

/// The connectives that combine two `WHERE` conditions.
#[derive(Debug, PartialEq, Clone, Copy)]
pub enum LogicalOperator {
    And,
    Or,
}

impl LogicalOperator {
    /// Maps a scanner token to the logical operator it denotes; any token
    /// other than `AND` or `OR` is refused.
    pub fn match_sql_token_to_operator(sql_token: Types) -> (r: Result<LogicalOperator, String>)
        ensures
            match r {
                Ok(op) => (sql_token == Types::And && op == LogicalOperator::And) || (sql_token
                    == Types::Or && op == LogicalOperator::Or),
                Err(m) => sql_token != Types::And && sql_token != Types::Or && m@
                    == "unexpected token"@,
            },
    {
        match sql_token {
            Types::And => Ok(LogicalOperator::And),
            Types::Or => Ok(LogicalOperator::Or),
            _ => Err("unexpected token".to_owned()),
        }
    }
}

} // verus!
