//! Composable builders for parameterized `select` statements.
//!
//! A [`ComposableQueryBuilder`] collects a table expression, columns, joins,
//! conditions, grouping, one sort column, a limit and an offset. Its table
//! expression may be a template whose markers (`?`) stand for nested builders,
//! to any depth. Assembling a builder gives one text with markers and the
//! values that belong to the markers, in the order of the markers; rendering
//! replaces the markers by the positional tokens `$1`, `$2`, ... and binds the
//! values in that order.
//!
//! Nothing here looks into the fragments it is given: a template with more or
//! fewer markers than values is assembled and rendered all the same, by the
//! rule that [`text::splice`] states.
//!
//! Every function is verified against a contract over the models in
//! [`builder`], [`where_clause`], [`sql_value`] and [`statement`]; [`laws`]
//! holds what follows from the contracts taken together.

use vstd::prelude::*;

pub mod builder;
pub mod laws;
pub mod order;
pub mod pairing;
pub mod sql_value;
pub mod statement;
pub mod text;
pub mod where_clause;

pub use builder::{ComposableQueryBuilder, TableType};
pub use order::OrderDir;
pub use sql_value::SQLValue;
pub use where_clause::WhereClauses;

verus! {

/// The operator that joins a condition to the one that follows it.
#[derive(Debug, Clone, Copy, PartialEq, Eq, Structural)]
pub enum BoolKind {
    And,
    Or,
}

impl BoolKind {
    /// The keyword that stands for this operator in a statement.
    pub open spec fn token(self) -> Seq<char> {
        match self {
            BoolKind::And => "and"@,
            BoolKind::Or => "or"@,
        }
    }

    /// The keyword as a string.
    pub fn as_str(&self) -> (s: &'static str)
        ensures
            s@ == self.token(),
    {
        match self {
            BoolKind::And => "and",
            BoolKind::Or => "or",
        }
    }
}

} // verus!
