//! The write-statement AST: inserts, updates, and deletes.
//!
//! Like the [`SelectStatement`](crate::query::ast::SelectStatement), these are
//! backend-neutral and rendered to SQL plus bound parameters by a dialect's
//! writer. All written values are bound parameters.

use vstd::prelude::*;

use crate::query::expr::Expr;
use crate::value::Value;

verus! {

/// A column assignment in an `UPDATE` (`column = expression`).
#[derive(Debug)]
pub struct Assignment {
    /// The column being assigned.
    pub column: &'static str,
    /// The expression to assign to the column.
    pub value: Expr,
}

impl Assignment {
    /// Builds an assignment of `value` to `column`.
    pub fn new(column: &'static str, value: Expr) -> (a: Self)
        ensures
            a == (Assignment { column, value }),
    {
        Assignment { column, value }
    }
}

/// What an `INSERT` does when a row collides with an existing unique key.
#[derive(Debug)]
pub enum OnConflict {
    /// No conflict clause: a collision aborts the statement with an error.
    Abort,
    /// Update the existing row (`ON CONFLICT (target) DO UPDATE SET ...`,
    /// `ON DUPLICATE KEY UPDATE ...` on MySQL).
    Update {
        /// The conflict-target columns.
        constraint: Vec<&'static str>,
        /// The assignments applied to the existing row.
        updates: Vec<Assignment>,
    },
    /// Skip the colliding row (`ON CONFLICT DO NOTHING`, `INSERT IGNORE` on MySQL).
    DoNothing {
        /// The conflict-target columns; empty means any unique key.
        constraint: Vec<&'static str>,
    },
}

/// An `INSERT` statement, possibly inserting several rows.
#[derive(Debug)]
pub struct InsertStatement {
    /// The target table.
    pub table: &'static str,
    /// The columns written, in order.
    pub columns: Vec<&'static str>,
    /// One value list per inserted row, each aligned with `columns`.
    pub rows: Vec<Vec<Value>>,
    /// Columns to return from the inserted rows; empty means no `RETURNING`.
    pub returning: Vec<&'static str>,
    /// The conflict policy.
    pub on_conflict: OnConflict,
}

/// An `UPDATE` statement.
#[derive(Debug)]
pub struct UpdateStatement {
    /// The target table.
    pub table: &'static str,
    /// The column assignments.
    pub assignments: Vec<Assignment>,
    /// The predicates restricting which rows change, joined by `AND`.
    pub filters: Vec<Expr>,
    /// Columns to return from the updated rows; empty means no `RETURNING`.
    pub returning: Vec<&'static str>,
}

/// A `DELETE` statement.
#[derive(Debug)]
pub struct DeleteStatement {
    /// The target table.
    pub table: &'static str,
    /// The predicates restricting which rows are removed, joined by `AND`.
    pub filters: Vec<Expr>,
    /// Columns to return from the removed rows; empty means no `RETURNING`.
    pub returning: Vec<&'static str>,
}

} // verus!
