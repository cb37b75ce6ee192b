//! The statement AST built by the query builder.
//!
//! A [`SelectStatement`] is the backend-neutral description of a query; a
//! dialect's writer renders it to SQL plus bound parameters.

use vstd::prelude::*;

use crate::query::expr::Expr;

verus! {

/// One item in a `SELECT` projection.
#[derive(Debug)]
pub enum SelectItem {
    /// A qualified column, `"table"."column"`.
    Column {
        /// The owning table.
        table: &'static str,
        /// The column name.
        column: &'static str,
    },
    /// An arbitrary expression, such as an aggregate or an aliased column.
    Expression(Expr),
}

/// The kind of join.
#[derive(Debug, Clone, Copy, PartialEq, Eq, Structural)]
pub enum JoinKind {
    /// `INNER JOIN`: only rows that match on both sides.
    Inner,
    /// `LEFT JOIN`: all left rows; NULLs on the right when no match.
    Left,
    /// `RIGHT JOIN`: all right rows; NULLs on the left when no match.
    Right,
    /// `FULL OUTER JOIN`: all rows from both sides with NULLs for mismatches.
    Full,
    /// `CROSS JOIN`: the cartesian product; it has no `ON` condition.
    Cross,
}

/// The SQL keyword of a join kind.
pub open spec fn join_keyword(kind: JoinKind) -> Seq<char> {
    match kind {
        JoinKind::Inner => "INNER JOIN"@,
        JoinKind::Left => "LEFT JOIN"@,
        JoinKind::Right => "RIGHT JOIN"@,
        JoinKind::Full => "FULL OUTER JOIN"@,
        JoinKind::Cross => "CROSS JOIN"@,
    }
}

impl JoinKind {
    /// Returns the SQL keyword for this join kind.
    pub fn as_sql(self) -> (s: &'static str)
        ensures
            s@ == join_keyword(self),
    {
        match self {
            JoinKind::Inner => "INNER JOIN",
            JoinKind::Left => "LEFT JOIN",
            JoinKind::Right => "RIGHT JOIN",
            JoinKind::Full => "FULL OUTER JOIN",
            JoinKind::Cross => "CROSS JOIN",
        }
    }
}

/// A join onto another table; the condition equates two qualified columns.
#[derive(Debug, Clone, Copy)]
pub struct Join {
    /// The kind of join.
    pub kind: JoinKind,
    /// The table brought into the query.
    pub table: &'static str,
    /// An optional alias for the joined table (`JOIN table AS alias`).
    pub alias: Option<&'static str>,
    /// The left side table of the `ON` condition.
    pub left_table: &'static str,
    /// The left side column of the `ON` condition.
    pub left_column: &'static str,
    /// The right side table of the `ON` condition.
    pub right_table: &'static str,
    /// The right side column of the `ON` condition.
    pub right_column: &'static str,
}

/// A single `ORDER BY` term.
#[derive(Debug)]
pub struct OrderItem {
    /// The expression to order by.
    pub expr: Expr,
    /// Whether to sort descending.
    pub descending: bool,
    /// Where to place `NULL` values: `Some(true)` = `NULLS FIRST`,
    /// `Some(false)` = `NULLS LAST`, `None` = database default.
    pub nulls: Option<bool>,
}

impl OrderItem {
    /// Builds an order term with the database's default NULL placement.
    pub fn new(expr: Expr, descending: bool) -> (o: Self)
        ensures
            o == (OrderItem { expr, descending, nulls: None }),
    {
        OrderItem { expr, descending, nulls: None }
    }

    /// Places `NULL` values before non-null values (`NULLS FIRST`).
    pub fn nulls_first(self) -> (o: Self)
        ensures
            o == (OrderItem { expr: self.expr, descending: self.descending, nulls: Some(true) }),
    {
        OrderItem { expr: self.expr, descending: self.descending, nulls: Some(true) }
    }

    /// Places `NULL` values after non-null values (`NULLS LAST`).
    pub fn nulls_last(self) -> (o: Self)
        ensures
            o == (OrderItem { expr: self.expr, descending: self.descending, nulls: Some(false) }),
    {
        OrderItem { expr: self.expr, descending: self.descending, nulls: Some(false) }
    }
}

/// A Common Table Expression: `name [(columns)] AS (query)`.
#[derive(Debug)]
pub struct Cte {
    /// The CTE name.
    pub name: &'static str,
    /// Optional output column names (the parenthesised list after the name).
    pub columns: Option<Vec<&'static str>>,
    /// The CTE body, a `SELECT` or `UNION` statement.
    pub query: CteQuery,
}

/// The body of a Common Table Expression.
#[derive(Debug)]
pub enum CteQuery {
    /// A plain `SELECT` statement.
    Select(SelectStatement),
    /// A `UNION` / `UNION ALL` of several `SELECT` statements.
    Union(Box<UnionStatement>),
}

/// The `WITH [RECURSIVE]` clause at the head of a `SELECT` statement.
#[derive(Debug)]
pub struct WithClause {
    /// Whether this is `WITH RECURSIVE`.
    pub recursive: bool,
    /// The list of Common Table Expressions.
    pub ctes: Vec<Cte>,
}

/// A `SELECT` statement.
#[derive(Debug)]
pub struct SelectStatement {
    /// An optional `WITH` clause at the head of the statement.
    pub with: Option<WithClause>,
    /// The table being queried.
    pub table: &'static str,
    /// The projected items.
    pub projection: Vec<SelectItem>,
    /// The joined tables.
    pub joins: Vec<Join>,
    /// The top-level predicates, joined by `AND`.
    pub filters: Vec<Expr>,
    /// The `GROUP BY` expressions.
    pub group_by: Vec<Expr>,
    /// The `HAVING` predicate.
    pub having: Option<Expr>,
    /// The ordering terms.
    pub order_by: Vec<OrderItem>,
    /// An optional row limit.
    pub limit: Option<u64>,
    /// An optional row offset.
    pub offset: Option<u64>,
    /// Whether to return distinct rows.
    pub distinct: bool,
    /// `DISTINCT ON (...)` expressions (PostgreSQL). Empty means no `DISTINCT ON`.
    pub distinct_on: Vec<Expr>,
    /// An optional row-level locking clause (`FOR UPDATE`/`FOR SHARE`).
    pub lock: Option<LockClause>,
}

/// The strength of a row-level lock.
#[derive(Debug, Clone, Copy, PartialEq, Eq, Structural)]
pub enum LockStrength {
    /// `FOR UPDATE`: blocks other writers and lockers of the rows.
    Update,
    /// `FOR SHARE`: allows concurrent readers but blocks writers.
    Share,
}

/// How a locking read behaves when a target row is already locked.
#[derive(Debug, Clone, Copy, PartialEq, Eq, Structural)]
pub enum LockWait {
    /// Wait for the lock to be released (the default).
    Wait,
    /// Fail immediately rather than wait (`NOWAIT`).
    NoWait,
    /// Skip rows that are already locked (`SKIP LOCKED`).
    SkipLocked,
}

/// A row-level locking clause: a strength plus optional `OF` tables and a
/// wait policy.
#[derive(Debug)]
pub struct LockClause {
    /// `FOR UPDATE` or `FOR SHARE`.
    pub strength: LockStrength,
    /// What to do when a row is already locked.
    pub wait: LockWait,
    /// Tables named in an `OF ...` restriction; empty locks every table.
    pub of: Vec<&'static str>,
}

impl LockClause {
    /// A plain `FOR <strength>` with no `OF` and the default wait policy.
    pub fn new(strength: LockStrength) -> (c: Self)
        ensures
            c.strength == strength,
            c.wait == LockWait::Wait,
            c.of@.len() == 0,
    {
        LockClause { strength, wait: LockWait::Wait, of: Vec::new() }
    }

    /// Returns `true` if the clause uses any feature beyond a bare `FOR UPDATE`
    /// (a share lock, a wait policy, or an `OF` restriction).
    pub fn uses_modifiers(&self) -> (b: bool)
        ensures
            b == (self.strength != LockStrength::Update || self.wait != LockWait::Wait
                || self.of@.len() > 0),
    {
        self.strength != LockStrength::Update || self.wait != LockWait::Wait || self.of.len() > 0
    }
}

/// A `UNION` or `UNION ALL` combining two or more `SELECT` statements.
///
/// The `order_by`, `limit`, `offset` and `lock` fields apply to the whole
/// combined result, not to any individual branch.
#[derive(Debug)]
pub struct UnionStatement {
    /// The first `SELECT`.
    pub first: SelectStatement,
    /// Subsequent branches; the flag is `true` for `UNION ALL`, `false` for
    /// `UNION` (distinct).
    pub rest: Vec<(bool, SelectStatement)>,
    /// `ORDER BY` terms applied after all branches are combined.
    pub order_by: Vec<OrderItem>,
    /// Optional row limit applied to the combined result.
    pub limit: Option<u64>,
    /// Optional row offset applied to the combined result.
    pub offset: Option<u64>,
    /// An optional row-level locking clause applied to the combined result.
    pub lock: Option<LockClause>,
}

impl SelectStatement {
    /// Builds a statement selecting the given items from `table`.
    pub fn new(table: &'static str, projection: Vec<SelectItem>) -> (s: Self)
        ensures
            s.with is None,
            s.table == table,
            s.projection == projection,
            s.joins@.len() == 0,
            s.filters@.len() == 0,
            s.group_by@.len() == 0,
            s.having is None,
            s.order_by@.len() == 0,
            s.limit is None,
            s.offset is None,
            !s.distinct,
            s.distinct_on@.len() == 0,
            s.lock is None,
    {
        SelectStatement {
            with: None,
            table,
            projection,
            joins: Vec::new(),
            filters: Vec::new(),
            group_by: Vec::new(),
            having: None,
            order_by: Vec::new(),
            limit: None,
            offset: None,
            distinct: false,
            distinct_on: Vec::new(),
            lock: None,
        }
    }
}

} // verus!
