//! The expression AST used in projections, `WHERE` and `HAVING` clauses.
//!
//! Expressions are backend-neutral; a dialect renders them to SQL plus an ordered
//! list of bound parameters.

use vstd::prelude::*;

use crate::query::ast::{OrderItem, SelectStatement};
use crate::value::Value;

verus! {

/// An aggregate function applied to an expression.
#[derive(Debug, Clone, Copy, PartialEq, Eq, Structural)]
pub enum AggFunc {
    /// `COUNT`
    Count,
    /// `SUM`
    Sum,
    /// `AVG`
    Avg,
    /// `MIN`
    Min,
    /// `MAX`
    Max,
    /// `string_agg(expr, delimiter)`.
    StringAggregation,
    /// `array_agg(expr)`.
    ArrayAggregation,
    /// `json_agg(expr)`.
    JsonAggregation,
    /// `jsonb_agg(expr)`.
    JsonbAggregation,
    /// `bool_and(expr)`.
    BoolAnd,
    /// `bool_or(expr)`.
    BoolOr,
}

/// The SQL name of an aggregate function.
pub open spec fn agg_name(f: AggFunc) -> Seq<char> {
    match f {
        AggFunc::Count => "COUNT"@,
        AggFunc::Sum => "SUM"@,
        AggFunc::Avg => "AVG"@,
        AggFunc::Min => "MIN"@,
        AggFunc::Max => "MAX"@,
        AggFunc::StringAggregation => "string_agg"@,
        AggFunc::ArrayAggregation => "array_agg"@,
        AggFunc::JsonAggregation => "json_agg"@,
        AggFunc::JsonbAggregation => "jsonb_agg"@,
        AggFunc::BoolAnd => "bool_and"@,
        AggFunc::BoolOr => "bool_or"@,
    }
}

impl AggFunc {
    /// Returns the SQL name of this function.
    pub fn as_sql(self) -> (s: &'static str)
        ensures
            s@ == agg_name(self),
    {
        match self {
            AggFunc::Count => "COUNT",
            AggFunc::Sum => "SUM",
            AggFunc::Avg => "AVG",
            AggFunc::Min => "MIN",
            AggFunc::Max => "MAX",
            AggFunc::StringAggregation => "string_agg",
            AggFunc::ArrayAggregation => "array_agg",
            AggFunc::JsonAggregation => "json_agg",
            AggFunc::JsonbAggregation => "jsonb_agg",
            AggFunc::BoolAnd => "bool_and",
            AggFunc::BoolOr => "bool_or",
        }
    }
}

/// A bound in a window frame clause.
#[derive(Debug)]
pub enum WindowBound {
    /// `UNBOUNDED PRECEDING`
    UnboundedPreceding,
    /// `value PRECEDING`
    Preceding(Box<Expr>),
    /// `CURRENT ROW`
    CurrentRow,
    /// `value FOLLOWING`
    Following(Box<Expr>),
    /// `UNBOUNDED FOLLOWING`
    UnboundedFollowing,
}

/// The unit of a window frame: `ROWS`, `RANGE`, or `GROUPS`.
#[derive(Debug, Clone, Copy, PartialEq, Eq, Structural)]
pub enum WindowFrameUnit {
    /// `ROWS`
    Rows,
    /// `RANGE`
    Range,
    /// `GROUPS`
    Groups,
}

/// The keyword of a frame unit.
pub open spec fn unit_name(u: WindowFrameUnit) -> Seq<char> {
    match u {
        WindowFrameUnit::Rows => "ROWS"@,
        WindowFrameUnit::Range => "RANGE"@,
        WindowFrameUnit::Groups => "GROUPS"@,
    }
}

impl WindowFrameUnit {
    /// Returns the keyword of this unit.
    pub fn as_sql(self) -> (s: &'static str)
        ensures
            s@ == unit_name(self),
    {
        match self {
            WindowFrameUnit::Rows => "ROWS",
            WindowFrameUnit::Range => "RANGE",
            WindowFrameUnit::Groups => "GROUPS",
        }
    }
}

/// A `ROWS BETWEEN` / `RANGE BETWEEN` frame clause.
#[derive(Debug)]
pub struct WindowFrame {
    /// `ROWS`, `RANGE`, or `GROUPS`.
    pub unit: WindowFrameUnit,
    /// The start bound.
    pub start: WindowBound,
    /// The end bound; `None` means `CURRENT ROW`.
    pub end: Option<WindowBound>,
}

/// The `OVER` clause of a window function.
#[derive(Debug)]
pub struct Window {
    /// `PARTITION BY` expressions.
    pub partition_by: Vec<Expr>,
    /// `ORDER BY` terms.
    pub order_by: Vec<OrderItem>,
    /// An optional frame clause.
    pub frame: Option<WindowFrame>,
}

/// A binary operator.
#[derive(Debug, Clone, Copy, PartialEq, Eq, Structural)]
pub enum BinaryOp {
    /// `=`
    Eq,
    /// `<>`
    Ne,
    /// `>`
    Gt,
    /// `>=`
    Ge,
    /// `<`
    Lt,
    /// `<=`
    Le,
    /// `+`
    Add,
    /// `-`
    Sub,
    /// `*`
    Mul,
    /// `/`
    Div,
    /// `%`
    Mod,
    /// `LIKE`
    Like,
    /// `ILIKE`, rendered as `lower(left) LIKE lower(right)`.
    ILike,
    /// `->` (JSON access returning JSON).
    JsonGet,
    /// `->>` (JSON access returning text).
    JsonGetText,
    /// `@>` (containment).
    Contains,
    /// `&&` (array overlap).
    Overlap,
    /// `IS DISTINCT FROM`
    IsDistinctFrom,
    /// `IS NOT DISTINCT FROM`
    IsNotDistinctFrom,
    /// `?` (JSON key exists).
    JsonKeyExists,
    /// `?|` (any JSON key exists).
    JsonKeyExistsAny,
    /// `?&` (all JSON keys exist).
    JsonKeyExistsAll,
    /// `#>` (JSON path).
    JsonPath,
    /// `#>>` (JSON path as text).
    JsonPathText,
    /// `<@` (array contained by).
    ArrayContainedBy,
}

/// The SQL spelling of a binary operator.
pub open spec fn op_text(op: BinaryOp) -> Seq<char> {
    match op {
        BinaryOp::Eq => "="@,
        BinaryOp::Ne => "<>"@,
        BinaryOp::Gt => ">"@,
        BinaryOp::Ge => ">="@,
        BinaryOp::Lt => "<"@,
        BinaryOp::Le => "<="@,
        BinaryOp::Add => "+"@,
        BinaryOp::Sub => "-"@,
        BinaryOp::Mul => "*"@,
        BinaryOp::Div => "/"@,
        BinaryOp::Mod => "%"@,
        BinaryOp::Like => "LIKE"@,
        BinaryOp::ILike => "ILIKE"@,
        BinaryOp::JsonGet => "->"@,
        BinaryOp::JsonGetText => "->>"@,
        BinaryOp::Contains => "@>"@,
        BinaryOp::Overlap => "&&"@,
        BinaryOp::IsDistinctFrom => "IS DISTINCT FROM"@,
        BinaryOp::IsNotDistinctFrom => "IS NOT DISTINCT FROM"@,
        BinaryOp::JsonKeyExists => "?"@,
        BinaryOp::JsonKeyExistsAny => "?|"@,
        BinaryOp::JsonKeyExistsAll => "?&"@,
        BinaryOp::JsonPath => "#>"@,
        BinaryOp::JsonPathText => "#>>"@,
        BinaryOp::ArrayContainedBy => "<@"@,
    }
}

impl BinaryOp {
    /// Returns the SQL spelling of this operator.
    pub fn as_sql(self) -> (s: &'static str)
        ensures
            s@ == op_text(self),
    {
        match self {
            BinaryOp::Eq => "=",
            BinaryOp::Ne => "<>",
            BinaryOp::Gt => ">",
            BinaryOp::Ge => ">=",
            BinaryOp::Lt => "<",
            BinaryOp::Le => "<=",
            BinaryOp::Add => "+",
            BinaryOp::Sub => "-",
            BinaryOp::Mul => "*",
            BinaryOp::Div => "/",
            BinaryOp::Mod => "%",
            BinaryOp::Like => "LIKE",
            BinaryOp::ILike => "ILIKE",
            BinaryOp::JsonGet => "->",
            BinaryOp::JsonGetText => "->>",
            BinaryOp::Contains => "@>",
            BinaryOp::Overlap => "&&",
            BinaryOp::IsDistinctFrom => "IS DISTINCT FROM",
            BinaryOp::IsNotDistinctFrom => "IS NOT DISTINCT FROM",
            BinaryOp::JsonKeyExists => "?",
            BinaryOp::JsonKeyExistsAny => "?|",
            BinaryOp::JsonKeyExistsAll => "?&",
            BinaryOp::JsonPath => "#>",
            BinaryOp::JsonPathText => "#>>",
            BinaryOp::ArrayContainedBy => "<@",
        }
    }
}

/// A logical connective joining several expressions.
#[derive(Debug, Clone, Copy, PartialEq, Eq, Structural)]
pub enum LogicalOp {
    /// `AND`
    And,
    /// `OR`
    Or,
}

/// The SQL spelling of a connective.
pub open spec fn logical_text(op: LogicalOp) -> Seq<char> {
    match op {
        LogicalOp::And => "AND"@,
        LogicalOp::Or => "OR"@,
    }
}

impl LogicalOp {
    /// Returns the SQL spelling of this connective.
    pub fn as_sql(self) -> (s: &'static str)
        ensures
            s@ == logical_text(self),
    {
        match self {
            LogicalOp::And => "AND",
            LogicalOp::Or => "OR",
        }
    }
}

/// An expression over columns and bound values.
#[derive(Debug)]
pub enum Expr {
    /// A qualified column reference, `"table"."column"`.
    Column {
        /// The owning table.
        table: &'static str,
        /// The column name.
        column: &'static str,
    },
    /// A bound literal value.
    Value(Value),
    /// A binary operation between two expressions.
    Binary {
        /// The left operand.
        left: Box<Expr>,
        /// The operator.
        op: BinaryOp,
        /// The right operand.
        right: Box<Expr>,
    },
    /// Several expressions joined by `AND` or `OR`.
    Logical {
        /// The connective.
        op: LogicalOp,
        /// The joined expressions.
        items: Vec<Expr>,
    },
    /// The negation of an expression.
    Not(Box<Expr>),
    /// A membership test, `expr IN (values...)`.
    InList {
        /// The tested expression.
        expr: Box<Expr>,
        /// The candidate values.
        values: Vec<Value>,
    },
    /// A null test, `expr IS [NOT] NULL`.
    IsNull {
        /// The tested expression.
        expr: Box<Expr>,
        /// Whether the test is negated (`IS NOT NULL`).
        negated: bool,
    },
    /// An aggregate over one or more expressions, with an optional
    /// `FILTER (WHERE ...)` predicate.
    Aggregate {
        /// The aggregate function.
        func: AggFunc,
        /// The aggregated expressions, in order.
        args: Vec<Expr>,
        /// An optional `FILTER (WHERE ...)` predicate.
        filter: Option<Box<Expr>>,
    },
    /// A scalar function call, `name(arg, ...)`.
    Func {
        /// The function name; only identifier characters are rendered.
        name: String,
        /// The call arguments, in order.
        args: Vec<Expr>,
    },
    /// `COUNT(*)`.
    CountStar,
    /// An aliased expression, `expr AS "alias"`.
    Alias {
        /// The aliased expression.
        expr: Box<Expr>,
        /// The output name.
        alias: &'static str,
    },
    /// A range check, `expr BETWEEN low AND high`.
    Between {
        /// The tested expression.
        expr: Box<Expr>,
        /// The lower bound.
        low: Box<Expr>,
        /// The upper bound.
        high: Box<Expr>,
    },
    /// `CASE WHEN cond THEN result ... [ELSE default] END`.
    Case {
        /// The condition-result pairs, evaluated in order.
        whens: Vec<(Expr, Expr)>,
        /// The fallback expression when no condition matches.
        else_expr: Option<Box<Expr>>,
    },
    /// A scalar subquery, `(SELECT ...)`.
    Subquery(Box<SelectStatement>),
    /// `expr [NOT] IN (SELECT ...)`.
    InSubquery {
        /// The expression to test.
        expr: Box<Expr>,
        /// The subquery that produces candidate values.
        subquery: Box<SelectStatement>,
        /// Whether the test is negated (`NOT IN`).
        negated: bool,
    },
    /// A verbatim SQL fragment with pre-bound parameters (its own `?` markers).
    Raw {
        /// The raw SQL text, emitted verbatim.
        sql: String,
        /// Bound parameters, matched positionally to the fragment's markers.
        params: Vec<Value>,
    },
    /// `[NOT] EXISTS (SELECT ...)`.
    Exists {
        /// The subquery to test.
        subquery: Box<SelectStatement>,
        /// `true` for `NOT EXISTS`.
        negated: bool,
    },
    /// A column of the `EXCLUDED` pseudo-table in an upsert's update clause.
    Excluded(&'static str),
    /// `EXTRACT(field FROM source)`.
    Extract {
        /// The field keyword, emitted verbatim (e.g. `YEAR`).
        field: &'static str,
        /// The source expression.
        source: Box<Expr>,
    },
    /// A window function, `expr OVER (window)`.
    Over {
        /// The windowed expression.
        expr: Box<Expr>,
        /// The `OVER` clause.
        window: Box<Window>,
    },
}

/// Builder for a `CASE WHEN` expression.
pub struct CaseWhen {
    whens: Vec<(Expr, Expr)>,
    else_expr: Option<Box<Expr>>,
}

impl CaseWhen {
    /// The `WHEN cond THEN result` branches collected so far.
    pub closed spec fn branches(&self) -> Seq<(Expr, Expr)> {
        self.whens@
    }

    /// The `ELSE` fallback, if set.
    pub closed spec fn fallback(&self) -> Option<Box<Expr>> {
        self.else_expr
    }

    /// Adds a `WHEN cond THEN result` branch.
    pub fn when(self, cond: Expr, result: Expr) -> (c: Self)
        ensures
            c.branches() == self.branches().push((cond, result)),
            c.fallback() == self.fallback(),
    {
        let mut c = self;
        c.whens.push((cond, result));
        c
    }

    /// Sets the `ELSE default` fallback.
    pub fn else_(self, default: Expr) -> (c: Self)
        ensures
            c.branches() == self.branches(),
            c.fallback() == Some(Box::new(default)),
    {
        CaseWhen { whens: self.whens, else_expr: Some(Box::new(default)) }
    }

    /// Finalizes the expression into an [`Expr::Case`] node.
    pub fn end(self) -> (e: Expr)
        ensures
            e is Case,
            e->whens@ == self.branches(),
            e->else_expr == self.fallback(),
    {
        Expr::Case { whens: self.whens, else_expr: self.else_expr }
    }
}

/// Builder for an `OVER (...)` clause attached to an expression.
pub struct ExprOver {
    expr: Expr,
    window: Window,
}

impl ExprOver {
    /// The windowed expression.
    pub closed spec fn target(&self) -> Expr {
        self.expr
    }

    /// The `OVER` clause built so far.
    pub closed spec fn clause(&self) -> Window {
        self.window
    }

    /// Sets `PARTITION BY` expressions.
    pub fn partition_by(self, cols: Vec<Expr>) -> (o: Self)
        ensures
            o.target() == self.target(),
            o.clause().partition_by@ == cols@,
            o.clause().order_by@ == self.clause().order_by@,
            o.clause().frame == self.clause().frame,
    {
        let ExprOver { expr, window } = self;
        ExprOver {
            expr,
            window: Window { partition_by: cols, order_by: window.order_by, frame: window.frame },
        }
    }

    /// Sets `ORDER BY` terms.
    pub fn order_by(self, terms: Vec<OrderItem>) -> (o: Self)
        ensures
            o.target() == self.target(),
            o.clause().partition_by@ == self.clause().partition_by@,
            o.clause().order_by@ == terms@,
            o.clause().frame == self.clause().frame,
    {
        let ExprOver { expr, window } = self;
        ExprOver {
            expr,
            window: Window { partition_by: window.partition_by, order_by: terms, frame: window.frame },
        }
    }

    /// Sets a `<unit> BETWEEN start AND end` frame.
    pub fn frame_between(self, unit: WindowFrameUnit, start: WindowBound, end: WindowBound) -> (o:
        Self)
        ensures
            o.target() == self.target(),
            o.clause().partition_by@ == self.clause().partition_by@,
            o.clause().order_by@ == self.clause().order_by@,
            o.clause().frame == Some(WindowFrame { unit, start, end: Some(end) }),
    {
        let ExprOver { expr, window } = self;
        ExprOver {
            expr,
            window: Window {
                partition_by: window.partition_by,
                order_by: window.order_by,
                frame: Some(WindowFrame { unit, start, end: Some(end) }),
            },
        }
    }

    /// Sets a `ROWS BETWEEN` frame.
    pub fn rows_between(self, start: WindowBound, end: WindowBound) -> (o: Self)
        ensures
            o.target() == self.target(),
            o.clause().partition_by@ == self.clause().partition_by@,
            o.clause().order_by@ == self.clause().order_by@,
            o.clause().frame == Some(WindowFrame { unit: WindowFrameUnit::Rows, start, end: Some(end) }),
    {
        self.frame_between(WindowFrameUnit::Rows, start, end)
    }

    /// Sets a `RANGE BETWEEN` frame.
    pub fn range_between(self, start: WindowBound, end: WindowBound) -> (o: Self)
        ensures
            o.target() == self.target(),
            o.clause().partition_by@ == self.clause().partition_by@,
            o.clause().order_by@ == self.clause().order_by@,
            o.clause().frame == Some(WindowFrame { unit: WindowFrameUnit::Range, start, end: Some(end) }),
    {
        self.frame_between(WindowFrameUnit::Range, start, end)
    }

    /// Sets a `GROUPS BETWEEN` frame.
    pub fn groups_between(self, start: WindowBound, end: WindowBound) -> (o: Self)
        ensures
            o.target() == self.target(),
            o.clause().partition_by@ == self.clause().partition_by@,
            o.clause().order_by@ == self.clause().order_by@,
            o.clause().frame == Some(WindowFrame { unit: WindowFrameUnit::Groups, start, end: Some(end) }),
    {
        self.frame_between(WindowFrameUnit::Groups, start, end)
    }

    /// Finalizes and returns the `Expr::Over` node.
    pub fn end(self) -> (e: Expr)
        ensures
            e == (Expr::Over { expr: Box::new(self.target()), window: Box::new(self.clause()) }),
    {
        Expr::Over { expr: Box::new(self.expr), window: Box::new(self.window) }
    }
}

impl Expr {
    /// Builds a column reference.
    pub fn column(table: &'static str, column: &'static str) -> (e: Self)
        ensures
            e == (Expr::Column { table, column }),
    {
        Expr::Column { table, column }
    }

    /// Builds a bound value.
    pub fn value(value: Value) -> (e: Self)
        ensures
            e == Expr::Value(value),
    {
        Expr::Value(value)
    }

    /// Builds a reference to `EXCLUDED.<column>` for an upsert's update clause.
    pub fn excluded(column: &'static str) -> (e: Self)
        ensures
            e == Expr::Excluded(column),
    {
        Expr::Excluded(column)
    }

    /// Builds a binary operation.
    pub fn binary(left: Expr, op: BinaryOp, right: Expr) -> (e: Self)
        ensures
            e == (Expr::Binary { left: Box::new(left), op, right: Box::new(right) }),
    {
        Expr::Binary { left: Box::new(left), op, right: Box::new(right) }
    }

    /// Joins expressions with `AND`; an empty list is the always-true expression.
    pub fn all(items: Vec<Expr>) -> (e: Self)
        ensures
            e == (Expr::Logical { op: LogicalOp::And, items }),
    {
        Expr::Logical { op: LogicalOp::And, items }
    }

    /// Joins expressions with `OR`; an empty list is the always-false expression.
    pub fn any(items: Vec<Expr>) -> (e: Self)
        ensures
            e == (Expr::Logical { op: LogicalOp::Or, items }),
    {
        Expr::Logical { op: LogicalOp::Or, items }
    }

    /// Negates an expression.
    pub fn not(expr: Expr) -> (e: Self)
        ensures
            e == Expr::Not(Box::new(expr)),
    {
        Expr::Not(Box::new(expr))
    }

    /// Builds a membership test.
    pub fn in_list(expr: Expr, values: Vec<Value>) -> (e: Self)
        ensures
            e == (Expr::InList { expr: Box::new(expr), values }),
    {
        Expr::InList { expr: Box::new(expr), values }
    }

    /// Builds a null test (`negated` selects `IS NOT NULL`).
    pub fn is_null(expr: Expr, negated: bool) -> (e: Self)
        ensures
            e == (Expr::IsNull { expr: Box::new(expr), negated }),
    {
        Expr::IsNull { expr: Box::new(expr), negated }
    }

    /// Builds an aggregate over one or more expressions.
    pub fn aggregate(func: AggFunc, args: Vec<Expr>) -> (e: Self)
        ensures
            e == (Expr::Aggregate { func, args, filter: None }),
    {
        Expr::Aggregate { func, args, filter: None }
    }

    /// Attaches a `FILTER (WHERE ...)` clause to an aggregate without one.
    pub fn filter(self, predicate: Expr) -> (e: Self)
        requires
            self is Aggregate,
            self->filter is None,
        ensures
            e == (Expr::Aggregate {
                func: self->func,
                args: self->Aggregate_args,
                filter: Some(Box::new(predicate)),
            }),
    {
        match self {
            Expr::Aggregate { func, args, filter: _ } => Expr::Aggregate {
                func,
                args,
                filter: Some(Box::new(predicate)),
            },
            _ => self,
        }
    }

    /// Builds a scalar function call, `name(args...)`.
    pub fn func(name: String, args: Vec<Expr>) -> (e: Self)
        ensures
            e == (Expr::Func { name, args }),
    {
        Expr::Func { name, args }
    }

    /// Builds a range check (`BETWEEN low AND high`, inclusive on both ends).
    pub fn between(expr: Expr, low: Expr, high: Expr) -> (e: Self)
        ensures
            e == (Expr::Between { expr: Box::new(expr), low: Box::new(low), high: Box::new(high) }),
    {
        Expr::Between { expr: Box::new(expr), low: Box::new(low), high: Box::new(high) }
    }

    /// Starts a `CASE WHEN` chain.
    pub fn case() -> (c: CaseWhen)
        ensures
            c.branches().len() == 0,
            c.fallback() is None,
    {
        CaseWhen { whens: Vec::new(), else_expr: None }
    }

    /// Wraps a statement into a scalar subquery expression `(SELECT ...)`.
    pub fn subquery(stmt: SelectStatement) -> (e: Self)
        ensures
            e == Expr::Subquery(Box::new(stmt)),
    {
        Expr::Subquery(Box::new(stmt))
    }

    /// Builds a `col [NOT] IN (SELECT ...)` test.
    pub fn in_subquery(expr: Expr, stmt: SelectStatement, negated: bool) -> (e: Self)
        ensures
            e == (Expr::InSubquery { expr: Box::new(expr), subquery: Box::new(stmt), negated }),
    {
        Expr::InSubquery { expr: Box::new(expr), subquery: Box::new(stmt), negated }
    }

    /// Builds `[NOT] EXISTS (SELECT ...)` over a statement.
    pub fn exists_statement(stmt: SelectStatement, negated: bool) -> (e: Self)
        ensures
            e == (Expr::Exists { subquery: Box::new(stmt), negated }),
    {
        Expr::Exists { subquery: Box::new(stmt), negated }
    }

    /// Embeds a verbatim SQL fragment with no bound parameters.
    pub fn raw(sql: String) -> (e: Self)
        ensures
            e matches Expr::Raw { sql: s, params } && s == sql && params@.len() == 0,
    {
        Expr::Raw { sql, params: Vec::new() }
    }

    /// Wraps this expression in an `OVER (...)` clause builder.
    pub fn over(self) -> (o: ExprOver)
        ensures
            o.target() == self,
            o.clause().partition_by@.len() == 0,
            o.clause().order_by@.len() == 0,
            o.clause().frame is None,
    {
        ExprOver {
            expr: self,
            window: Window { partition_by: Vec::new(), order_by: Vec::new(), frame: None },
        }
    }

    /// Aliases this expression, `expr AS "alias"`.
    pub fn as_(self, alias: &'static str) -> (e: Self)
        ensures
            e == (Expr::Alias { expr: Box::new(self), alias }),
    {
        Expr::Alias { expr: Box::new(self), alias }
    }

    /// `expr op value` against a bound value.
    pub fn compare(self, op: BinaryOp, value: Value) -> (e: Self)
        ensures
            e == (Expr::Binary {
                left: Box::new(self),
                op,
                right: Box::new(Expr::Value(value)),
            }),
    {
        Expr::binary(self, op, Expr::Value(value))
    }

    /// `expr = value`
    pub fn eq(self, value: Value) -> (e: Self)
        ensures
            e == (Expr::Binary {
                left: Box::new(self),
                op: BinaryOp::Eq,
                right: Box::new(Expr::Value(value)),
            }),
    {
        self.compare(BinaryOp::Eq, value)
    }

    /// `expr <> value`
    pub fn ne(self, value: Value) -> (e: Self)
        ensures
            e == (Expr::Binary {
                left: Box::new(self),
                op: BinaryOp::Ne,
                right: Box::new(Expr::Value(value)),
            }),
    {
        self.compare(BinaryOp::Ne, value)
    }

    /// `expr > value`
    pub fn gt(self, value: Value) -> (e: Self)
        ensures
            e == (Expr::Binary {
                left: Box::new(self),
                op: BinaryOp::Gt,
                right: Box::new(Expr::Value(value)),
            }),
    {
        self.compare(BinaryOp::Gt, value)
    }

    /// `expr >= value`
    pub fn ge(self, value: Value) -> (e: Self)
        ensures
            e == (Expr::Binary {
                left: Box::new(self),
                op: BinaryOp::Ge,
                right: Box::new(Expr::Value(value)),
            }),
    {
        self.compare(BinaryOp::Ge, value)
    }

    /// `expr < value`
    pub fn lt(self, value: Value) -> (e: Self)
        ensures
            e == (Expr::Binary {
                left: Box::new(self),
                op: BinaryOp::Lt,
                right: Box::new(Expr::Value(value)),
            }),
    {
        self.compare(BinaryOp::Lt, value)
    }

    /// `expr <= value`
    pub fn le(self, value: Value) -> (e: Self)
        ensures
            e == (Expr::Binary {
                left: Box::new(self),
                op: BinaryOp::Le,
                right: Box::new(Expr::Value(value)),
            }),
    {
        self.compare(BinaryOp::Le, value)
    }

    /// `expr + rhs`
    pub fn add(self, rhs: Expr) -> (e: Self)
        ensures
            e == (Expr::Binary { left: Box::new(self), op: BinaryOp::Add, right: Box::new(rhs) }),
    {
        Expr::binary(self, BinaryOp::Add, rhs)
    }

    /// `expr - rhs`
    pub fn sub(self, rhs: Expr) -> (e: Self)
        ensures
            e == (Expr::Binary { left: Box::new(self), op: BinaryOp::Sub, right: Box::new(rhs) }),
    {
        Expr::binary(self, BinaryOp::Sub, rhs)
    }

    /// `expr * rhs`
    pub fn mul(self, rhs: Expr) -> (e: Self)
        ensures
            e == (Expr::Binary { left: Box::new(self), op: BinaryOp::Mul, right: Box::new(rhs) }),
    {
        Expr::binary(self, BinaryOp::Mul, rhs)
    }

    /// `expr / rhs`
    pub fn div(self, rhs: Expr) -> (e: Self)
        ensures
            e == (Expr::Binary { left: Box::new(self), op: BinaryOp::Div, right: Box::new(rhs) }),
    {
        Expr::binary(self, BinaryOp::Div, rhs)
    }

    /// `expr % rhs`
    pub fn rem(self, rhs: Expr) -> (e: Self)
        ensures
            e == (Expr::Binary { left: Box::new(self), op: BinaryOp::Mod, right: Box::new(rhs) }),
    {
        Expr::binary(self, BinaryOp::Mod, rhs)
    }

    /// Orders by this expression ascending.
    pub fn asc(self) -> (o: OrderItem)
        ensures
            o == (OrderItem { expr: self, descending: false, nulls: None }),
    {
        OrderItem::new(self, false)
    }

    /// Orders by this expression descending.
    pub fn desc(self) -> (o: OrderItem)
        ensures
            o == (OrderItem { expr: self, descending: true, nulls: None }),
    {
        OrderItem::new(self, true)
    }
}

} // verus!
