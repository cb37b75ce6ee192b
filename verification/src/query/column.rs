//! Typed column handles.
//!
//! A [`Column`] names a model's column and carries the column's Rust type `T`.
//! Its comparison methods build [`Expr`] nodes whose right-hand side is a bound
//! parameter, and `T` constrains what a column can be compared against, so a type
//! mismatch is a compile error rather than a run-time surprise.

use std::marker::PhantomData;

use vstd::prelude::*;

use crate::query::ast::OrderItem;
use crate::query::expr::{AggFunc, BinaryOp, Expr};
use crate::query::func::{aggregates, calls, is_text};
use crate::query::write::Assignment;
use crate::text::{owned, push_str};
use crate::value::{is_text_value, BindValue, Value};

verus! {

/// A comparison right-hand side, lowered into a bound value and constrained by
/// the column's type `T`: any `T` that is itself a [`BindValue`], and a `&str`
/// for a `String` column.
pub trait IntoSqlValue<T> {
    /// Whether `v` is what this lowers to.
    spec fn lowers_to(&self, v: Value) -> bool;

    /// Lowers this into a bound value.
    fn into_sql_value(self) -> (v: Value)
        ensures
            self.lowers_to(v),
    ;
}

impl<T: BindValue> IntoSqlValue<T> for T {
    open spec fn lowers_to(&self, v: Value) -> bool {
        self.binds_as(v)
    }

    fn into_sql_value(self) -> (v: Value) {
        self.to_value()
    }
}

impl IntoSqlValue<String> for &str {
    open spec fn lowers_to(&self, v: Value) -> bool {
        is_text_value(v, self@)
    }

    fn into_sql_value(self) -> (v: Value) {
        Value::Text(owned(self))
    }
}

/// What a column assignment accepts: a literal of the column's type (bound), or
/// any expression.
pub trait IntoAssignExpr<T> {
    /// Whether `e` is the assigned expression.
    spec fn assigns(&self, e: Expr) -> bool;

    /// Converts this into the assigned expression.
    fn into_assign_expr(self) -> (e: Expr)
        ensures
            self.assigns(e),
    ;
}

impl IntoAssignExpr<i64> for i64 {
    open spec fn assigns(&self, e: Expr) -> bool {
        e == Expr::Value(Value::Int(*self))
    }

    fn into_assign_expr(self) -> (e: Expr) {
        Expr::value(Value::Int(self))
    }
}

impl IntoAssignExpr<Option<i64>> for i64 {
    open spec fn assigns(&self, e: Expr) -> bool {
        e == Expr::Value(Value::Int(*self))
    }

    fn into_assign_expr(self) -> (e: Expr) {
        Expr::value(Value::Int(self))
    }
}

impl IntoAssignExpr<i32> for i32 {
    open spec fn assigns(&self, e: Expr) -> bool {
        e == Expr::Value(Value::Int(*self as i64))
    }

    fn into_assign_expr(self) -> (e: Expr) {
        Expr::value(Value::Int(self as i64))
    }
}

impl IntoAssignExpr<Option<i32>> for i32 {
    open spec fn assigns(&self, e: Expr) -> bool {
        e == Expr::Value(Value::Int(*self as i64))
    }

    fn into_assign_expr(self) -> (e: Expr) {
        Expr::value(Value::Int(self as i64))
    }
}

impl IntoAssignExpr<bool> for bool {
    open spec fn assigns(&self, e: Expr) -> bool {
        e == Expr::Value(Value::Bool(*self))
    }

    fn into_assign_expr(self) -> (e: Expr) {
        Expr::value(Value::Bool(self))
    }
}

impl IntoAssignExpr<Option<bool>> for bool {
    open spec fn assigns(&self, e: Expr) -> bool {
        e == Expr::Value(Value::Bool(*self))
    }

    fn into_assign_expr(self) -> (e: Expr) {
        Expr::value(Value::Bool(self))
    }
}

impl IntoAssignExpr<String> for String {
    open spec fn assigns(&self, e: Expr) -> bool {
        e == Expr::Value(Value::Text(*self))
    }

    fn into_assign_expr(self) -> (e: Expr) {
        Expr::value(Value::Text(self))
    }
}

impl IntoAssignExpr<Option<String>> for String {
    open spec fn assigns(&self, e: Expr) -> bool {
        e == Expr::Value(Value::Text(*self))
    }

    fn into_assign_expr(self) -> (e: Expr) {
        Expr::value(Value::Text(self))
    }
}

impl IntoAssignExpr<String> for &str {
    open spec fn assigns(&self, e: Expr) -> bool {
        e matches Expr::Value(v) && is_text_value(v, self@)
    }

    fn into_assign_expr(self) -> (e: Expr) {
        Expr::value(Value::Text(owned(self)))
    }
}

impl<T> IntoAssignExpr<T> for Value {
    open spec fn assigns(&self, e: Expr) -> bool {
        e == Expr::Value(*self)
    }

    fn into_assign_expr(self) -> (e: Expr) {
        Expr::value(self)
    }
}

impl<T> IntoAssignExpr<T> for Expr {
    open spec fn assigns(&self, e: Expr) -> bool {
        e == *self
    }

    fn into_assign_expr(self) -> (e: Expr) {
        self
    }
}

/// Marks the column types that support numeric aggregates and arithmetic.
pub trait Numeric {}

impl Numeric for i64 {}

impl Numeric for i32 {}

/// A typed reference to a model column: `M` is the owning model and `T` the
/// column's Rust type.
pub struct Column<M, T> {
    table: &'static str,
    name: &'static str,
    _marker: PhantomData<(M, T)>,
}

/// Whether `e` is `left op <bound value>` with a value `w` that `matches_value`
/// accepts.
pub open spec fn compares(e: Expr, left: Expr, op: BinaryOp, value_ok: spec_fn(Value) -> bool) -> bool {
    e matches Expr::Binary { left: l, op: o, right: r } && *l == left && o == op && match *r {
        Expr::Value(w) => value_ok(w),
        _ => false,
    }
}

impl<M, T> Column<M, T> {
    /// The owning table.
    pub closed spec fn spec_table(&self) -> &'static str {
        self.table
    }

    /// The column name.
    pub closed spec fn spec_name(&self) -> &'static str {
        self.name
    }

    /// This column as an expression: `"table"."name"`.
    pub open spec fn spec_expr(&self) -> Expr {
        Expr::Column { table: self.spec_table(), column: self.spec_name() }
    }

    /// A handle for `table`.`name`.
    pub fn new(table: &'static str, name: &'static str) -> (c: Self)
        ensures
            c.spec_table() == table,
            c.spec_name() == name,
    {
        Column { table, name, _marker: PhantomData }
    }

    /// The owning table name.
    pub fn table(&self) -> (t: &'static str)
        ensures
            t == self.spec_table(),
    {
        self.table
    }

    /// The column name.
    pub fn name(&self) -> (n: &'static str)
        ensures
            n == self.spec_name(),
    {
        self.name
    }

    /// This column as an expression node.
    pub fn expr(&self) -> (e: Expr)
        ensures
            e == self.spec_expr(),
    {
        Expr::column(self.table, self.name)
    }

    fn compare<V: IntoSqlValue<T>>(self, op: BinaryOp, value: V) -> (e: Expr)
        ensures
            compares(e, self.spec_expr(), op, |w: Value| value.lowers_to(w)),
    {
        let ghost v0 = value;
        let left = self.expr();
        let bound = value.into_sql_value();
        let e = Expr::binary(left, op, Expr::value(bound));
        assert(v0.lowers_to(bound));
        e
    }

    /// `column = value`.
    pub fn eq<V: IntoSqlValue<T>>(self, value: V) -> (e: Expr)
        ensures
            compares(e, self.spec_expr(), BinaryOp::Eq, |w: Value| value.lowers_to(w)),
    {
        self.compare(BinaryOp::Eq, value)
    }

    /// `column <> value`.
    pub fn ne<V: IntoSqlValue<T>>(self, value: V) -> (e: Expr)
        ensures
            compares(e, self.spec_expr(), BinaryOp::Ne, |w: Value| value.lowers_to(w)),
    {
        self.compare(BinaryOp::Ne, value)
    }

    /// `column > value`.
    pub fn gt<V: IntoSqlValue<T>>(self, value: V) -> (e: Expr)
        ensures
            compares(e, self.spec_expr(), BinaryOp::Gt, |w: Value| value.lowers_to(w)),
    {
        self.compare(BinaryOp::Gt, value)
    }

    /// `column >= value`.
    pub fn ge<V: IntoSqlValue<T>>(self, value: V) -> (e: Expr)
        ensures
            compares(e, self.spec_expr(), BinaryOp::Ge, |w: Value| value.lowers_to(w)),
    {
        self.compare(BinaryOp::Ge, value)
    }

    /// `column < value`.
    pub fn lt<V: IntoSqlValue<T>>(self, value: V) -> (e: Expr)
        ensures
            compares(e, self.spec_expr(), BinaryOp::Lt, |w: Value| value.lowers_to(w)),
    {
        self.compare(BinaryOp::Lt, value)
    }

    /// `column <= value`.
    pub fn le<V: IntoSqlValue<T>>(self, value: V) -> (e: Expr)
        ensures
            compares(e, self.spec_expr(), BinaryOp::Le, |w: Value| value.lowers_to(w)),
    {
        self.compare(BinaryOp::Le, value)
    }

    /// `column IS DISTINCT FROM value`: inequality where two `NULL`s are equal.
    pub fn is_distinct_from<V: IntoSqlValue<T>>(self, value: V) -> (e: Expr)
        ensures
            compares(e, self.spec_expr(), BinaryOp::IsDistinctFrom, |w: Value| value.lowers_to(w)),
    {
        self.compare(BinaryOp::IsDistinctFrom, value)
    }

    /// `column IS NOT DISTINCT FROM value`: equality where two `NULL`s are equal.
    pub fn is_not_distinct_from<V: IntoSqlValue<T>>(self, value: V) -> (e: Expr)
        ensures
            compares(e, self.spec_expr(), BinaryOp::IsNotDistinctFrom, |w: Value| value.lowers_to(w)),
    {
        self.compare(BinaryOp::IsNotDistinctFrom, value)
    }

    /// `column IN (values...)`.
    pub fn in_list<V: IntoSqlValue<T>>(self, values: Vec<V>) -> (e: Expr)
        ensures
            e matches Expr::InList { expr, values: vs } && *expr == self.spec_expr() && vs@.len()
                == values@.len() && forall|i: int| 0 <= i < values@.len() ==> #[trigger] values@[i].lowers_to(vs@[i]),
    {
        let ghost all = values@;
        let mut rest = values;
        let mut bound: Vec<Value> = Vec::new();
        while rest.len() > 0
            invariant
                bound@.len() + rest@.len() == all.len(),
                rest@ == all.subrange(bound@.len() as int, all.len() as int),
                forall|i: int| 0 <= i < bound@.len() ==> #[trigger] all[i].lowers_to(bound@[i]),
            decreases rest@.len(),
        {
            let ghost n = bound@.len();
            let v = rest.remove(0);
            assert(v == all[n as int]);
            bound.push(v.into_sql_value());
        }
        Expr::in_list(self.expr(), bound)
    }

    /// `column NOT IN (values...)`; no values match every row.
    pub fn not_in<V: IntoSqlValue<T>>(self, values: Vec<V>) -> (e: Expr)
        ensures
            e matches Expr::Not(inner) && (*inner matches Expr::InList { expr, values: vs } && *expr
                == self.spec_expr() && vs@.len() == values@.len() && forall|i: int|
                0 <= i < values@.len() ==> #[trigger] values@[i].lowers_to(vs@[i])),
    {
        Expr::not(self.in_list(values))
    }

    /// `column BETWEEN low AND high`, inclusive on both ends.
    pub fn between<V: IntoSqlValue<T>>(self, low: V, high: V) -> (e: Expr)
        ensures
            e matches Expr::Between { expr, low: l, high: h } && *expr == self.spec_expr() && match (*l, *h) {
                (Expr::Value(a), Expr::Value(b)) => low.lowers_to(a) && high.lowers_to(b),
                _ => false,
            },
    {
        let ghost (lo, hi) = (low, high);
        let a = low.into_sql_value();
        let b = high.into_sql_value();
        let e = Expr::between(self.expr(), Expr::value(a), Expr::value(b));
        assert(lo.lowers_to(a) && hi.lowers_to(b));
        e
    }

    /// `column IS NULL`.
    pub fn is_null(self) -> (e: Expr)
        ensures
            e == (Expr::IsNull { expr: Box::new(self.spec_expr()), negated: false }),
    {
        Expr::is_null(self.expr(), false)
    }

    /// `column IS NOT NULL`.
    pub fn is_not_null(self) -> (e: Expr)
        ensures
            e == (Expr::IsNull { expr: Box::new(self.spec_expr()), negated: true }),
    {
        Expr::is_null(self.expr(), true)
    }

    /// Orders by this column ascending.
    pub fn asc(self) -> (o: OrderItem)
        ensures
            o == (OrderItem { expr: self.spec_expr(), descending: false, nulls: None }),
    {
        OrderItem::new(self.expr(), false)
    }

    /// Orders by this column descending.
    pub fn desc(self) -> (o: OrderItem)
        ensures
            o == (OrderItem { expr: self.spec_expr(), descending: true, nulls: None }),
    {
        OrderItem::new(self.expr(), true)
    }

    /// A `SET column = ...` assignment: a literal of the column's type, or any
    /// expression.
    pub fn set<A: IntoAssignExpr<T>>(self, value: A) -> (a: Assignment)
        ensures
            a.column == self.spec_name(),
            value.assigns(a.value),
    {
        Assignment::new(self.name, value.into_assign_expr())
    }

    /// Aliases this column in a projection, `column AS "alias"`.
    pub fn as_(self, alias: &'static str) -> (e: Expr)
        ensures
            e == (Expr::Alias { expr: Box::new(self.spec_expr()), alias }),
    {
        self.expr().as_(alias)
    }

    fn aggregate(self, f: AggFunc) -> (e: Expr)
        ensures
            aggregates(e, f, seq![self.spec_expr()]),
    {
        let c = self.expr();
        let ghost c0 = c;
        let mut args: Vec<Expr> = Vec::new();
        args.push(c);
        let e = Expr::aggregate(f, args);
        assert(aggregates(e, f, seq![c0]));
        e
    }

    fn call(self, name: &str) -> (e: Expr)
        ensures
            calls(e, name@, seq![self.spec_expr()]),
    {
        let c = self.expr();
        let ghost c0 = c;
        let mut args: Vec<Expr> = Vec::new();
        args.push(c);
        let e = Expr::func(owned(name), args);
        assert(calls(e, name@, seq![c0]));
        e
    }

    /// `COUNT(column)`.
    pub fn count(self) -> (e: Expr)
        ensures
            aggregates(e, AggFunc::Count, seq![self.spec_expr()]),
    {
        self.aggregate(AggFunc::Count)
    }

    /// `lower(column)`.
    pub fn lower(self) -> (e: Expr)
        ensures
            calls(e, "lower"@, seq![self.spec_expr()]),
    {
        self.call("lower")
    }

    /// `upper(column)`.
    pub fn upper(self) -> (e: Expr)
        ensures
            calls(e, "upper"@, seq![self.spec_expr()]),
    {
        self.call("upper")
    }

    /// `length(column)`.
    pub fn length(self) -> (e: Expr)
        ensures
            calls(e, "length"@, seq![self.spec_expr()]),
    {
        self.call("length")
    }

    /// `trim(column)`.
    pub fn trim(self) -> (e: Expr)
        ensures
            calls(e, "trim"@, seq![self.spec_expr()]),
    {
        self.call("trim")
    }

    /// `abs(column)`.
    pub fn abs(self) -> (e: Expr)
        ensures
            calls(e, "abs"@, seq![self.spec_expr()]),
    {
        self.call("abs")
    }

    /// `array_agg(column)`.
    pub fn array_aggregation(self) -> (e: Expr)
        ensures
            aggregates(e, AggFunc::ArrayAggregation, seq![self.spec_expr()]),
    {
        self.aggregate(AggFunc::ArrayAggregation)
    }

    /// `json_agg(column)`.
    pub fn json_aggregation(self) -> (e: Expr)
        ensures
            aggregates(e, AggFunc::JsonAggregation, seq![self.spec_expr()]),
    {
        self.aggregate(AggFunc::JsonAggregation)
    }

    /// `jsonb_agg(column)`.
    pub fn jsonb_aggregation(self) -> (e: Expr)
        ensures
            aggregates(e, AggFunc::JsonbAggregation, seq![self.spec_expr()]),
    {
        self.aggregate(AggFunc::JsonbAggregation)
    }

    /// `string_agg(column, delimiter)`: the non-null values joined by `delimiter`.
    pub fn string_aggregation(self, delimiter: &str) -> (e: Expr)
        ensures
            e matches Expr::Aggregate { func, args, filter } && func == AggFunc::StringAggregation
                && filter is None && args@.len() == 2 && args@[0] == self.spec_expr() && is_text(
                args@[1],
                delimiter@,
            ),
    {
        let c = self.expr();
        let ghost c0 = c;
        let mut args: Vec<Expr> = Vec::new();
        args.push(c);
        args.push(Expr::value(Value::Text(owned(delimiter))));
        let e = Expr::aggregate(AggFunc::StringAggregation, args);
        assert(e matches Expr::Aggregate { args, .. } && args@[0] == c0);
        e
    }
}

/// Whether `e` is `left op <bound text t>`.
pub open spec fn compares_text(e: Expr, left: Expr, op: BinaryOp, t: Seq<char>) -> bool {
    e matches Expr::Binary { left: l, op: o, right: r } && *l == left && o == op && is_text(*r, t)
}

impl<M, T: Numeric> Column<M, T> {
    /// `SUM(column)`.
    pub fn sum(self) -> (e: Expr)
        ensures
            aggregates(e, AggFunc::Sum, seq![self.spec_expr()]),
    {
        self.aggregate(AggFunc::Sum)
    }

    /// `AVG(column)`.
    pub fn avg(self) -> (e: Expr)
        ensures
            aggregates(e, AggFunc::Avg, seq![self.spec_expr()]),
    {
        self.aggregate(AggFunc::Avg)
    }

    /// `MIN(column)`.
    pub fn min(self) -> (e: Expr)
        ensures
            aggregates(e, AggFunc::Min, seq![self.spec_expr()]),
    {
        self.aggregate(AggFunc::Min)
    }

    /// `MAX(column)`.
    pub fn max(self) -> (e: Expr)
        ensures
            aggregates(e, AggFunc::Max, seq![self.spec_expr()]),
    {
        self.aggregate(AggFunc::Max)
    }

    /// `column + value`.
    pub fn add<V: IntoSqlValue<T>>(self, value: V) -> (e: Expr)
        ensures
            compares(e, self.spec_expr(), BinaryOp::Add, |w: Value| value.lowers_to(w)),
    {
        self.compare(BinaryOp::Add, value)
    }

    /// `column - value`.
    pub fn sub<V: IntoSqlValue<T>>(self, value: V) -> (e: Expr)
        ensures
            compares(e, self.spec_expr(), BinaryOp::Sub, |w: Value| value.lowers_to(w)),
    {
        self.compare(BinaryOp::Sub, value)
    }

    /// `column * value`.
    pub fn mul<V: IntoSqlValue<T>>(self, value: V) -> (e: Expr)
        ensures
            compares(e, self.spec_expr(), BinaryOp::Mul, |w: Value| value.lowers_to(w)),
    {
        self.compare(BinaryOp::Mul, value)
    }

    /// `column / value`.
    pub fn div<V: IntoSqlValue<T>>(self, value: V) -> (e: Expr)
        ensures
            compares(e, self.spec_expr(), BinaryOp::Div, |w: Value| value.lowers_to(w)),
    {
        self.compare(BinaryOp::Div, value)
    }

    /// `column % value`.
    pub fn rem<V: IntoSqlValue<T>>(self, value: V) -> (e: Expr)
        ensures
            compares(e, self.spec_expr(), BinaryOp::Mod, |w: Value| value.lowers_to(w)),
    {
        self.compare(BinaryOp::Mod, value)
    }

    /// `round(column)`.
    pub fn round(self) -> (e: Expr)
        ensures
            calls(e, "round"@, seq![self.spec_expr()]),
    {
        self.call("round")
    }

    /// `ceil(column)`.
    pub fn ceil(self) -> (e: Expr)
        ensures
            calls(e, "ceil"@, seq![self.spec_expr()]),
    {
        self.call("ceil")
    }

    /// `floor(column)`.
    pub fn floor(self) -> (e: Expr)
        ensures
            calls(e, "floor"@, seq![self.spec_expr()]),
    {
        self.call("floor")
    }
}

impl<M> Column<M, String> {
    fn text_compare(self, op: BinaryOp, text: &str) -> (e: Expr)
        ensures
            compares_text(e, self.spec_expr(), op, text@),
    {
        Expr::binary(self.expr(), op, Expr::value(Value::Text(owned(text))))
    }

    fn pattern(before: bool, text: &str, after: bool) -> (p: String)
        ensures
            p@ == (if before {
                "%"@
            } else {
                seq![]
            }) + text@ + (if after {
                "%"@
            } else {
                seq![]
            }),
    {
        let mut p = String::new();
        if before {
            push_str(&mut p, "%");
        }
        push_str(&mut p, text);
        if after {
            push_str(&mut p, "%");
        }
        proof {
            reveal_strlit("%");
        }
        p
    }

    /// `column LIKE pattern` (case-sensitive).
    pub fn like(self, pattern: &str) -> (e: Expr)
        ensures
            compares_text(e, self.spec_expr(), BinaryOp::Like, pattern@),
    {
        self.text_compare(BinaryOp::Like, pattern)
    }

    /// `column ILIKE pattern` (case-insensitive; `lower(..) LIKE lower(..)` where the
    /// backend has no `ILIKE`).
    pub fn ilike(self, pattern: &str) -> (e: Expr)
        ensures
            compares_text(e, self.spec_expr(), BinaryOp::ILike, pattern@),
    {
        self.text_compare(BinaryOp::ILike, pattern)
    }

    /// `column LIKE 'prefix%'`.
    pub fn starts_with(self, prefix: &str) -> (e: Expr)
        ensures
            compares_text(e, self.spec_expr(), BinaryOp::Like, prefix@ + "%"@),
    {
        let p = Self::pattern(false, prefix, true);
        self.text_compare(BinaryOp::Like, p.as_str())
    }

    /// `column LIKE '%suffix'`.
    pub fn ends_with(self, suffix: &str) -> (e: Expr)
        ensures
            compares_text(e, self.spec_expr(), BinaryOp::Like, "%"@ + suffix@),
    {
        let p = Self::pattern(true, suffix, false);
        self.text_compare(BinaryOp::Like, p.as_str())
    }

    /// `column LIKE '%needle%'`.
    pub fn contains(self, needle: &str) -> (e: Expr)
        ensures
            compares_text(e, self.spec_expr(), BinaryOp::Like, "%"@ + needle@ + "%"@),
    {
        let p = Self::pattern(true, needle, true);
        self.text_compare(BinaryOp::Like, p.as_str())
    }

    /// `column ILIKE 'prefix%'`.
    pub fn istarts_with(self, prefix: &str) -> (e: Expr)
        ensures
            compares_text(e, self.spec_expr(), BinaryOp::ILike, prefix@ + "%"@),
    {
        let p = Self::pattern(false, prefix, true);
        self.text_compare(BinaryOp::ILike, p.as_str())
    }

    /// `column ILIKE '%suffix'`.
    pub fn iends_with(self, suffix: &str) -> (e: Expr)
        ensures
            compares_text(e, self.spec_expr(), BinaryOp::ILike, "%"@ + suffix@),
    {
        let p = Self::pattern(true, suffix, false);
        self.text_compare(BinaryOp::ILike, p.as_str())
    }

    /// `column ILIKE '%needle%'`.
    pub fn icontains(self, needle: &str) -> (e: Expr)
        ensures
            compares_text(e, self.spec_expr(), BinaryOp::ILike, "%"@ + needle@ + "%"@),
    {
        let p = Self::pattern(true, needle, true);
        self.text_compare(BinaryOp::ILike, p.as_str())
    }

    /// `substr(column, start)`: the 1-based substring from `start` to the end.
    pub fn substr(self, start: i64) -> (e: Expr)
        ensures
            calls(e, "substr"@, seq![self.spec_expr(), Expr::Value(Value::Int(start))]),
    {
        let c = self.expr();
        let ghost c0 = c;
        let e = Expr::func(owned("substr"), vec![c, Expr::value(Value::Int(start))]);
        assert(calls(e, "substr"@, seq![c0, Expr::Value(Value::Int(start))]));
        e
    }

    /// `substr(column, start, len)`: the 1-based substring of `len` characters.
    pub fn substr_len(self, start: i64, len: i64) -> (e: Expr)
        ensures
            calls(
                e,
                "substr"@,
                seq![self.spec_expr(), Expr::Value(Value::Int(start)), Expr::Value(Value::Int(len))],
            ),
    {
        let c = self.expr();
        let ghost c0 = c;
        let e = Expr::func(
            owned("substr"),
            vec![c, Expr::value(Value::Int(start)), Expr::value(Value::Int(len))],
        );
        assert(calls(e, "substr"@, seq![c0, Expr::Value(Value::Int(start)), Expr::Value(Value::Int(len))]));
        e
    }

    /// `regexp_like(column, pattern)`.
    pub fn regex_match(self, pattern: &str) -> (e: Expr)
        ensures
            e matches Expr::Func { name, args } && name@ == "regexp_like"@ && args@.len() == 2
                && args@[0] == self.spec_expr() && is_text(args@[1], pattern@),
    {
        crate::query::func::regex_match(self.expr(), pattern)
    }

    /// `regexp_replace(column, pattern, replacement)`.
    pub fn regex_replace(self, pattern: &str, replacement: &str) -> (e: Expr)
        ensures
            e matches Expr::Func { name, args } && name@ == "regexp_replace"@ && args@.len() == 3
                && args@[0] == self.spec_expr() && is_text(args@[1], pattern@) && is_text(
                args@[2],
                replacement@,
            ),
    {
        crate::query::func::regex_replace(self.expr(), pattern, replacement)
    }

    /// `split_part(column, delimiter, field)`.
    pub fn split_part(self, delimiter: &str, field: i64) -> (e: Expr)
        ensures
            e matches Expr::Func { name, args } && name@ == "split_part"@ && args@.len() == 3
                && args@[0] == self.spec_expr() && is_text(args@[1], delimiter@) && args@[2]
                == Expr::Value(Value::Int(field)),
    {
        crate::query::func::split_part(self.expr(), delimiter, field)
    }

    /// `replace(column, from, to)`.
    pub fn replace(self, from: &str, to: &str) -> (e: Expr)
        ensures
            e matches Expr::Func { name, args } && name@ == "replace"@ && args@.len() == 3 && args@[0]
                == self.spec_expr() && is_text(args@[1], from@) && is_text(args@[2], to@),
    {
        crate::query::func::replace(self.expr(), from, to)
    }

    /// `left(column, n)`.
    pub fn left(self, n: i64) -> (e: Expr)
        ensures
            calls(e, "left"@, seq![self.spec_expr(), Expr::Value(Value::Int(n))]),
    {
        crate::query::func::left(self.expr(), n)
    }

    /// `right(column, n)`.
    pub fn right(self, n: i64) -> (e: Expr)
        ensures
            calls(e, "right"@, seq![self.spec_expr(), Expr::Value(Value::Int(n))]),
    {
        crate::query::func::right(self.expr(), n)
    }

    /// `repeat(column, n)`.
    pub fn repeat(self, n: i64) -> (e: Expr)
        ensures
            calls(e, "repeat"@, seq![self.spec_expr(), Expr::Value(Value::Int(n))]),
    {
        crate::query::func::repeat(self.expr(), n)
    }

    /// `reverse(column)`.
    pub fn reverse(self) -> (e: Expr)
        ensures
            calls(e, "reverse"@, seq![self.spec_expr()]),
    {
        self.call("reverse")
    }

    /// `position(substring IN column)`.
    pub fn position(self, substring: &str) -> (e: Expr)
        ensures
            e matches Expr::Func { name, args } && name@ == "position"@ && args@.len() == 2
                && is_text(args@[0], substring@) && args@[1] == self.spec_expr(),
    {
        crate::query::func::position(substring, self.expr())
    }
}

impl<M> Column<M, bool> {
    /// `bool_and(column)`: whether every non-null value is true.
    pub fn bool_and(self) -> (e: Expr)
        ensures
            aggregates(e, AggFunc::BoolAnd, seq![self.spec_expr()]),
    {
        self.aggregate(AggFunc::BoolAnd)
    }

    /// `bool_or(column)`: whether any non-null value is true.
    pub fn bool_or(self) -> (e: Expr)
        ensures
            aggregates(e, AggFunc::BoolOr, seq![self.spec_expr()]),
    {
        self.aggregate(AggFunc::BoolOr)
    }
}

/// Whether `v` is an array of the items' bound values.
pub open spec fn binds_items<T: BindValue>(v: Value, items: Seq<T>) -> bool {
    v matches Value::Array(vs) && vs@.len() == items.len() && forall|i: int|
        0 <= i < items.len() ==> #[trigger] items[i].binds_as(vs@[i])
}

/// The items' bound values.
fn bind_items<T: BindValue>(items: Vec<T>) -> (v: Value)
    ensures
        binds_items(v, items@),
{
    let mut out: Vec<Value> = Vec::new();
    let mut i: usize = 0;
    while i < items.len()
        invariant
            i <= items@.len(),
            out@.len() == i,
            forall|j: int| 0 <= j < i ==> #[trigger] items@[j].binds_as(out@[j]),
        decreases items@.len() - i,
    {
        out.push(items[i].to_value());
        i = i + 1;
    }
    Value::Array(out)
}

impl<M, T: BindValue> Column<M, Vec<T>> {
    /// `value = ANY(column)`: whether the array holds `value`.
    pub fn any(self, value: T) -> (e: Expr)
        ensures
            e matches Expr::Binary { left, op, right } && op == BinaryOp::Eq && (*left matches Expr::Value(v)
                && value.binds_as(v)) && calls(*right, "ANY"@, seq![self.spec_expr()]),
    {
        let v = value.to_value();
        Expr::binary(Expr::value(v), BinaryOp::Eq, self.call("ANY"))
    }

    /// `column @> ARRAY[...]`: whether the array holds every item.
    pub fn array_contains(self, items: Vec<T>) -> (e: Expr)
        ensures
            compares(e, self.spec_expr(), BinaryOp::Contains, |w: Value| binds_items(w, items@)),
    {
        let ghost it = items@;
        let array = bind_items(items);
        let e = Expr::binary(self.expr(), BinaryOp::Contains, Expr::value(array));
        assert(binds_items(array, it));
        e
    }

    /// `column && ARRAY[...]`: whether the arrays share an item.
    pub fn overlaps(self, items: Vec<T>) -> (e: Expr)
        ensures
            compares(e, self.spec_expr(), BinaryOp::Overlap, |w: Value| binds_items(w, items@)),
    {
        let ghost it = items@;
        let array = bind_items(items);
        let e = Expr::binary(self.expr(), BinaryOp::Overlap, Expr::value(array));
        assert(binds_items(array, it));
        e
    }

    /// `column <@ ARRAY[...]`: whether every element is among the items.
    pub fn contained_by(self, items: Vec<T>) -> (e: Expr)
        ensures
            compares(e, self.spec_expr(), BinaryOp::ArrayContainedBy, |w: Value| binds_items(w, items@)),
    {
        let ghost it = items@;
        let array = bind_items(items);
        let e = Expr::binary(self.expr(), BinaryOp::ArrayContainedBy, Expr::value(array));
        assert(binds_items(array, it));
        e
    }

    fn call_with(self, name: &str, value: Value) -> (e: Expr)
        ensures
            calls(e, name@, seq![self.spec_expr(), Expr::Value(value)]),
    {
        let c = self.expr();
        let ghost (c0, v0) = (c, value);
        let e = Expr::func(owned(name), vec![c, Expr::value(value)]);
        assert(calls(e, name@, seq![c0, Expr::Value(v0)]));
        e
    }

    /// `array_append(column, value)`.
    pub fn array_append(self, value: T) -> (e: Expr)
        ensures
            e matches Expr::Func { name, args } && name@ == "array_append"@ && args@.len() == 2
                && args@[0] == self.spec_expr() && (args@[1] matches Expr::Value(v) && value.binds_as(v)),
    {
        let v = value.to_value();
        self.call_with("array_append", v)
    }

    /// `array_remove(column, value)`.
    pub fn array_remove(self, value: T) -> (e: Expr)
        ensures
            e matches Expr::Func { name, args } && name@ == "array_remove"@ && args@.len() == 2
                && args@[0] == self.spec_expr() && (args@[1] matches Expr::Value(v) && value.binds_as(v)),
    {
        let v = value.to_value();
        self.call_with("array_remove", v)
    }

    /// `array_position(column, value)`: the 1-based position of `value`.
    pub fn array_position(self, value: T) -> (e: Expr)
        ensures
            e matches Expr::Func { name, args } && name@ == "array_position"@ && args@.len() == 2
                && args@[0] == self.spec_expr() && (args@[1] matches Expr::Value(v) && value.binds_as(v)),
    {
        let v = value.to_value();
        self.call_with("array_position", v)
    }

    /// `array_length(column, dimension)`.
    pub fn array_length(self, dimension: i64) -> (e: Expr)
        ensures
            calls(e, "array_length"@, seq![self.spec_expr(), Expr::Value(Value::Int(dimension))]),
    {
        self.call_with("array_length", Value::Int(dimension))
    }
}

} // verus!
