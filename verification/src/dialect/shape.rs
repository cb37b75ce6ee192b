//! Bound values stay out of the SQL text: expressions that differ only in the
//! values they bind render, with values bound as parameters, to the same SQL text
//! and the same number of parameters.

use vstd::prelude::*;

use super::sql::{agg_cases_r, binds_r, bound_r, expr_r, exprs_r, orders_r, whens_r, window_r};
use super::DialectKind;
use crate::query::ast::OrderItem;
use crate::query::expr::{BinaryOp, Expr, Window, WindowBound};
use crate::value::Value;

verus! {

/// The key a JSON access spells inline: its right operand's text, when that is a
/// text value.
pub open spec fn inline_key(e: Expr) -> Option<Seq<char>> {
    match e {
        Expr::Value(Value::Text(t)) => Some(t@),
        _ => None,
    }
}

/// Whether two expressions have the same shape: they are alike in everything
/// but the values they bind (bound values, the candidates of an `IN` list and
/// the parameters of a raw fragment, counted alike), with equal subqueries and
/// equal keys of JSON accesses.
pub open spec fn same_shape(a: Expr, b: Expr) -> bool
    decreases a, 0nat,
{
    match a {
        Expr::Column { .. } => b == a,
        Expr::Value(_) => b is Value,
        Expr::Binary { left, op, right } => match b {
            Expr::Binary { left: l2, op: o2, right: r2 } => o2 == op && same_shape(*left, *l2) && (
            if op == BinaryOp::JsonGet || op == BinaryOp::JsonGetText {
                inline_key(*right) == inline_key(*r2) && (inline_key(*right) is None ==> same_shape(
                    *right,
                    *r2,
                ))
            } else {
                same_shape(*right, *r2)
            }),
            _ => false,
        },
        Expr::Between { expr, low, high } => match b {
            Expr::Between { expr: e2, low: l2, high: h2 } => same_shape(*expr, *e2) && same_shape(
                *low,
                *l2,
            ) && same_shape(*high, *h2),
            _ => false,
        },
        Expr::Logical { op, items } => match b {
            Expr::Logical { op: o2, items: i2 } => o2 == op && same_shapes(items@, i2@),
            _ => false,
        },
        Expr::Not(inner) => match b {
            Expr::Not(i2) => same_shape(*inner, *i2),
            _ => false,
        },
        Expr::InList { expr, values } => match b {
            Expr::InList { expr: e2, values: v2 } => same_shape(*expr, *e2) && values@.len()
                == v2@.len(),
            _ => false,
        },
        Expr::IsNull { expr, negated } => match b {
            Expr::IsNull { expr: e2, negated: n2 } => n2 == negated && same_shape(*expr, *e2),
            _ => false,
        },
        Expr::Aggregate { func, args, filter } => match b {
            Expr::Aggregate { func: f2, args: a2, filter: c2 } => f2 == func && same_shapes(
                args@,
                a2@,
            ) && match filter {
                Some(c) => match c2 {
                    Some(d) => same_shape(*c, *d),
                    None => false,
                },
                None => c2 is None,
            },
            _ => false,
        },
        Expr::Func { name, args } => match b {
            Expr::Func { name: n2, args: a2 } => n2@ == name@ && same_shapes(args@, a2@),
            _ => false,
        },
        Expr::CountStar => b is CountStar,
        Expr::Alias { expr, alias } => match b {
            Expr::Alias { expr: e2, alias: a2 } => a2 == alias && same_shape(*expr, *e2),
            _ => false,
        },
        Expr::Case { whens, else_expr } => match b {
            Expr::Case { whens: w2, else_expr: d2 } => same_whens(whens@, w2@) && match else_expr {
                Some(d) => match d2 {
                    Some(x) => same_shape(*d, *x),
                    None => false,
                },
                None => d2 is None,
            },
            _ => false,
        },
        Expr::Subquery(_) => b == a,
        Expr::InSubquery { expr, subquery, negated } => match b {
            Expr::InSubquery { expr: e2, subquery: s2, negated: n2 } => n2 == negated && s2
                == subquery && same_shape(*expr, *e2),
            _ => false,
        },
        Expr::Raw { sql, params } => match b {
            Expr::Raw { sql: s2, params: p2 } => s2@ == sql@ && p2@.len() == params@.len(),
            _ => false,
        },
        Expr::Exists { .. } => b == a,
        Expr::Excluded(_) => b == a,
        Expr::Extract { field, source } => match b {
            Expr::Extract { field: f2, source: s2 } => f2 == field && same_shape(*source, *s2),
            _ => false,
        },
        Expr::Over { expr, window } => match b {
            Expr::Over { expr: e2, window: w2 } => same_shape(*expr, *e2) && same_window(
                *window,
                *w2,
            ),
            _ => false,
        },
    }
}

/// Whether two expression lists have the same shape, item by item.
pub open spec fn same_shapes(a: Seq<Expr>, b: Seq<Expr>) -> bool
    decreases a, 0nat,
{
    a.len() == b.len() && (a.len() > 0 ==> same_shapes(a.drop_last(), b.drop_last()) && same_shape(
        a.last(),
        b.last(),
    ))
}

/// Whether two lists of `CASE` branches have the same shape.
pub open spec fn same_whens(a: Seq<(Expr, Expr)>, b: Seq<(Expr, Expr)>) -> bool
    decreases a, 0nat,
{
    a.len() == b.len() && (a.len() > 0 ==> same_whens(a.drop_last(), b.drop_last()) && same_shape(
        a.last().0,
        b.last().0,
    ) && same_shape(a.last().1, b.last().1))
}

/// Whether two lists of order terms have the same shape.
pub open spec fn same_orders(a: Seq<OrderItem>, b: Seq<OrderItem>) -> bool
    decreases a, 0nat,
{
    a.len() == b.len() && (a.len() > 0 ==> same_orders(a.drop_last(), b.drop_last())
        && a.last().descending == b.last().descending && a.last().nulls == b.last().nulls
        && same_shape(a.last().expr, b.last().expr))
}

/// Whether two window frame bounds have the same shape.
pub open spec fn same_bound(a: WindowBound, b: WindowBound) -> bool
    decreases a, 0nat,
{
    match a {
        WindowBound::Preceding(e) => match b {
            WindowBound::Preceding(e2) => same_shape(*e, *e2),
            _ => false,
        },
        WindowBound::Following(e) => match b {
            WindowBound::Following(e2) => same_shape(*e, *e2),
            _ => false,
        },
        WindowBound::UnboundedPreceding => b is UnboundedPreceding,
        WindowBound::CurrentRow => b is CurrentRow,
        WindowBound::UnboundedFollowing => b is UnboundedFollowing,
    }
}

/// Whether two windows have the same shape.
pub open spec fn same_window(a: Window, b: Window) -> bool
    decreases a, 0nat,
{
    same_shapes(a.partition_by@, b.partition_by@) && same_orders(a.order_by@, b.order_by@)
        && match a.frame {
        Some(f) => match b.frame {
            Some(g) => g.unit == f.unit && same_bound(f.start, g.start) && match f.end {
                Some(e) => match g.end {
                    Some(e2) => same_bound(e, e2),
                    None => false,
                },
                None => g.end is None,
            },
            None => false,
        },
        None => b.frame is None,
    }
}

proof fn lemma_binds(k: DialectKind, n: nat, a: Seq<Value>, b: Seq<Value>)
    requires
        a.len() == b.len(),
    ensures
        binds_r(k, false, n, a).0 == binds_r(k, false, n, b).0,
        binds_r(k, false, n, a).1.len() == binds_r(k, false, n, b).1.len(),
    decreases a.len(),
{
    if a.len() > 1 {
        lemma_binds(k, n, a.drop_last(), b.drop_last());
    }
}

proof fn lemma_expr(k: DialectKind, n: nat, a: Expr, b: Expr)
    requires
        same_shape(a, b),
    ensures
        expr_r(k, false, n, a).0 == expr_r(k, false, n, b).0,
        expr_r(k, false, n, a).1.len() == expr_r(k, false, n, b).1.len(),
    decreases a, 2nat, 0nat,
{
    match a {
        Expr::Binary { .. } => {
            lemma_binary(k, n, a, b);
        },
        Expr::Between { expr, low, high } => {
            if let Expr::Between { expr: e2, low: l2, high: h2 } = b {
                lemma_expr(k, n, *expr, *e2);
                let m1 = n + expr_r(k, false, n, *expr).1.len();
                lemma_expr(k, m1, *low, *l2);
                let m2 = m1 + expr_r(k, false, m1, *low).1.len();
                lemma_expr(k, m2, *high, *h2);
            }
        },
        Expr::Logical { op, items } => {
            if let Expr::Logical { op: o2, items: i2 } = b {
                lemma_shapes_len(items@, i2@);
                if items@.len() == 1 {
                    lemma_shapes_index(items@, i2@, 0);
                    lemma_expr(k, n, items@[0], i2@[0]);
                } else if items@.len() > 1 {
                    lemma_exprs(k, n, items@, i2@, " "@ + crate::query::expr::logical_text(op) + " "@);
                }
            }
        },
        Expr::Not(inner) => {
            if let Expr::Not(i2) = b {
                lemma_expr(k, n, *inner, *i2);
            }
        },
        Expr::InList { expr, values } => {
            if let Expr::InList { expr: e2, values: v2 } = b {
                if values@.len() > 0 {
                    lemma_expr(k, n, *expr, *e2);
                    let m = n + expr_r(k, false, n, *expr).1.len();
                    lemma_binds(k, m, values@, v2@);
                }
            }
        },
        Expr::IsNull { expr, negated } => {
            if let Expr::IsNull { expr: e2, negated: n2 } = b {
                lemma_expr(k, n, *expr, *e2);
            }
        },
        Expr::Aggregate { func, args, filter } => {
            if let Expr::Aggregate { func: f2, args: a2, filter: c2 } = b {
                lemma_shapes_len(args@, a2@);
                match filter {
                    Some(cond) => {
                        if let Some(d) = c2 {
                            if k == DialectKind::Mysql {
                                if args@.len() == 0 {
                                    lemma_expr(k, n, *cond, *d);
                                } else {
                                    lemma_agg_cases(k, n, a, b, args@.len());
                                }
                            } else {
                                lemma_exprs(k, n, args@, a2@, ", "@);
                                let m = n + exprs_r(k, false, n, args@, ", "@).1.len();
                                lemma_expr(k, m, *cond, *d);
                            }
                        }
                    },
                    None => {
                        lemma_exprs(k, n, args@, a2@, ", "@);
                    },
                }
            }
        },
        Expr::Func { name, args } => {
            if let Expr::Func { name: n2, args: a2 } = b {
                lemma_exprs(k, n, args@, a2@, ", "@);
            }
        },
        Expr::Alias { expr, alias } => {
            if let Expr::Alias { expr: e2, alias: a2 } = b {
                lemma_expr(k, n, *expr, *e2);
            }
        },
        Expr::Case { whens, else_expr } => {
            if let Expr::Case { whens: w2, else_expr: d2 } = b {
                lemma_whens(k, n, whens@, w2@);
                let m = n + whens_r(k, false, n, whens@).1.len();
                if let Some(d) = else_expr {
                    if let Some(x) = d2 {
                        lemma_expr(k, m, *d, *x);
                    }
                }
            }
        },
        Expr::InSubquery { expr, subquery, negated } => {
            if let Expr::InSubquery { expr: e2, subquery: s2, negated: n2 } = b {
                lemma_expr(k, n, *expr, *e2);
            }
        },
        Expr::Extract { field, source } => {
            if let Expr::Extract { field: f2, source: s2 } = b {
                lemma_expr(k, n, *source, *s2);
            }
        },
        Expr::Over { expr, window } => {
            if let Expr::Over { expr: e2, window: w2 } = b {
                lemma_expr(k, n, *expr, *e2);
                let m = n + expr_r(k, false, n, *expr).1.len();
                lemma_window(k, m, *window, *w2);
            }
        },
        Expr::Value(_) => {},
        Expr::Column { .. } => {},
        Expr::CountStar => {},
        Expr::Subquery(_) => {},
        Expr::Raw { .. } => {},
        Expr::Exists { .. } => {},
        Expr::Excluded(_) => {},
    }
}

proof fn lemma_shapes_len(a: Seq<Expr>, b: Seq<Expr>)
    requires
        same_shapes(a, b),
    ensures
        a.len() == b.len(),
{
}

proof fn lemma_binary(k: DialectKind, n: nat, a: Expr, b: Expr)
    requires
        a is Binary,
        same_shape(a, b),
    ensures
        expr_r(k, false, n, a).0 == expr_r(k, false, n, b).0,
        expr_r(k, false, n, a).1.len() == expr_r(k, false, n, b).1.len(),
    decreases a, 1nat, 0nat,
{
    if let Expr::Binary { left, op, right } = a {
        if let Expr::Binary { left: l2, op: o2, right: r2 } = b {
            assert(o2 == op);
            lemma_expr(k, n, *left, *l2);
            let la = expr_r(k, false, n, *left);
            let lb = expr_r(k, false, n, *l2);
            let m = n + la.1.len();
            assert(m == n + lb.1.len());
            if op == BinaryOp::ILike || op == BinaryOp::Contains || !(op == BinaryOp::JsonGet
                || op == BinaryOp::JsonGetText) {
                lemma_expr(k, m, *right, *r2);
            } else {
                match *right {
                    Expr::Value(Value::Text(key)) => {
                        assert(inline_key(*r2) == Some(key@));
                        match *r2 {
                            Expr::Value(Value::Text(key2)) => {
                                assert(key2@ == key@);
                            },
                            _ => {
                                assert(inline_key(*r2) is None);
                            },
                        }
                    },
                    _ => {
                        assert(inline_key(*right) is None);
                        assert(inline_key(*r2) is None);
                        match *r2 {
                            Expr::Value(Value::Text(key2)) => {
                                assert(inline_key(*r2) is Some);
                            },
                            _ => {},
                        }
                        lemma_expr(k, m, *right, *r2);
                    },
                }
            }
        }
    }
}

proof fn lemma_agg_cases(k: DialectKind, n: nat, a: Expr, b: Expr, len: nat)
    requires
        same_shape(a, b),
    ensures
        agg_cases_r(k, false, n, a, len).0 == agg_cases_r(k, false, n, b, len).0,
        agg_cases_r(k, false, n, a, len).1.len() == agg_cases_r(k, false, n, b, len).1.len(),
    decreases a, 0nat, len,
{
    match a {
        Expr::Aggregate { func, args, filter } => {
            if let Expr::Aggregate { func: f2, args: a2, filter: c2 } = b {
                lemma_shapes_len(args@, a2@);
                match filter {
                    Some(cond) => {
                        if let Some(d) = c2 {
                            if len > 0 && len <= args@.len() {
                                if len > 1 {
                                    lemma_agg_cases(k, n, a, b, (len - 1) as nat);
                                }
                                let p = if len == 1 {
                                    0
                                } else {
                                    agg_cases_r(k, false, n, a, (len - 1) as nat).1.len()
                                };
                                lemma_expr(k, n + p, *cond, *d);
                                let q = n + p + expr_r(k, false, n + p, *cond).1.len();
                                lemma_shapes_index(args@, a2@, len - 1);
                                lemma_expr(k, q, args@[len - 1], a2@[len - 1]);
                            }
                        }
                    },
                    None => {
                        assert(c2 is None);
                    },
                }
            }
        },
        _ => {
            assert(!(b is Aggregate)) by {
                lemma_same_shape_variant(a, b);
            }
        },
    }
}

proof fn lemma_same_shape_variant(a: Expr, b: Expr)
    requires
        same_shape(a, b),
        !(a is Aggregate),
    ensures
        !(b is Aggregate),
{
}

proof fn lemma_shapes_index(a: Seq<Expr>, b: Seq<Expr>, i: int)
    requires
        same_shapes(a, b),
        0 <= i < a.len(),
    ensures
        same_shape(a[i], b[i]),
    decreases a.len(),
{
    if i < a.len() - 1 {
        lemma_shapes_index(a.drop_last(), b.drop_last(), i);
    }
}

proof fn lemma_exprs(k: DialectKind, n: nat, a: Seq<Expr>, b: Seq<Expr>, sep: Seq<char>)
    requires
        same_shapes(a, b),
    ensures
        exprs_r(k, false, n, a, sep).0 == exprs_r(k, false, n, b, sep).0,
        exprs_r(k, false, n, a, sep).1.len() == exprs_r(k, false, n, b, sep).1.len(),
    decreases a, 2nat, 0nat,
{
    if a.len() == 1 {
        lemma_shapes_index(a, b, 0);
        lemma_expr(k, n, a[0], b[0]);
    } else if a.len() > 1 {
        lemma_exprs(k, n, a.drop_last(), b.drop_last(), sep);
        let m = n + exprs_r(k, false, n, a.drop_last(), sep).1.len();
        lemma_expr(k, m, a.last(), b.last());
    }
}

proof fn lemma_orders(k: DialectKind, n: nat, a: Seq<OrderItem>, b: Seq<OrderItem>)
    requires
        same_orders(a, b),
    ensures
        orders_r(k, false, n, a).0 == orders_r(k, false, n, b).0,
        orders_r(k, false, n, a).1.len() == orders_r(k, false, n, b).1.len(),
    decreases a, 2nat, 0nat,
{
    if a.len() > 0 {
        let p = if a.len() == 1 {
            0
        } else {
            lemma_orders(k, n, a.drop_last(), b.drop_last());
            orders_r(k, false, n, a.drop_last()).1.len()
        };
        lemma_expr(k, n + p, a.last().expr, b.last().expr);
    }
}

proof fn lemma_whens(k: DialectKind, n: nat, a: Seq<(Expr, Expr)>, b: Seq<(Expr, Expr)>)
    requires
        same_whens(a, b),
    ensures
        whens_r(k, false, n, a).0 == whens_r(k, false, n, b).0,
        whens_r(k, false, n, a).1.len() == whens_r(k, false, n, b).1.len(),
    decreases a, 2nat, 0nat,
{
    if a.len() > 0 {
        lemma_whens(k, n, a.drop_last(), b.drop_last());
        let m = n + whens_r(k, false, n, a.drop_last()).1.len();
        lemma_expr(k, m, a.last().0, b.last().0);
        let m2 = m + expr_r(k, false, m, a.last().0).1.len();
        lemma_expr(k, m2, a.last().1, b.last().1);
    }
}

proof fn lemma_bound(k: DialectKind, n: nat, a: WindowBound, b: WindowBound)
    requires
        same_bound(a, b),
    ensures
        bound_r(k, false, n, a).0 == bound_r(k, false, n, b).0,
        bound_r(k, false, n, a).1.len() == bound_r(k, false, n, b).1.len(),
    decreases a, 2nat, 0nat,
{
    match a {
        WindowBound::Preceding(e) => {
            if let WindowBound::Preceding(e2) = b {
                lemma_expr(k, n, *e, *e2);
            }
        },
        WindowBound::Following(e) => {
            if let WindowBound::Following(e2) = b {
                lemma_expr(k, n, *e, *e2);
            }
        },
        _ => {},
    }
}

proof fn lemma_window(k: DialectKind, n: nat, a: Window, b: Window)
    requires
        same_window(a, b),
    ensures
        window_r(k, false, n, a).0 == window_r(k, false, n, b).0,
        window_r(k, false, n, a).1.len() == window_r(k, false, n, b).1.len(),
    decreases a, 2nat, 0nat,
{
    let p = if a.partition_by@.len() > 0 {
        lemma_exprs(k, n, a.partition_by@, b.partition_by@, ", "@);
        exprs_r(k, false, n, a.partition_by@, ", "@).1.len()
    } else {
        0
    };
    let o = if a.order_by@.len() > 0 {
        lemma_orders(k, n + p, a.order_by@, b.order_by@);
        orders_r(k, false, n + p, a.order_by@).1.len()
    } else {
        0
    };
    if let Some(f) = a.frame {
        if let Some(g) = b.frame {
            lemma_bound(k, n + p + o, f.start, g.start);
            let s = bound_r(k, false, n + p + o, f.start).1.len();
            if let Some(e) = f.end {
                if let Some(e2) = g.end {
                    lemma_bound(k, n + p + o + s, e, e2);
                }
            }
        }
    }
}

/// Bound values never reach the SQL text: two expressions that differ only in
/// the values they bind (same columns, operators, functions, windows, JSON keys
/// and subqueries) render, with values bound as parameters, to the same SQL text
/// and bind the same number of parameters, whatever the dialect and however many
/// parameters came before.
pub proof fn lemma_bound_values_stay_out_of_text(k: DialectKind, n: nat, a: Expr, b: Expr)
    requires
        same_shape(a, b),
    ensures
        expr_r(k, false, n, a).0 == expr_r(k, false, n, b).0,
        expr_r(k, false, n, a).1.len() == expr_r(k, false, n, b).1.len(),
{
    lemma_expr(k, n, a, b);
}

} // verus!
