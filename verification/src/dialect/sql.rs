//! What the shared writer emits, stated as spec functions.
//!
//! Each `*_r` function gives, for a dialect kind `k`, the inline-literal mode
//! `il` and the number `n` of parameters already bound, the SQL text a piece of
//! the AST renders to and the parameters it binds, in order. Placeholders are
//! numbered from `n`, so the text of a later piece depends on how many values
//! the earlier pieces bound.

use vstd::prelude::*;

use super::{bool_text, escaped_literal, placeholder_text, quoted_identifier, DialectKind};
use crate::query::ast::{
    join_keyword, Cte, CteQuery, Join, JoinKind, LockClause, LockStrength, LockWait, OrderItem,
    SelectItem, SelectStatement, UnionStatement, WithClause,
};
use crate::query::expr::{
    agg_name, logical_text, op_text, unit_name, BinaryOp, Expr, LogicalOp, Window, WindowBound,
};
use crate::query::write::{
    Assignment, DeleteStatement, InsertStatement, OnConflict, UpdateStatement,
};
use crate::text::{decimal, hex_fixed, signed_decimal};
use crate::value::{same_value, Value};

verus! {

/// Rendered text with the parameters it binds.
pub open spec fn empty_r() -> (Seq<char>, Seq<Value>) {
    (seq![], seq![])
}

/// Text that binds nothing.
pub open spec fn text_r(s: Seq<char>) -> (Seq<char>, Seq<Value>) {
    (s, seq![])
}

/// `a` followed by `b`.
pub open spec fn join_r(a: (Seq<char>, Seq<Value>), b: (Seq<char>, Seq<Value>)) -> (
    Seq<char>,
    Seq<Value>,
) {
    (a.0 + b.0, a.1 + b.1)
}

/// `params` extends `before` by values that are, one for one, the same as
/// `added`.
pub open spec fn params_extended(before: Seq<Value>, after: Seq<Value>, added: Seq<Value>) -> bool {
    &&& after.len() == before.len() + added.len()
    &&& forall|i: int| 0 <= i < before.len() ==> after[i] == before[i]
    &&& forall|j: int|
        0 <= j < added.len() ==> same_value(#[trigger] after[before.len() + j], added[j])
}

/// Extensions compose.
pub proof fn lemma_params_extended_trans(
    a: Seq<Value>,
    b: Seq<Value>,
    c: Seq<Value>,
    x: Seq<Value>,
    y: Seq<Value>,
)
    requires
        params_extended(a, b, x),
        params_extended(b, c, y),
    ensures
        params_extended(a, c, x + y),
{
    assert forall|j: int| 0 <= j < (x + y).len() implies same_value(
        #[trigger] c[a.len() + j],
        (x + y)[j],
    ) by {
        if j < x.len() {
            assert(c[a.len() + j] == b[a.len() + j]);
            assert(same_value(b[a.len() + j], x[j]));
        } else {
            let j2 = j - x.len();
            assert(a.len() + j == b.len() + j2);
            assert(same_value(c[b.len() + j2], y[j2]));
        }
    }
}

/// Nothing added is an extension.
pub proof fn lemma_params_extended_refl(a: Seq<Value>)
    ensures
        params_extended(a, a, seq![]),
{
}

// ---------------------------------------------------------------------------
// Identifiers and literals
// ---------------------------------------------------------------------------

/// A `"table"."column"` reference.
pub open spec fn qualified(k: DialectKind, table: Seq<char>, column: Seq<char>) -> Seq<char> {
    quoted_identifier(k, table) + "."@ + quoted_identifier(k, column)
}

/// Quoted identifiers joined by `", "`.
pub open spec fn idents_text(k: DialectKind, s: Seq<&'static str>) -> Seq<char>
    decreases s.len(),
{
    if s.len() == 0 {
        seq![]
    } else if s.len() == 1 {
        quoted_identifier(k, s[0]@)
    } else {
        idents_text(k, s.drop_last()) + ", "@ + quoted_identifier(k, s.last()@)
    }
}

/// Two lower-case hex digits per byte.
pub open spec fn hex_bytes(b: Seq<u8>) -> Seq<char>
    decreases b.len(),
{
    if b.len() == 0 {
        seq![]
    } else {
        hex_bytes(b.drop_last()) + hex_fixed(b.last() as nat, 2)
    }
}

/// The inline SQL literal of a value: `NULL`, the dialect's boolean, the decimal
/// integer, the float's text, a quoted string for text-like values, `X'..'` hex
/// for bytes, and for an array the quoted text `[item, ...]` of its items'
/// literals.
pub open spec fn literal_text(k: DialectKind, v: Value) -> Seq<char>
    decreases v, 1nat,
{
    match v {
        Value::Null => "NULL"@,
        Value::Bool(b) => bool_text(k, b),
        Value::Int(i) => signed_decimal(i as int),
        Value::Real(t) => t@,
        Value::Text(t) => escaped_literal(k, t@),
        Value::Timestamp(t) => escaped_literal(k, t@),
        Value::Json(t) => escaped_literal(k, t@),
        Value::Uuid(t) => escaped_literal(k, t@),
        Value::Blob(b) => "X'"@ + hex_bytes(b@) + "'"@,
        Value::Array(items) => escaped_literal(k, "["@ + literal_list(k, items@) + "]"@),
    }
}

/// The literals of `items` joined by `", "`.
pub open spec fn literal_list(k: DialectKind, items: Seq<Value>) -> Seq<char>
    decreases items, 0nat,
{
    if items.len() == 0 {
        seq![]
    } else if items.len() == 1 {
        literal_text(k, items[0])
    } else {
        literal_list(k, items.drop_last()) + ", "@ + literal_text(k, items.last())
    }
}

/// A bound value: its inline literal in inline mode, otherwise the placeholder
/// for parameter `n` and the value itself bound.
pub open spec fn bind_r(k: DialectKind, il: bool, n: nat, v: Value) -> (Seq<char>, Seq<Value>) {
    if il {
        text_r(literal_text(k, v))
    } else {
        (placeholder_text(k, n), seq![v])
    }
}

/// Bound values joined by `", "`.
pub open spec fn binds_r(k: DialectKind, il: bool, n: nat, s: Seq<Value>) -> (
    Seq<char>,
    Seq<Value>,
)
    decreases s.len(),
{
    if s.len() == 0 {
        empty_r()
    } else if s.len() == 1 {
        bind_r(k, il, n, s[0])
    } else {
        let a = binds_r(k, il, n, s.drop_last());
        let b = bind_r(k, il, n + a.1.len(), s.last());
        (a.0 + ", "@ + b.0, a.1 + b.1)
    }
}

/// Whether `c` may appear in a rendered function name.
pub open spec fn is_name_char(c: char) -> bool {
    ('a' <= c <= 'z') || ('A' <= c <= 'Z') || ('0' <= c <= '9') || c == '_' || c == '.'
}

/// A function name with every character but letters, digits, `_` and `.`
/// dropped.
pub open spec fn function_name_text(s: Seq<char>) -> Seq<char>
    decreases s.len(),
{
    if s.len() == 0 {
        seq![]
    } else if is_name_char(s.last()) {
        function_name_text(s.drop_last()).push(s.last())
    } else {
        function_name_text(s.drop_last())
    }
}

/// The `ASC`/`DESC` and `NULLS FIRST`/`NULLS LAST` suffix of an order term.
pub open spec fn order_suffix(descending: bool, nulls: Option<bool>) -> Seq<char> {
    (if descending {
        " DESC"@
    } else {
        " ASC"@
    }) + match nulls {
        Some(true) => " NULLS FIRST"@,
        Some(false) => " NULLS LAST"@,
        None => seq![],
    }
}

/// An order term's direction is written first: ` DESC` exactly when the term is
/// descending, ` ASC` exactly when it is ascending, and then at most its null
/// placement.
pub proof fn lemma_order_direction(descending: bool, nulls: Option<bool>)
    ensures
        descending ==> order_suffix(descending, nulls).len() >= 5,
        !descending ==> order_suffix(descending, nulls).len() >= 4,
        descending ==> order_suffix(descending, nulls).subrange(0, 5) == " DESC"@,
        !descending ==> order_suffix(descending, nulls).subrange(0, 4) == " ASC"@,
        nulls is None ==> order_suffix(descending, nulls) == (if descending {
            " DESC"@
        } else {
            " ASC"@
        }),
        descending ==> order_suffix(descending, nulls).subrange(0, 4) != " ASC"@,
        !descending ==> order_suffix(descending, nulls).len() < 5 || order_suffix(descending, nulls).subrange(0, 5) != " DESC"@,
{
    reveal_strlit(" DESC");
    reveal_strlit(" ASC");
    reveal_strlit(" NULLS FIRST");
    reveal_strlit(" NULLS LAST");
    let t = order_suffix(descending, nulls);
    if descending {
        assert(t.subrange(0, 5) =~= " DESC"@);
        assert(t.subrange(0, 4)[1] == 'D');
    } else {
        assert(t.subrange(0, 4) =~= " ASC"@);
        if t.len() >= 5 {
            assert(t.subrange(0, 5)[1] == 'A');
        }
    }
}

/// A rendered order list ends with the direction of its last term, when that
/// term places no nulls: ` DESC` for a descending term, ` ASC` for an ascending
/// one.
pub proof fn lemma_order_list_ends_with_direction(k: DialectKind, il: bool, n: nat, s: Seq<OrderItem>)
    requires
        s.len() > 0,
        s.last().nulls is None,
    ensures
        ({
            let t = orders_r(k, il, n, s).0;
            if s.last().descending {
                t.len() >= 5 && t.subrange(t.len() - 5, t.len() as int) == " DESC"@
            } else {
                t.len() >= 4 && t.subrange(t.len() - 4, t.len() as int) == " ASC"@
            }
        }),
{
    reveal_strlit(" DESC");
    reveal_strlit(" ASC");
    lemma_order_direction(s.last().descending, s.last().nulls);
    let a = if s.len() == 1 {
        empty_r()
    } else {
        let p = orders_r(k, il, n, s.drop_last());
        (p.0 + ", "@, p.1)
    };
    let b = expr_r(k, il, n + a.1.len(), s.last().expr);
    let suffix = order_suffix(s.last().descending, s.last().nulls);
    let t = orders_r(k, il, n, s).0;
    assert(t == a.0 + b.0 + suffix);
    assert(t.subrange(t.len() - suffix.len(), t.len() as int) =~= suffix);
}

/// One join: keyword, table, optional alias and, but for a cross join, the
/// `ON` equality.
pub open spec fn join_text(k: DialectKind, j: Join) -> Seq<char> {
    " "@ + join_keyword(j.kind) + " "@ + quoted_identifier(k, j.table@) + match j.alias {
        Some(a) => " AS "@ + quoted_identifier(k, a@),
        None => seq![],
    } + if j.kind != JoinKind::Cross {
        " ON "@ + qualified(k, j.left_table@, j.left_column@) + " = "@ + qualified(
            k,
            j.right_table@,
            j.right_column@,
        )
    } else {
        seq![]
    }
}

/// The joins, in order.
pub open spec fn joins_text(k: DialectKind, s: Seq<Join>) -> Seq<char>
    decreases s.len(),
{
    if s.len() == 0 {
        seq![]
    } else {
        joins_text(k, s.drop_last()) + join_text(k, s.last())
    }
}

/// A row-locking clause.
pub open spec fn row_lock_text(k: DialectKind, lock: Option<LockClause>) -> Seq<char> {
    match lock {
        None => seq![],
        Some(l) => (match l.strength {
            LockStrength::Update => " FOR UPDATE"@,
            LockStrength::Share => " FOR SHARE"@,
        }) + (if l.of@.len() > 0 {
            " OF "@ + idents_text(k, l.of@)
        } else {
            seq![]
        }) + match l.wait {
            LockWait::Wait => seq![],
            LockWait::NoWait => " NOWAIT"@,
            LockWait::SkipLocked => " SKIP LOCKED"@,
        },
    }
}

/// ` LIMIT n` and ` OFFSET m`, each when set.
pub open spec fn limit_text(limit: Option<u64>, offset: Option<u64>) -> Seq<char> {
    (match limit {
        Some(l) => " LIMIT "@ + decimal(l as nat),
        None => seq![],
    }) + match offset {
        Some(o) => " OFFSET "@ + decimal(o as nat),
        None => seq![],
    }
}

/// The JSON key of a `->`/`->>` access when it is a text literal: a `$.key`
/// path on MySQL, the bare key elsewhere.
pub open spec fn json_key_text(k: DialectKind, key: Seq<char>) -> Seq<char> {
    if k == DialectKind::Mysql {
        escaped_literal(k, "$."@ + key)
    } else {
        escaped_literal(k, key)
    }
}

// ---------------------------------------------------------------------------
// Expressions and statements
// ---------------------------------------------------------------------------

/// An expression.
pub open spec fn expr_r(k: DialectKind, il: bool, n: nat, e: Expr) -> (Seq<char>, Seq<Value>)
    decreases e, 2nat, 0nat,
{
    match e {
        Expr::Column { table, column } => text_r(qualified(k, table@, column@)),
        Expr::Value(v) => bind_r(k, il, n, v),
        Expr::Binary { left, op, right } => {
            let l = expr_r(k, il, n, *left);
            let m = n + l.1.len();
            if op == BinaryOp::ILike {
                let r = expr_r(k, il, m, *right);
                ("lower("@ + l.0 + ") LIKE lower("@ + r.0 + ")"@, l.1 + r.1)
            } else if op == BinaryOp::JsonGet || op == BinaryOp::JsonGetText {
                let arrow = if op == BinaryOp::JsonGetText {
                    " ->> "@
                } else {
                    " -> "@
                };
                match *right {
                    Expr::Value(Value::Text(key)) => (l.0 + arrow + json_key_text(k, key@), l.1),
                    _ => {
                        let r = expr_r(k, il, m, *right);
                        (l.0 + arrow + r.0, l.1 + r.1)
                    },
                }
            } else if op == BinaryOp::Contains {
                let r = expr_r(k, il, m, *right);
                if k == DialectKind::Mysql {
                    ("JSON_CONTAINS("@ + l.0 + ", "@ + r.0 + ")"@, l.1 + r.1)
                } else {
                    (l.0 + " @> "@ + r.0, l.1 + r.1)
                }
            } else {
                let r = expr_r(k, il, m, *right);
                (l.0 + " "@ + op_text(op) + " "@ + r.0, l.1 + r.1)
            }
        },
        Expr::Between { expr, low, high } => {
            let a = expr_r(k, il, n, *expr);
            let b = expr_r(k, il, n + a.1.len(), *low);
            let c = expr_r(k, il, n + a.1.len() + b.1.len(), *high);
            (a.0 + " BETWEEN "@ + b.0 + " AND "@ + c.0, a.1 + b.1 + c.1)
        },
        Expr::Logical { op, items } => {
            if items@.len() == 0 {
                text_r(
                    if op == LogicalOp::And {
                        "1 = 1"@
                    } else {
                        "0 = 1"@
                    },
                )
            } else if items@.len() == 1 {
                expr_r(k, il, n, items@[0])
            } else {
                let r = exprs_r(k, il, n, items@, " "@ + logical_text(op) + " "@);
                ("("@ + r.0 + ")"@, r.1)
            }
        },
        Expr::Not(inner) => {
            let r = expr_r(k, il, n, *inner);
            ("NOT ("@ + r.0 + ")"@, r.1)
        },
        Expr::InList { expr, values } => {
            if values@.len() == 0 {
                text_r("0 = 1"@)
            } else {
                let a = expr_r(k, il, n, *expr);
                let b = binds_r(k, il, n + a.1.len(), values@);
                (a.0 + " IN ("@ + b.0 + ")"@, a.1 + b.1)
            }
        },
        Expr::IsNull { expr, negated } => {
            let a = expr_r(k, il, n, *expr);
            (
                a.0 + if negated {
                    " IS NOT NULL"@
                } else {
                    " IS NULL"@
                },
                a.1,
            )
        },
        Expr::Aggregate { func, args, filter } => {
            let body = match filter {
                Some(cond) => {
                    if k == DialectKind::Mysql {
                        if args@.len() == 0 {
                            let c = expr_r(k, il, n, *cond);
                            ("CASE WHEN "@ + c.0 + " THEN 1 END"@, c.1)
                        } else {
                            agg_cases_r(k, il, n, e, args@.len())
                        }
                    } else {
                        let a = exprs_r(k, il, n, args@, ", "@);
                        let c = expr_r(k, il, n + a.1.len(), *cond);
                        (a.0 + ") FILTER (WHERE "@ + c.0, a.1 + c.1)
                    }
                },
                None => exprs_r(k, il, n, args@, ", "@),
            };
            (agg_name(func) + "("@ + body.0 + ")"@, body.1)
        },
        Expr::Func { name, args } => {
            let a = exprs_r(k, il, n, args@, ", "@);
            (function_name_text(name@) + "("@ + a.0 + ")"@, a.1)
        },
        Expr::CountStar => text_r("COUNT(*)"@),
        Expr::Alias { expr, alias } => {
            let a = expr_r(k, il, n, *expr);
            (a.0 + " AS "@ + quoted_identifier(k, alias@), a.1)
        },
        Expr::Case { whens, else_expr } => {
            let w = whens_r(k, il, n, whens@);
            let d = match else_expr {
                Some(d) => {
                    let r = expr_r(k, il, n + w.1.len(), *d);
                    (" ELSE "@ + r.0, r.1)
                },
                None => empty_r(),
            };
            ("CASE"@ + w.0 + d.0 + " END"@, w.1 + d.1)
        },
        Expr::Subquery(stmt) => {
            let s = select_r(k, il, n, *stmt);
            ("("@ + s.0 + ")"@, s.1)
        },
        Expr::InSubquery { expr, subquery, negated } => {
            let a = expr_r(k, il, n, *expr);
            let s = select_r(k, il, n + a.1.len(), *subquery);
            (
                a.0 + (if negated {
                    " NOT IN ("@
                } else {
                    " IN ("@
                }) + s.0 + ")"@,
                a.1 + s.1,
            )
        },
        Expr::Raw { sql, params } => (sql@, params@),
        Expr::Exists { subquery, negated } => {
            let s = select_r(k, il, n, *subquery);
            (
                (if negated {
                    "NOT EXISTS ("@
                } else {
                    "EXISTS ("@
                }) + s.0 + ")"@,
                s.1,
            )
        },
        Expr::Excluded(column) => text_r(
            if k == DialectKind::Mysql {
                "VALUES("@ + quoted_identifier(k, column@) + ")"@
            } else {
                "EXCLUDED."@ + quoted_identifier(k, column@)
            },
        ),
        Expr::Extract { field, source } => {
            let s = expr_r(k, il, n, *source);
            ("EXTRACT("@ + field@ + " FROM "@ + s.0 + ")"@, s.1)
        },
        Expr::Over { expr, window } => {
            let a = expr_r(k, il, n, *expr);
            let w = window_r(k, il, n + a.1.len(), *window);
            (a.0 + " OVER ("@ + w.0 + ")"@, a.1 + w.1)
        },
    }
}

/// The first `len` emulated filter terms of an aggregate `e` on a backend
/// without `FILTER`: `CASE WHEN cond THEN arg END` per argument, joined by
/// `", "`.
pub open spec fn agg_cases_r(k: DialectKind, il: bool, n: nat, e: Expr, len: nat) -> (
    Seq<char>,
    Seq<Value>,
)
    decreases e, 0nat, len,
{
    match e {
        Expr::Aggregate { func, args, filter: Some(cond) } => {
            if len == 0 || len > args@.len() {
                empty_r()
            } else {
                let a = if len == 1 {
                    empty_r()
                } else {
                    let p = agg_cases_r(k, il, n, e, (len - 1) as nat);
                    (p.0 + ", "@, p.1)
                };
                let c = expr_r(k, il, n + a.1.len(), *cond);
                let v = expr_r(k, il, n + a.1.len() + c.1.len(), args@[len - 1]);
                (a.0 + "CASE WHEN "@ + c.0 + " THEN "@ + v.0 + " END"@, a.1 + c.1 + v.1)
            }
        },
        _ => empty_r(),
    }
}

/// Expressions joined by `sep`.
pub open spec fn exprs_r(k: DialectKind, il: bool, n: nat, s: Seq<Expr>, sep: Seq<char>) -> (
    Seq<char>,
    Seq<Value>,
)
    decreases s, 2nat, 0nat,
{
    if s.len() == 0 {
        empty_r()
    } else if s.len() == 1 {
        expr_r(k, il, n, s[0])
    } else {
        let a = exprs_r(k, il, n, s.drop_last(), sep);
        let b = expr_r(k, il, n + a.1.len(), s.last());
        (a.0 + sep + b.0, a.1 + b.1)
    }
}

/// Order terms joined by `", "`.
pub open spec fn orders_r(k: DialectKind, il: bool, n: nat, s: Seq<OrderItem>) -> (
    Seq<char>,
    Seq<Value>,
)
    decreases s, 2nat, 0nat,
{
    if s.len() == 0 {
        empty_r()
    } else {
        let a = if s.len() == 1 {
            empty_r()
        } else {
            let p = orders_r(k, il, n, s.drop_last());
            (p.0 + ", "@, p.1)
        };
        let t = s.last();
        let b = expr_r(k, il, n + a.1.len(), t.expr);
        (a.0 + b.0 + order_suffix(t.descending, t.nulls), a.1 + b.1)
    }
}

/// `CASE` branches, each ` WHEN cond THEN result`.
pub open spec fn whens_r(k: DialectKind, il: bool, n: nat, s: Seq<(Expr, Expr)>) -> (
    Seq<char>,
    Seq<Value>,
)
    decreases s, 2nat, 0nat,
{
    if s.len() == 0 {
        empty_r()
    } else {
        let a = whens_r(k, il, n, s.drop_last());
        let c = expr_r(k, il, n + a.1.len(), s.last().0);
        let r = expr_r(k, il, n + a.1.len() + c.1.len(), s.last().1);
        (a.0 + " WHEN "@ + c.0 + " THEN "@ + r.0, a.1 + c.1 + r.1)
    }
}

/// A window frame bound.
pub open spec fn bound_r(k: DialectKind, il: bool, n: nat, b: WindowBound) -> (
    Seq<char>,
    Seq<Value>,
)
    decreases b, 2nat, 0nat,
{
    match b {
        WindowBound::UnboundedPreceding => text_r("UNBOUNDED PRECEDING"@),
        WindowBound::Preceding(e) => {
            let r = expr_r(k, il, n, *e);
            (r.0 + " PRECEDING"@, r.1)
        },
        WindowBound::CurrentRow => text_r("CURRENT ROW"@),
        WindowBound::Following(e) => {
            let r = expr_r(k, il, n, *e);
            (r.0 + " FOLLOWING"@, r.1)
        },
        WindowBound::UnboundedFollowing => text_r("UNBOUNDED FOLLOWING"@),
    }
}

/// The inside of an `OVER (...)` clause.
pub open spec fn window_r(k: DialectKind, il: bool, n: nat, w: Window) -> (
    Seq<char>,
    Seq<Value>,
)
    decreases w, 2nat, 0nat,
{
    let p = if w.partition_by@.len() > 0 {
        let r = exprs_r(k, il, n, w.partition_by@, ", "@);
        ("PARTITION BY "@ + r.0, r.1)
    } else {
        empty_r()
    };
    let o = if w.order_by@.len() > 0 {
        let r = orders_r(k, il, n + p.1.len(), w.order_by@);
        (
            (if w.partition_by@.len() > 0 {
                " "@
            } else {
                seq![]
            }) + "ORDER BY "@ + r.0,
            r.1,
        )
    } else {
        empty_r()
    };
    let f = match w.frame {
        Some(frame) => {
            let s = bound_r(k, il, n + p.1.len() + o.1.len(), frame.start);
            let e = match frame.end {
                Some(end) => bound_r(k, il, n + p.1.len() + o.1.len() + s.1.len(), end),
                None => text_r("CURRENT ROW"@),
            };
            (
                (if w.partition_by@.len() > 0 || w.order_by@.len() > 0 {
                    " "@
                } else {
                    seq![]
                }) + unit_name(frame.unit) + " BETWEEN "@ + s.0 + " AND "@ + e.0,
                s.1 + e.1,
            )
        },
        None => empty_r(),
    };
    (p.0 + o.0 + f.0, p.1 + o.1 + f.1)
}

/// Projection items joined by `", "`.
pub open spec fn items_r(k: DialectKind, il: bool, n: nat, s: Seq<SelectItem>) -> (
    Seq<char>,
    Seq<Value>,
)
    decreases s, 2nat, 0nat,
{
    if s.len() == 0 {
        empty_r()
    } else {
        let a = if s.len() == 1 {
            empty_r()
        } else {
            let p = items_r(k, il, n, s.drop_last());
            (p.0 + ", "@, p.1)
        };
        let b = match s.last() {
            SelectItem::Column { table, column } => text_r(qualified(k, table@, column@)),
            SelectItem::Expression(e) => expr_r(k, il, n + a.1.len(), e),
        };
        (a.0 + b.0, a.1 + b.1)
    }
}

/// ` WHERE` and the filters joined by ` AND `, when there are any.
pub open spec fn where_r(k: DialectKind, il: bool, n: nat, filters: Seq<Expr>) -> (
    Seq<char>,
    Seq<Value>,
)
    decreases filters, 3nat, 0nat,
{
    if filters.len() == 0 {
        empty_r()
    } else {
        let r = exprs_r(k, il, n, filters, " AND "@);
        (" WHERE "@ + r.0, r.1)
    }
}

/// The head of a `SELECT`: the `WITH` clause, `SELECT`, the distinct marker and
/// the projection.
pub open spec fn select_head_r(k: DialectKind, il: bool, n: nat, st: SelectStatement) -> (
    Seq<char>,
    Seq<Value>,
)
    decreases st, 1nat, 0nat,
{
    let w = match st.with {
        Some(w) => with_r(k, il, n, w),
        None => empty_r(),
    };
    let d = if st.distinct_on@.len() > 0 {
        let r = exprs_r(k, il, n + w.1.len(), st.distinct_on@, ", "@);
        ("DISTINCT ON ("@ + r.0 + ") "@, r.1)
    } else if st.distinct {
        text_r("DISTINCT "@)
    } else {
        empty_r()
    };
    let p = items_r(k, il, n + w.1.len() + d.1.len(), st.projection@);
    (w.0 + "SELECT "@ + d.0 + p.0, w.1 + d.1 + p.1)
}

/// The tail of a `SELECT`: `FROM`, joins, `WHERE`, `GROUP BY`, `HAVING`,
/// `ORDER BY`, `LIMIT`, `OFFSET` and the row lock.
pub open spec fn select_tail_r(k: DialectKind, il: bool, n: nat, st: SelectStatement) -> (
    Seq<char>,
    Seq<Value>,
)
    decreases st, 1nat, 0nat,
{
    let from = " FROM "@ + quoted_identifier(k, st.table@) + joins_text(k, st.joins@);
    let w = where_r(k, il, n, st.filters@);
    let g = if st.group_by@.len() > 0 {
        let r = exprs_r(k, il, n + w.1.len(), st.group_by@, ", "@);
        (" GROUP BY "@ + r.0, r.1)
    } else {
        empty_r()
    };
    let h = match st.having {
        Some(h) => {
            let r = expr_r(k, il, n + w.1.len() + g.1.len(), h);
            (" HAVING "@ + r.0, r.1)
        },
        None => empty_r(),
    };
    let o = if st.order_by@.len() > 0 {
        let r = orders_r(k, il, n + w.1.len() + g.1.len() + h.1.len(), st.order_by@);
        (" ORDER BY "@ + r.0, r.1)
    } else {
        empty_r()
    };
    (
        from + w.0 + g.0 + h.0 + o.0 + limit_text(st.limit, st.offset) + row_lock_text(k, st.lock),
        w.1 + g.1 + h.1 + o.1,
    )
}

/// A `SELECT` statement.
pub open spec fn select_r(k: DialectKind, il: bool, n: nat, st: SelectStatement) -> (
    Seq<char>,
    Seq<Value>,
)
    decreases st, 2nat, 0nat,
{
    let h = select_head_r(k, il, n, st);
    let t = select_tail_r(k, il, n + h.1.len(), st);
    join_r(h, t)
}

/// A `WITH [RECURSIVE] cte, ... ` clause, with its trailing space.
pub open spec fn with_r(k: DialectKind, il: bool, n: nat, w: WithClause) -> (
    Seq<char>,
    Seq<Value>,
)
    decreases w, 2nat, 0nat,
{
    let c = ctes_r(k, il, n, w.ctes@);
    (
        "WITH "@ + (if w.recursive {
            "RECURSIVE "@
        } else {
            seq![]
        }) + c.0 + " "@,
        c.1,
    )
}

/// One common table expression: `name [(columns)] AS (query)`.
pub open spec fn cte_r(k: DialectKind, il: bool, n: nat, c: Cte) -> (Seq<char>, Seq<Value>)
    decreases c, 2nat, 0nat,
{
    let q = cte_query_r(k, il, n, c.query);
    (cte_head_text(k, c) + q.0 + ")"@, q.1)
}

/// The body of a common table expression.
pub open spec fn cte_query_r(k: DialectKind, il: bool, n: nat, q: CteQuery) -> (
    Seq<char>,
    Seq<Value>,
)
    decreases q, 2nat, 0nat,
{
    match q {
        CteQuery::Select(st) => select_r(k, il, n, st),
        CteQuery::Union(u) => union_r(k, il, n, *u),
    }
}

/// The head of a common table expression: `name [(columns)] AS (`.
pub open spec fn cte_head_text(k: DialectKind, c: Cte) -> Seq<char> {
    quoted_identifier(k, c.name@) + match c.columns {
        Some(cols) => "("@ + idents_text(k, cols@) + ")"@,
        None => seq![],
    } + " AS ("@
}

/// Common table expressions joined by `", "`.
pub open spec fn ctes_r(k: DialectKind, il: bool, n: nat, s: Seq<Cte>) -> (Seq<char>, Seq<Value>)
    decreases s, 2nat, 0nat,
{
    if s.len() == 0 {
        empty_r()
    } else {
        let a = if s.len() == 1 {
            empty_r()
        } else {
            let p = ctes_r(k, il, n, s.drop_last());
            (p.0 + ", "@, p.1)
        };
        let c = cte_r(k, il, n + a.1.len(), s.last());
        (a.0 + c.0, a.1 + c.1)
    }
}

/// The branches after the first of a union, each with its `UNION [ALL]`.
pub open spec fn rest_r(k: DialectKind, il: bool, n: nat, s: Seq<(bool, SelectStatement)>) -> (
    Seq<char>,
    Seq<Value>,
)
    decreases s, 2nat, 0nat,
{
    if s.len() == 0 {
        empty_r()
    } else {
        let a = rest_r(k, il, n, s.drop_last());
        let b = select_r(k, il, n + a.1.len(), s.last().1);
        (
            a.0 + (if s.last().0 {
                " UNION ALL "@
            } else {
                " UNION "@
            }) + b.0,
            a.1 + b.1,
        )
    }
}

/// A `UNION` statement.
pub open spec fn union_r(k: DialectKind, il: bool, n: nat, u: UnionStatement) -> (
    Seq<char>,
    Seq<Value>,
)
    decreases u, 2nat, 0nat,
{
    let f = select_r(k, il, n, u.first);
    let r = rest_r(k, il, n + f.1.len(), u.rest@);
    let o = if u.order_by@.len() > 0 {
        let x = orders_r(k, il, n + f.1.len() + r.1.len(), u.order_by@);
        (" ORDER BY "@ + x.0, x.1)
    } else {
        empty_r()
    };
    (
        f.0 + r.0 + o.0 + limit_text(u.limit, u.offset) + row_lock_text(k, u.lock),
        f.1 + r.1 + o.1,
    )
}

// ---------------------------------------------------------------------------
// Counting, existence and write statements
// ---------------------------------------------------------------------------

/// `SELECT COUNT(*)` over a statement's table and filters.
pub open spec fn count_r(k: DialectKind, il: bool, n: nat, st: SelectStatement) -> (
    Seq<char>,
    Seq<Value>,
) {
    let w = where_r(k, il, n, st.filters@);
    ("SELECT COUNT(*) FROM "@ + quoted_identifier(k, st.table@) + w.0, w.1)
}

/// An existence check over a statement's table and filters.
pub open spec fn exists_r(k: DialectKind, il: bool, n: nat, st: SelectStatement) -> (
    Seq<char>,
    Seq<Value>,
) {
    let w = where_r(k, il, n, st.filters@);
    ("SELECT EXISTS(SELECT 1 FROM "@ + quoted_identifier(k, st.table@) + w.0 + ")"@, w.1)
}

/// ` RETURNING` and the columns, when there are any.
pub open spec fn returning_text(k: DialectKind, cols: Seq<&'static str>) -> Seq<char> {
    if cols.len() > 0 {
        " RETURNING "@ + idents_text(k, cols)
    } else {
        seq![]
    }
}

/// Assignments `"column" = expr` joined by `", "`.
pub open spec fn assigns_r(k: DialectKind, il: bool, n: nat, s: Seq<Assignment>) -> (
    Seq<char>,
    Seq<Value>,
)
    decreases s.len(),
{
    if s.len() == 0 {
        empty_r()
    } else {
        let a = if s.len() == 1 {
            empty_r()
        } else {
            let p = assigns_r(k, il, n, s.drop_last());
            (p.0 + ", "@, p.1)
        };
        let v = expr_r(k, il, n + a.1.len(), s.last().value);
        (a.0 + quoted_identifier(k, s.last().column@) + " = "@ + v.0, a.1 + v.1)
    }
}

/// Value rows, each `(v, ...)`, joined by `", "`.
pub open spec fn rows_r(k: DialectKind, il: bool, n: nat, s: Seq<Vec<Value>>) -> (
    Seq<char>,
    Seq<Value>,
)
    decreases s.len(),
{
    if s.len() == 0 {
        empty_r()
    } else {
        let a = if s.len() == 1 {
            empty_r()
        } else {
            let p = rows_r(k, il, n, s.drop_last());
            (p.0 + ", "@, p.1)
        };
        let b = binds_r(k, il, n + a.1.len(), s.last()@);
        (a.0 + "("@ + b.0 + ")"@, a.1 + b.1)
    }
}

/// The conflict clause of an insert. MySQL has no conflict target: an update
/// is `ON DUPLICATE KEY UPDATE`, and skipping is the `INSERT IGNORE` prefix.
pub open spec fn conflict_r(k: DialectKind, il: bool, n: nat, c: OnConflict) -> (
    Seq<char>,
    Seq<Value>,
) {
    match c {
        OnConflict::Abort => empty_r(),
        OnConflict::Update { constraint, updates } => {
            let u = assigns_r(k, il, n, updates@);
            (
                (if k == DialectKind::Mysql {
                    " ON DUPLICATE KEY UPDATE "@
                } else {
                    " ON CONFLICT ("@ + idents_text(k, constraint@) + ") DO UPDATE SET "@
                }) + u.0,
                u.1,
            )
        },
        OnConflict::DoNothing { constraint } => text_r(
            if k == DialectKind::Mysql {
                seq![]
            } else {
                " ON CONFLICT "@ + (if constraint@.len() > 0 {
                    "("@ + idents_text(k, constraint@) + ") "@
                } else {
                    seq![]
                }) + "DO NOTHING"@
            },
        ),
    }
}

/// The keyword that opens an insert.
pub open spec fn insert_prefix(k: DialectKind, c: OnConflict) -> Seq<char> {
    if k == DialectKind::Mysql && c is DoNothing {
        "INSERT IGNORE INTO "@
    } else {
        "INSERT INTO "@
    }
}

/// An `INSERT` statement.
pub open spec fn insert_r(k: DialectKind, il: bool, n: nat, st: InsertStatement) -> (
    Seq<char>,
    Seq<Value>,
) {
    let rows = rows_r(k, il, n, st.rows@);
    let c = conflict_r(k, il, n + rows.1.len(), st.on_conflict);
    (
        insert_prefix(k, st.on_conflict) + quoted_identifier(k, st.table@) + " ("@ + idents_text(
            k,
            st.columns@,
        ) + ") VALUES "@ + rows.0 + c.0 + returning_text(k, st.returning@),
        rows.1 + c.1,
    )
}

/// An `UPDATE` statement.
pub open spec fn update_r(k: DialectKind, il: bool, n: nat, st: UpdateStatement) -> (
    Seq<char>,
    Seq<Value>,
) {
    let a = assigns_r(k, il, n, st.assignments@);
    let w = where_r(k, il, n + a.1.len(), st.filters@);
    (
        "UPDATE "@ + quoted_identifier(k, st.table@) + " SET "@ + a.0 + w.0 + returning_text(
            k,
            st.returning@,
        ),
        a.1 + w.1,
    )
}

/// A `DELETE` statement.
pub open spec fn delete_r(k: DialectKind, il: bool, n: nat, st: DeleteStatement) -> (
    Seq<char>,
    Seq<Value>,
) {
    let w = where_r(k, il, n, st.filters@);
    (
        "DELETE FROM "@ + quoted_identifier(k, st.table@) + w.0 + returning_text(k, st.returning@),
        w.1,
    )
}

/// The text of an expression with its values written inline as literals, as a
/// partial-index predicate or an index expression is rendered.
#[verifier::opaque]
pub open spec fn inline_text(k: DialectKind, e: Expr) -> Seq<char> {
    expr_r(k, true, 0, e).0
}

/// A finished rendering `r` is the text of `s` with parameters that are, one for
/// one, the same values as those `s` binds.
pub open spec fn rendered(r: (String, Vec<Value>), s: (Seq<char>, Seq<Value>)) -> bool {
    r.0@ == s.0 && params_extended(seq![], r.1@, s.1)
}

} // verus!
