//! The shared SQL writer.
//!
//! A [`QueryWriter`] accumulates SQL text and an ordered list of bound
//! parameters, deferring the backend-specific bits (identifier quoting,
//! placeholder spelling) to a [`Dialect`]. Every statement renders through the
//! same walk; what each piece renders to is stated in [`super::sql`].

use vstd::prelude::*;

use super::sql::{
    lemma_order_direction,
    inline_text, assigns_r, conflict_r, count_r, delete_r, exists_r, insert_prefix, insert_r, rendered,
    returning_text, rows_r, update_r, cte_query_r, cte_head_text, cte_r, ctes_r, items_r, rest_r, select_head_r, select_tail_r, union_r, where_r, with_r, bound_r, idents_text, join_text, joins_text, limit_text, order_suffix, orders_r, row_lock_text,
    select_r, window_r, agg_cases_r, binds_r, whens_r, exprs_r, expr_r, json_key_text, bind_r, empty_r, function_name_text, hex_bytes, is_name_char, join_r, literal_list,
    literal_text, params_extended, qualified, text_r, lemma_params_extended_trans,
    lemma_params_extended_refl,
};
use super::{
    bool_text, escaped_literal, quoted_identifier, string_literal, write_quoted,
    write_string_literal, Dialect, DialectKind,
};
use crate::text::{chars_of, decimal_string, push_char, push_hex_fixed, push_signed_decimal, push_str};
use crate::value::{same_value, Value};
use crate::query::write::{Assignment, DeleteStatement, InsertStatement, OnConflict, UpdateStatement};
use crate::query::expr::{
    agg_name, logical_text, op_text, unit_name, BinaryOp, Expr, LogicalOp, Window, WindowBound,
};
use crate::query::ast::{
    join_keyword, Cte, CteQuery, Join, JoinKind, LockClause, LockStrength, LockWait, OrderItem, SelectItem,
    SelectStatement, UnionStatement, WithClause,
};

verus! {

/// Writes a single-quoted SQL string literal, doubling embedded quotes.
pub fn quote_string_literal(value: &str, out: &mut String)
    ensures
        final(out)@ == old(out)@ + string_literal(value@, false),
{
    quote_string_literal_with(value, out, false);
}

/// Like [`quote_string_literal`] but also doubles backslashes, for backends where
/// a backslash is an escape character inside single-quoted strings (MySQL).
pub fn quote_string_literal_mysql(value: &str, out: &mut String)
    ensures
        final(out)@ == old(out)@ + string_literal(value@, true),
{
    quote_string_literal_with(value, out, true);
}

/// Writes `value` as a single-quoted SQL literal, doubling embedded quotes and,
/// when `escape_backslash` is set, doubling backslashes too.
pub fn quote_string_literal_with(value: &str, out: &mut String, escape_backslash: bool)
    ensures
        final(out)@ == old(out)@ + string_literal(value@, escape_backslash),
{
    write_string_literal(value, out, escape_backslash)
}

/// Appends the inline literal of `value` (see [`literal_text`]).
pub fn write_literal(k: DialectKind, value: &Value, out: &mut String)
    ensures
        final(out)@ == old(out)@ + literal_text(k, *value),
    decreases value, 1nat,
{
    match value {
        Value::Null => push_str(out, "NULL"),
        Value::Bool(flag) => {
            let t = if k == DialectKind::Postgres {
                if *flag {
                    "true"
                } else {
                    "false"
                }
            } else if *flag {
                "1"
            } else {
                "0"
            };
            push_str(out, t);
        },
        Value::Int(number) => push_signed_decimal(out, *number),
        Value::Real(text) => push_str(out, text.as_str()),
        Value::Text(text) => write_string_literal(text.as_str(), out, k == DialectKind::Mysql),
        Value::Timestamp(text) => write_string_literal(text.as_str(), out, k == DialectKind::Mysql),
        Value::Json(text) => write_string_literal(text.as_str(), out, k == DialectKind::Mysql),
        Value::Uuid(text) => write_string_literal(text.as_str(), out, k == DialectKind::Mysql),
        Value::Blob(bytes) => {
            let ghost start = out@;
            push_str(out, "X'");
            let mut i: usize = 0;
            while i < bytes.len()
                invariant
                    i <= bytes@.len(),
                    out@ == start + "X'"@ + hex_bytes(bytes@.take(i as int)),
                decreases bytes@.len() - i,
            {
                assert(bytes@.take(i + 1).drop_last() == bytes@.take(i as int));
                push_hex_fixed(out, bytes[i] as u64, 2);
                i = i + 1;
            }
            assert(bytes@.take(i as int) == bytes@);
            push_str(out, "'");
        },
        Value::Array(items) => {
            let mut inner = String::new();
            push_str(&mut inner, "[");
            write_literal_list(k, items, &mut inner);
            push_str(&mut inner, "]");
            write_string_literal(inner.as_str(), out, k == DialectKind::Mysql);
        },
    }
}

/// Appends the literals of `items` joined by `", "`.
pub fn write_literal_list(k: DialectKind, items: &Vec<Value>, out: &mut String)
    ensures
        final(out)@ == old(out)@ + literal_list(k, items@),
    decreases items, 0nat,
{
    let ghost start = out@;
    let mut i: usize = 0;
    while i < items.len()
        invariant
            i <= items@.len(),
            out@ == start + literal_list(k, items@.take(i as int)),
        decreases items@.len() - i,
    {
        proof {
            vstd::std_specs::vec::axiom_vec_index_decreases(*items, i as int);
        }
        assert(items@.take(i + 1).drop_last() == items@.take(i as int));
        if i != 0 {
            push_str(out, ", ");
        }
        write_literal(k, &items[i], out);
        i = i + 1;
    }
    assert(items@.take(i as int) == items@);
}

/// Builds a SQL string and its bound parameters for a dialect.
pub struct QueryWriter<'a, D: Dialect> {
    dialect: &'a D,
    sql: String,
    params: Vec<Value>,
    inline_values: bool,
}

/// `after` is `before` with `r` written: the text appended and the values
/// bound, under the same dialect and mode.
pub open spec fn wrote<'a, D: Dialect>(
    before: QueryWriter<'a, D>,
    after: QueryWriter<'a, D>,
    r: (Seq<char>, Seq<Value>),
) -> bool {
    &&& after.kind() == before.kind()
    &&& after.inline() == before.inline()
    &&& after.text() == before.text() + r.0
    &&& params_extended(before.bound(), after.bound(), r.1)
}

/// Writes compose.
pub proof fn lemma_wrote_trans<'a, D: Dialect>(
    a: QueryWriter<'a, D>,
    b: QueryWriter<'a, D>,
    c: QueryWriter<'a, D>,
    r1: (Seq<char>, Seq<Value>),
    r2: (Seq<char>, Seq<Value>),
)
    requires
        wrote(a, b, r1),
        wrote(b, c, r2),
    ensures
        wrote(a, c, join_r(r1, r2)),
{
    lemma_params_extended_trans(a.bound(), b.bound(), c.bound(), r1.1, r2.1);
    assert(c.text() == a.text() + (r1.0 + r2.0));
}

/// Writing nothing.
pub proof fn lemma_wrote_refl<'a, D: Dialect>(a: QueryWriter<'a, D>)
    ensures
        wrote(a, a, empty_r()),
{
    assert(a.text() == a.text() + Seq::<char>::empty());
}

/// Three writes compose.
pub proof fn lemma_chain3<'a, D: Dialect>(
    a: QueryWriter<'a, D>,
    b: QueryWriter<'a, D>,
    c: QueryWriter<'a, D>,
    d: QueryWriter<'a, D>,
    r1: (Seq<char>, Seq<Value>),
    r2: (Seq<char>, Seq<Value>),
    r3: (Seq<char>, Seq<Value>),
)
    requires
        wrote(a, b, r1),
        wrote(b, c, r2),
        wrote(c, d, r3),
    ensures
        wrote(a, d, join_r(join_r(r1, r2), r3)),
{
    lemma_wrote_trans(a, b, c, r1, r2);
    lemma_wrote_trans(a, c, d, join_r(r1, r2), r3);
}

/// Four writes compose.
pub proof fn lemma_chain4<'a, D: Dialect>(
    a: QueryWriter<'a, D>,
    b: QueryWriter<'a, D>,
    c: QueryWriter<'a, D>,
    d: QueryWriter<'a, D>,
    e: QueryWriter<'a, D>,
    r1: (Seq<char>, Seq<Value>),
    r2: (Seq<char>, Seq<Value>),
    r3: (Seq<char>, Seq<Value>),
    r4: (Seq<char>, Seq<Value>),
)
    requires
        wrote(a, b, r1),
        wrote(b, c, r2),
        wrote(c, d, r3),
        wrote(d, e, r4),
    ensures
        wrote(a, e, join_r(join_r(join_r(r1, r2), r3), r4)),
{
    lemma_chain3(a, b, c, d, r1, r2, r3);
    lemma_wrote_trans(a, d, e, join_r(join_r(r1, r2), r3), r4);
}

/// Five writes compose.
pub proof fn lemma_chain5<'a, D: Dialect>(
    a: QueryWriter<'a, D>,
    b: QueryWriter<'a, D>,
    c: QueryWriter<'a, D>,
    d: QueryWriter<'a, D>,
    e: QueryWriter<'a, D>,
    f: QueryWriter<'a, D>,
    r1: (Seq<char>, Seq<Value>),
    r2: (Seq<char>, Seq<Value>),
    r3: (Seq<char>, Seq<Value>),
    r4: (Seq<char>, Seq<Value>),
    r5: (Seq<char>, Seq<Value>),
)
    requires
        wrote(a, b, r1),
        wrote(b, c, r2),
        wrote(c, d, r3),
        wrote(d, e, r4),
        wrote(e, f, r5),
    ensures
        wrote(a, f, join_r(join_r(join_r(join_r(r1, r2), r3), r4), r5)),
{
    lemma_chain3(a, b, c, d, r1, r2, r3);
    lemma_wrote_trans(a, d, e, join_r(join_r(r1, r2), r3), r4);
    lemma_wrote_trans(a, e, f, join_r(join_r(join_r(r1, r2), r3), r4), r5);
}

/// A write may be restated with an equal rendering.
pub proof fn lemma_wrote_same<'a, D: Dialect>(
    a: QueryWriter<'a, D>,
    b: QueryWriter<'a, D>,
    r1: (Seq<char>, Seq<Value>),
    r2: (Seq<char>, Seq<Value>),
)
    requires
        wrote(a, b, r1),
        r1.0 =~= r2.0,
        r1.1 =~= r2.1,
    ensures
        wrote(a, b, r2),
{
    assert(r1 == r2);
}

impl<'a, D: Dialect> QueryWriter<'a, D> {
    /// The backend the writer renders for.
    pub closed spec fn kind(&self) -> DialectKind {
        self.dialect.spec_kind()
    }

    /// The SQL text written so far.
    pub closed spec fn text(&self) -> Seq<char> {
        self.sql@
    }

    /// The parameters bound so far.
    pub closed spec fn bound(&self) -> Seq<Value> {
        self.params@
    }

    /// Whether values are written inline as literals.
    pub closed spec fn inline(&self) -> bool {
        self.inline_values
    }

    /// The number of parameters bound so far.
    pub open spec fn offset(&self) -> nat {
        self.bound().len()
    }

    /// Creates a writer that renders for `dialect`, binding values as parameters.
    pub fn new(dialect: &'a D) -> (w: Self)
        ensures
            w.kind() == dialect.spec_kind(),
            !w.inline(),
            w.text().len() == 0,
            w.bound().len() == 0,
    {
        QueryWriter { dialect, sql: String::new(), params: Vec::new(), inline_values: false }
    }

    /// Creates a writer that renders values inline as SQL literals instead of
    /// as bound placeholders (DDL cannot bind parameters).
    pub fn new_inline(dialect: &'a D) -> (w: Self)
        ensures
            w.kind() == dialect.spec_kind(),
            w.inline(),
            w.text().len() == 0,
            w.bound().len() == 0,
    {
        QueryWriter { dialect, sql: String::new(), params: Vec::new(), inline_values: true }
    }

    /// Consumes the writer, returning the SQL string and its bound parameters.
    pub fn finish(self) -> (r: (String, Vec<Value>))
        ensures
            r.0@ == self.text(),
            r.1@ == self.bound(),
    {
        (self.sql, self.params)
    }

    /// Appends raw SQL text.
    pub fn push_sql(&mut self, sql: &str)
        ensures
            wrote(*old(self), *final(self), text_r(sql@)),
            final(self).bound() == old(self).bound(),
    {
        push_str(&mut self.sql, sql);
        proof {
            lemma_params_extended_refl(self.params@);
        }
    }

    /// Appends one character.
    pub fn push_ch(&mut self, c: char)
        ensures
            wrote(*old(self), *final(self), text_r(seq![c])),
            final(self).bound() == old(self).bound(),
    {
        let ghost before = self.sql@;
        push_char(&mut self.sql, c);
        assert(self.sql@ == before + seq![c]);
        proof {
            lemma_params_extended_refl(self.params@);
        }
    }

    /// Appends a scalar function name, keeping only letters, digits, `_` and
    /// `.`, so that a name built from untrusted input cannot inject SQL.
    pub fn push_function_name(&mut self, name: &str)
        ensures
            wrote(*old(self), *final(self), text_r(function_name_text(name@))),
            final(self).bound() == old(self).bound(),
    {
        let mut out = String::new();
        let chars = chars_of(name);
        let mut i: usize = 0;
        while i < chars.len()
            invariant
                i <= chars@.len(),
                chars@ == name@,
                out@ == function_name_text(chars@.take(i as int)),
            decreases chars@.len() - i,
        {
            let ch = chars[i];
            assert(chars@.take(i + 1).drop_last() == chars@.take(i as int));
            if ('a' <= ch && ch <= 'z') || ('A' <= ch && ch <= 'Z') || ('0' <= ch && ch <= '9')
                || ch == '_' || ch == '.' {
                push_char(&mut out, ch);
            }
            i = i + 1;
        }
        assert(chars@.take(i as int) == name@);
        push_str(&mut self.sql, out.as_str());
        proof {
            lemma_params_extended_refl(self.params@);
        }
    }

    /// Appends a quoted identifier.
    pub fn push_identifier(&mut self, identifier: &str)
        ensures
            wrote(*old(self), *final(self), text_r(quoted_identifier(old(self).kind(), identifier@))),
            final(self).bound() == old(self).bound(),
    {
        self.dialect.quote_identifier(identifier, &mut self.sql);
        proof {
            lemma_params_extended_refl(self.params@);
        }
    }

    /// Appends a `"table"."column"` reference.
    pub fn push_qualified(&mut self, table: &str, column: &str)
        ensures
            wrote(*old(self), *final(self), text_r(qualified(old(self).kind(), table@, column@))),
            final(self).bound() == old(self).bound(),
    {
        let ghost start = self.sql@;
        self.dialect.quote_identifier(table, &mut self.sql);
        push_str(&mut self.sql, ".");
        self.dialect.quote_identifier(column, &mut self.sql);
        assert(self.sql@ == start + qualified(self.dialect.spec_kind(), table@, column@));
        proof {
            lemma_params_extended_refl(self.params@);
        }
    }

    /// Appends a placeholder and records its bound value; in inline mode the
    /// value is written as a SQL literal and nothing is bound.
    pub fn push_bind(&mut self, value: Value)
        ensures
            wrote(*old(self), *final(self), bind_r(old(self).kind(), old(self).inline(), old(self).offset(), value)),
    {
        self.push_bind_ref(&value)
    }

    /// [`QueryWriter::push_bind`] for a borrowed value, which is copied.
    pub fn push_bind_ref(&mut self, value: &Value)
        ensures
            wrote(*old(self), *final(self), bind_r(old(self).kind(), old(self).inline(), old(self).offset(), *value)),
    {
        if self.inline_values {
            write_literal(self.dialect.kind(), value, &mut self.sql);
            proof {
                lemma_params_extended_refl(self.params@);
            }
        } else {
            let index = self.params.len();
            self.dialect.placeholder(index, &mut self.sql);
            let ghost before = self.params@;
            self.params.push(value.duplicate());
            assert(self.params@[before.len() + 0int] == self.params@[index as int]);
        }
    }
}

impl<'a, D: Dialect> QueryWriter<'a, D> {
    /// Appends `text` as a quoted string literal.
    pub fn push_literal(&mut self, text: &str)
        ensures
            wrote(*old(self), *final(self), text_r(escaped_literal(old(self).kind(), text@))),
            final(self).bound() == old(self).bound(),
    {
        self.dialect.escape_string_literal(text, &mut self.sql);
        proof {
            lemma_params_extended_refl(self.params@);
        }
    }

    /// Renders an expression.
    pub fn write_expr(&mut self, e: &Expr)
        ensures
            wrote(*old(self), *final(self), expr_r(old(self).kind(), old(self).inline(), old(self).offset(), *e)),
        decreases e, 2nat, 0nat,
    {
        match e {
            Expr::Column { table, column } => self.push_qualified(table, column),
            Expr::Value(v) => self.push_bind_ref(v),
            Expr::Binary { .. } => self.write_binary(e),
            Expr::Between { .. } => self.write_between(e),
            Expr::Logical { .. } => self.write_logical(e),
            Expr::Not(_) => self.write_not(e),
            Expr::InList { .. } => self.write_in_list(e),
            Expr::IsNull { .. } => self.write_is_null(e),
            Expr::Aggregate { .. } => self.write_aggregate(e),
            Expr::Func { .. } => self.write_func(e),
            Expr::CountStar => self.push_sql("COUNT(*)"),
            Expr::Alias { .. } => self.write_alias(e),
            Expr::Case { .. } => self.write_case(e),
            Expr::Subquery(_) => self.write_subquery(e),
            Expr::InSubquery { .. } => self.write_in_subquery(e),
            Expr::Raw { .. } => self.write_raw(e),
            Expr::Exists { .. } => self.write_exists_expr(e),
            Expr::Excluded(_) => self.write_excluded(e),
            Expr::Extract { .. } => self.write_extract(e),
            Expr::Over { .. } => self.write_over(e),
        }
    }

    /// Renders expressions joined by `sep`.
    pub fn write_exprs(&mut self, items: &Vec<Expr>, sep: &str)
        ensures
            wrote(*old(self), *final(self), exprs_r(old(self).kind(), old(self).inline(), old(self).offset(), items@, sep@)),
        decreases items, 2nat, 0nat,
    {
        let ghost s0 = *self;
        let ghost k = self.kind();
        let ghost il = self.inline();
        let ghost n = self.offset();
        proof {
            lemma_wrote_refl(s0);
        }
        let mut i: usize = 0;
        while i < items.len()
            invariant
                i <= items@.len(),
                wrote(s0, *self, exprs_r(k, il, n, items@.take(i as int), sep@)),
                k == s0.kind(),
                il == s0.inline(),
                n == s0.offset(),
            decreases items@.len() - i,
        {
            proof {
                vstd::std_specs::vec::axiom_vec_index_decreases(*items, i as int);
            }
            let ghost prev = exprs_r(k, il, n, items@.take(i as int), sep@);
            assert(items@.take(i + 1).drop_last() == items@.take(i as int));
            assert(items@.take(i + 1).last() == items@[i as int]);
            if i != 0 {
                let ghost s1 = *self;
                self.push_sql(sep);
                let ghost s2 = *self;
                self.write_expr(&items[i]);
                proof {
                    lemma_chain3(s0, s1, s2, *self, prev, text_r(sep@), expr_r(k, il, n + prev.1.len(), items@[i as int]));
                    lemma_wrote_same(s0, *self, join_r(join_r(prev, text_r(sep@)), expr_r(k, il, n + prev.1.len(), items@[i as int])), exprs_r(k, il, n, items@.take(i + 1), sep@));
                }
            } else {
                let ghost s1 = *self;
                self.write_expr(&items[i]);
                proof {
                    lemma_wrote_trans(s0, s1, *self, prev, expr_r(k, il, n, items@[i as int]));
                    lemma_wrote_same(s0, *self, join_r(prev, expr_r(k, il, n, items@[i as int])), exprs_r(k, il, n, items@.take(i + 1), sep@));
                }
            }
            i = i + 1;
        }
        assert(items@.take(i as int) == items@);
    }

    /// Renders a binary operation.
    fn write_binary(&mut self, e: &Expr)
        requires
            e is Binary,
        ensures
            wrote(*old(self), *final(self), expr_r(old(self).kind(), old(self).inline(), old(self).offset(), *e)),
        decreases e, 1nat, 0nat,
    {
        let ghost s0 = *self;
        let ghost k = self.kind();
        let ghost il = self.inline();
        let ghost n = self.offset();
        match e {
            Expr::Binary { left, op, right } => {
                let ghost l = expr_r(k, il, n, **left);
                let ghost m = n + l.1.len();
                let ghost r = expr_r(k, il, m, **right);
                match op {
                    BinaryOp::ILike => {
                        self.push_sql("lower(");
                        let ghost s1 = *self;
                        self.write_expr(left);
                        let ghost s2 = *self;
                        self.push_sql(") LIKE lower(");
                        let ghost s3 = *self;
                        self.write_expr(right);
                        let ghost s4 = *self;
                        self.push_sql(")");
                        proof {
                            lemma_chain5(s0, s1, s2, s3, s4, *self, text_r("lower("@), l, text_r(") LIKE lower("@), r, text_r(")"@));
                            lemma_wrote_same(s0, *self, join_r(join_r(join_r(join_r(text_r("lower("@), l), text_r(") LIKE lower("@)), r), text_r(")"@)), expr_r(k, il, n, *e));
                        }
                    },
                    BinaryOp::JsonGet | BinaryOp::JsonGetText => {
                        self.write_expr(left);
                        let ghost s1 = *self;
                        let as_text = match op {
                            BinaryOp::JsonGetText => true,
                            _ => false,
                        };
                        let arrow = if as_text {
                            " ->> "
                        } else {
                            " -> "
                        };
                        self.push_sql(arrow);
                        let ghost s2 = *self;
                        match &**right {
                            Expr::Value(Value::Text(key)) => {
                                if self.dialect.kind() == DialectKind::Mysql {
                                    let mut path = String::new();
                                    push_str(&mut path, "$.");
                                    push_str(&mut path, key.as_str());
                                    self.push_literal(path.as_str());
                                } else {
                                    self.push_literal(key.as_str());
                                }
                                proof {
                                    lemma_chain3(s0, s1, s2, *self, l, text_r(arrow@), text_r(json_key_text(k, key@)));
                                    lemma_wrote_same(s0, *self, join_r(join_r(l, text_r(arrow@)), text_r(json_key_text(k, key@))), expr_r(k, il, n, *e));
                                }
                            },
                            _ => {
                                self.write_expr(right);
                                proof {
                                    lemma_chain3(s0, s1, s2, *self, l, text_r(arrow@), r);
                                    lemma_wrote_same(s0, *self, join_r(join_r(l, text_r(arrow@)), r), expr_r(k, il, n, *e));
                                }
                            },
                        }
                    },
                    BinaryOp::Contains => {
                        if self.dialect.kind() == DialectKind::Mysql {
                            self.push_sql("JSON_CONTAINS(");
                            let ghost s1 = *self;
                            self.write_expr(left);
                            let ghost s2 = *self;
                            self.push_sql(", ");
                            let ghost s3 = *self;
                            self.write_expr(right);
                            let ghost s4 = *self;
                            self.push_sql(")");
                            proof {
                                lemma_chain5(s0, s1, s2, s3, s4, *self, text_r("JSON_CONTAINS("@), l, text_r(", "@), r, text_r(")"@));
                                lemma_wrote_same(s0, *self, join_r(join_r(join_r(join_r(text_r("JSON_CONTAINS("@), l), text_r(", "@)), r), text_r(")"@)), expr_r(k, il, n, *e));
                            }
                        } else {
                            self.write_expr(left);
                            let ghost s1 = *self;
                            self.push_sql(" @> ");
                            let ghost s2 = *self;
                            self.write_expr(right);
                            proof {
                                lemma_chain3(s0, s1, s2, *self, l, text_r(" @> "@), r);
                                lemma_wrote_same(s0, *self, join_r(join_r(l, text_r(" @> "@)), r), expr_r(k, il, n, *e));
                            }
                        }
                    },
                    _ => {
                        self.write_expr(left);
                        let ghost s1 = *self;
                        self.push_sql(" ");
                        let ghost s2 = *self;
                        self.push_sql(op.as_sql());
                        let ghost s3 = *self;
                        self.push_sql(" ");
                        let ghost s4 = *self;
                        self.write_expr(right);
                        proof {
                            lemma_chain5(s0, s1, s2, s3, s4, *self, l, text_r(" "@), text_r(op_text(*op)), text_r(" "@), r);
                            lemma_wrote_same(s0, *self, join_r(join_r(join_r(join_r(l, text_r(" "@)), text_r(op_text(*op))), text_r(" "@)), r), expr_r(k, il, n, *e));
                        }
                    },
                }
            },
            _ => {},
        }
    }
}

impl<'a, D: Dialect> QueryWriter<'a, D> {
    /// Renders a range check.
    fn write_between(&mut self, e: &Expr)
        requires
            e is Between,
        ensures
            wrote(*old(self), *final(self), expr_r(old(self).kind(), old(self).inline(), old(self).offset(), *e)),
        decreases e, 1nat, 0nat,
    {
        let ghost s0 = *self;
        let ghost k = self.kind();
        let ghost il = self.inline();
        let ghost n = self.offset();
        match e {
            Expr::Between { expr, low, high } => {
                let ghost a = expr_r(k, il, n, **expr);
                let ghost b = expr_r(k, il, n + a.1.len(), **low);
                let ghost c = expr_r(k, il, n + a.1.len() + b.1.len(), **high);
                self.write_expr(expr);
                let ghost s1 = *self;
                self.push_sql(" BETWEEN ");
                let ghost s2 = *self;
                self.write_expr(low);
                let ghost s3 = *self;
                self.push_sql(" AND ");
                let ghost s4 = *self;
                self.write_expr(high);
                proof {
                    lemma_chain5(s0, s1, s2, s3, s4, *self, a, text_r(" BETWEEN "@), b, text_r(" AND "@), c);
                    lemma_wrote_same(s0, *self, join_r(join_r(join_r(join_r(a, text_r(" BETWEEN "@)), b), text_r(" AND "@)), c), expr_r(k, il, n, *e));
                }
            },
            _ => {},
        }
    }

    /// Renders an `AND`/`OR` group, parenthesized when it joins more than one
    /// item; an empty group is the connective's identity.
    fn write_logical(&mut self, e: &Expr)
        requires
            e is Logical,
        ensures
            wrote(*old(self), *final(self), expr_r(old(self).kind(), old(self).inline(), old(self).offset(), *e)),
        decreases e, 1nat, 0nat,
    {
        let ghost s0 = *self;
        let ghost k = self.kind();
        let ghost il = self.inline();
        let ghost n = self.offset();
        match e {
            Expr::Logical { op, items } => {
                if items.len() == 0 {
                    match op {
                        LogicalOp::And => self.push_sql("1 = 1"),
                        LogicalOp::Or => self.push_sql("0 = 1"),
                    }
                } else if items.len() == 1 {
                    proof {
                        vstd::std_specs::vec::axiom_vec_index_decreases(*items, 0);
                    }
                    self.write_expr(&items[0]);
                } else {
                    let mut sep = String::new();
                    push_str(&mut sep, " ");
                    push_str(&mut sep, op.as_sql());
                    push_str(&mut sep, " ");
                    let ghost r = exprs_r(k, il, n, items@, sep@);
                    self.push_sql("(");
                    let ghost s1 = *self;
                    self.write_exprs(items, sep.as_str());
                    let ghost s2 = *self;
                    self.push_sql(")");
                    proof {
                        lemma_chain3(s0, s1, s2, *self, text_r("("@), r, text_r(")"@));
                        assert(sep@ == " "@ + logical_text(*op) + " "@);
                        lemma_wrote_same(s0, *self, join_r(join_r(text_r("("@), r), text_r(")"@)), expr_r(k, il, n, *e));
                    }
                }
            },
            _ => {},
        }
    }

    /// Renders a negation.
    fn write_not(&mut self, e: &Expr)
        requires
            e is Not,
        ensures
            wrote(*old(self), *final(self), expr_r(old(self).kind(), old(self).inline(), old(self).offset(), *e)),
        decreases e, 1nat, 0nat,
    {
        let ghost s0 = *self;
        let ghost k = self.kind();
        let ghost il = self.inline();
        let ghost n = self.offset();
        match e {
            Expr::Not(inner) => {
                let ghost r = expr_r(k, il, n, **inner);
                self.push_sql("NOT (");
                let ghost s1 = *self;
                self.write_expr(inner);
                let ghost s2 = *self;
                self.push_sql(")");
                proof {
                    lemma_chain3(s0, s1, s2, *self, text_r("NOT ("@), r, text_r(")"@));
                    lemma_wrote_same(s0, *self, join_r(join_r(text_r("NOT ("@), r), text_r(")"@)), expr_r(k, il, n, *e));
                }
            },
            _ => {},
        }
    }

    /// Renders bound values joined by `", "`.
    pub fn write_binds(&mut self, values: &Vec<Value>)
        ensures
            wrote(*old(self), *final(self), binds_r(old(self).kind(), old(self).inline(), old(self).offset(), values@)),
    {
        let ghost s0 = *self;
        let ghost k = self.kind();
        let ghost il = self.inline();
        let ghost n = self.offset();
        proof {
            lemma_wrote_refl(s0);
        }
        let mut i: usize = 0;
        while i < values.len()
            invariant
                i <= values@.len(),
                wrote(s0, *self, binds_r(k, il, n, values@.take(i as int))),
                k == s0.kind(),
                il == s0.inline(),
                n == s0.offset(),
            decreases values@.len() - i,
        {
            let ghost prev = binds_r(k, il, n, values@.take(i as int));
            assert(values@.take(i + 1).drop_last() == values@.take(i as int));
            assert(values@.take(i + 1).last() == values@[i as int]);
            if i != 0 {
                let ghost s1 = *self;
                self.push_sql(", ");
                let ghost s2 = *self;
                self.push_bind_ref(&values[i]);
                proof {
                    lemma_chain3(s0, s1, s2, *self, prev, text_r(", "@), bind_r(k, il, n + prev.1.len(), values@[i as int]));
                    lemma_wrote_same(s0, *self, join_r(join_r(prev, text_r(", "@)), bind_r(k, il, n + prev.1.len(), values@[i as int])), binds_r(k, il, n, values@.take(i + 1)));
                }
            } else {
                let ghost s1 = *self;
                self.push_bind_ref(&values[i]);
                proof {
                    lemma_wrote_trans(s0, s1, *self, prev, bind_r(k, il, n, values@[i as int]));
                    lemma_wrote_same(s0, *self, join_r(prev, bind_r(k, il, n, values@[i as int])), binds_r(k, il, n, values@.take(i + 1)));
                }
            }
            i = i + 1;
        }
        assert(values@.take(i as int) == values@);
    }

    /// Renders a membership test, collapsing an empty list to a false constant.
    fn write_in_list(&mut self, e: &Expr)
        requires
            e is InList,
        ensures
            wrote(*old(self), *final(self), expr_r(old(self).kind(), old(self).inline(), old(self).offset(), *e)),
        decreases e, 1nat, 0nat,
    {
        let ghost s0 = *self;
        let ghost k = self.kind();
        let ghost il = self.inline();
        let ghost n = self.offset();
        match e {
            Expr::InList { expr, values } => {
                if values.len() == 0 {
                    self.push_sql("0 = 1");
                } else {
                    let ghost a = expr_r(k, il, n, **expr);
                    let ghost b = binds_r(k, il, n + a.1.len(), values@);
                    self.write_expr(expr);
                    let ghost s1 = *self;
                    self.push_sql(" IN (");
                    let ghost s2 = *self;
                    self.write_binds(values);
                    let ghost s3 = *self;
                    self.push_sql(")");
                    proof {
                        lemma_chain4(s0, s1, s2, s3, *self, a, text_r(" IN ("@), b, text_r(")"@));
                        lemma_wrote_same(s0, *self, join_r(join_r(join_r(a, text_r(" IN ("@)), b), text_r(")"@)), expr_r(k, il, n, *e));
                    }
                }
            },
            _ => {},
        }
    }

    /// Renders a null test.
    fn write_is_null(&mut self, e: &Expr)
        requires
            e is IsNull,
        ensures
            wrote(*old(self), *final(self), expr_r(old(self).kind(), old(self).inline(), old(self).offset(), *e)),
        decreases e, 1nat, 0nat,
    {
        let ghost s0 = *self;
        let ghost k = self.kind();
        let ghost il = self.inline();
        let ghost n = self.offset();
        match e {
            Expr::IsNull { expr, negated } => {
                let ghost a = expr_r(k, il, n, **expr);
                self.write_expr(expr);
                let ghost s1 = *self;
                let suffix = if *negated {
                    " IS NOT NULL"
                } else {
                    " IS NULL"
                };
                self.push_sql(suffix);
                proof {
                    lemma_wrote_trans(s0, s1, *self, a, text_r(suffix@));
                    lemma_wrote_same(s0, *self, join_r(a, text_r(suffix@)), expr_r(k, il, n, *e));
                }
            },
            _ => {},
        }
    }

    /// Renders the emulated filter terms of an aggregate, one
    /// `CASE WHEN cond THEN arg END` per argument.
    fn write_agg_cases(&mut self, e: &Expr)
        requires
            e is Aggregate,
            e->filter is Some,
        ensures
            wrote(*old(self), *final(self), agg_cases_r(old(self).kind(), old(self).inline(), old(self).offset(), *e, e->Aggregate_args@.len())),
        decreases e, 0nat, 0nat,
    {
        let ghost s0 = *self;
        let ghost k = self.kind();
        let ghost il = self.inline();
        let ghost n = self.offset();
        proof {
            lemma_wrote_refl(s0);
        }
        match e {
            Expr::Aggregate { func, args, filter: Some(cond) } => {
                let mut i: usize = 0;
                while i < args.len()
                    invariant
                        i <= args@.len(),
                        *e == (Expr::Aggregate { func: *func, args: *args, filter: Some(*cond) }),
                        wrote(s0, *self, agg_cases_r(k, il, n, *e, i as nat)),
                        k == s0.kind(),
                        il == s0.inline(),
                        n == s0.offset(),
                    decreases args@.len() - i,
                {
                    proof {
                        vstd::std_specs::vec::axiom_vec_index_decreases(*args, i as int);
                    }
                    let ghost prev = agg_cases_r(k, il, n, *e, i as nat);
                    let ghost s1 = *self;
                    if i != 0 {
                        self.push_sql(", ");
                    }
                    let ghost sep: Seq<char> = if i != 0 {
                        ", "@
                    } else {
                        seq![]
                    };
                    let ghost s2 = *self;
                    let ghost c = expr_r(k, il, n + prev.1.len(), **cond);
                    let ghost v = expr_r(k, il, n + prev.1.len() + c.1.len(), args@[i as int]);
                    self.push_sql("CASE WHEN ");
                    let ghost s3 = *self;
                    self.write_expr(cond);
                    let ghost s4 = *self;
                    self.push_sql(" THEN ");
                    let ghost s5 = *self;
                    self.write_expr(&args[i]);
                    let ghost s6 = *self;
                    self.push_sql(" END");
                    proof {
                        if i != 0 {
                            lemma_wrote_trans(s0, s1, s2, prev, text_r(", "@));
                        } else {
                            assert(s2 == s1);
                            lemma_wrote_same(s0, s2, prev, join_r(prev, text_r(sep)));
                        }
                        lemma_chain5(s2, s3, s4, s5, s6, *self, text_r("CASE WHEN "@), c, text_r(" THEN "@), v, text_r(" END"@));
                        lemma_wrote_trans(s0, s2, *self, join_r(prev, text_r(sep)), join_r(join_r(join_r(join_r(text_r("CASE WHEN "@), c), text_r(" THEN "@)), v), text_r(" END"@)));
                        lemma_wrote_same(s0, *self, join_r(join_r(prev, text_r(sep)), join_r(join_r(join_r(join_r(text_r("CASE WHEN "@), c), text_r(" THEN "@)), v), text_r(" END"@))), agg_cases_r(k, il, n, *e, (i + 1) as nat));
                    }
                    i = i + 1;
                }
            },
            _ => {},
        }
    }

    /// Renders an aggregate call, emulating `FILTER (WHERE ...)` with `CASE` on
    /// backends without it.
    fn write_aggregate(&mut self, e: &Expr)
        requires
            e is Aggregate,
        ensures
            wrote(*old(self), *final(self), expr_r(old(self).kind(), old(self).inline(), old(self).offset(), *e)),
        decreases e, 1nat, 0nat,
    {
        let ghost s0 = *self;
        let ghost k = self.kind();
        let ghost il = self.inline();
        let ghost n = self.offset();
        match e {
            Expr::Aggregate { func, args, filter } => {
                self.push_sql(func.as_sql());
                let ghost s1 = *self;
                self.push_sql("(");
                let ghost s2 = *self;
                let ghost body = match filter {
                    Some(cond) => {
                        if k == DialectKind::Mysql {
                            if args@.len() == 0 {
                                let c = expr_r(k, il, n, **cond);
                                ("CASE WHEN "@ + c.0 + " THEN 1 END"@, c.1)
                            } else {
                                agg_cases_r(k, il, n, *e, args@.len())
                            }
                        } else {
                            let a = exprs_r(k, il, n, args@, ", "@);
                            let c = expr_r(k, il, n + a.1.len(), **cond);
                            (a.0 + ") FILTER (WHERE "@ + c.0, a.1 + c.1)
                        }
                    },
                    None => exprs_r(k, il, n, args@, ", "@),
                };
                match filter {
                    Some(cond) => {
                        if !self.dialect.supports_filter_clause() {
                            if args.len() == 0 {
                                let ghost c = expr_r(k, il, n, **cond);
                                self.push_sql("CASE WHEN ");
                                let ghost t1 = *self;
                                self.write_expr(cond);
                                let ghost t2 = *self;
                                self.push_sql(" THEN 1 END");
                                proof {
                                    lemma_chain3(s2, t1, t2, *self, text_r("CASE WHEN "@), c, text_r(" THEN 1 END"@));
                                    lemma_wrote_same(s2, *self, join_r(join_r(text_r("CASE WHEN "@), c), text_r(" THEN 1 END"@)), body);
                                }
                            } else {
                                self.write_agg_cases(e);
                            }
                        } else {
                            let ghost a = exprs_r(k, il, n, args@, ", "@);
                            let ghost c = expr_r(k, il, n + a.1.len(), **cond);
                            self.write_exprs(args, ", ");
                            let ghost t1 = *self;
                            self.push_sql(") FILTER (WHERE ");
                            let ghost t2 = *self;
                            self.write_expr(cond);
                            proof {
                                lemma_chain3(s2, t1, t2, *self, a, text_r(") FILTER (WHERE "@), c);
                                lemma_wrote_same(s2, *self, join_r(join_r(a, text_r(") FILTER (WHERE "@)), c), body);
                            }
                        }
                    },
                    None => {
                        self.write_exprs(args, ", ");
                    },
                }
                let ghost s3 = *self;
                self.push_sql(")");
                proof {
                    lemma_chain4(s0, s1, s2, s3, *self, text_r(agg_name(*func)), text_r("("@), body, text_r(")"@));
                    lemma_wrote_same(s0, *self, join_r(join_r(join_r(text_r(agg_name(*func)), text_r("("@)), body), text_r(")"@)), expr_r(k, il, n, *e));
                }
            },
            _ => {},
        }
    }

    /// Renders a scalar function call.
    fn write_func(&mut self, e: &Expr)
        requires
            e is Func,
        ensures
            wrote(*old(self), *final(self), expr_r(old(self).kind(), old(self).inline(), old(self).offset(), *e)),
        decreases e, 1nat, 0nat,
    {
        let ghost s0 = *self;
        let ghost k = self.kind();
        let ghost il = self.inline();
        let ghost n = self.offset();
        match e {
            Expr::Func { name, args } => {
                let ghost a = exprs_r(k, il, n, args@, ", "@);
                self.push_function_name(name.as_str());
                let ghost s1 = *self;
                self.push_sql("(");
                let ghost s2 = *self;
                self.write_exprs(args, ", ");
                let ghost s3 = *self;
                self.push_sql(")");
                proof {
                    lemma_chain4(s0, s1, s2, s3, *self, text_r(function_name_text(name@)), text_r("("@), a, text_r(")"@));
                    lemma_wrote_same(s0, *self, join_r(join_r(join_r(text_r(function_name_text(name@)), text_r("("@)), a), text_r(")"@)), expr_r(k, il, n, *e));
                }
            },
            _ => {},
        }
    }

    /// Renders an aliased expression.
    fn write_alias(&mut self, e: &Expr)
        requires
            e is Alias,
        ensures
            wrote(*old(self), *final(self), expr_r(old(self).kind(), old(self).inline(), old(self).offset(), *e)),
        decreases e, 1nat, 0nat,
    {
        let ghost s0 = *self;
        let ghost k = self.kind();
        let ghost il = self.inline();
        let ghost n = self.offset();
        match e {
            Expr::Alias { expr, alias } => {
                let ghost a = expr_r(k, il, n, **expr);
                self.write_expr(expr);
                let ghost s1 = *self;
                self.push_sql(" AS ");
                let ghost s2 = *self;
                self.push_identifier(alias);
                proof {
                    lemma_chain3(s0, s1, s2, *self, a, text_r(" AS "@), text_r(quoted_identifier(k, alias@)));
                    lemma_wrote_same(s0, *self, join_r(join_r(a, text_r(" AS "@)), text_r(quoted_identifier(k, alias@))), expr_r(k, il, n, *e));
                }
            },
            _ => {},
        }
    }

    /// Renders `CASE` branches.
    fn write_whens(&mut self, whens: &Vec<(Expr, Expr)>)
        ensures
            wrote(*old(self), *final(self), whens_r(old(self).kind(), old(self).inline(), old(self).offset(), whens@)),
        decreases whens, 2nat, 0nat,
    {
        let ghost s0 = *self;
        let ghost k = self.kind();
        let ghost il = self.inline();
        let ghost n = self.offset();
        proof {
            lemma_wrote_refl(s0);
        }
        let mut i: usize = 0;
        while i < whens.len()
            invariant
                i <= whens@.len(),
                wrote(s0, *self, whens_r(k, il, n, whens@.take(i as int))),
                k == s0.kind(),
                il == s0.inline(),
                n == s0.offset(),
            decreases whens@.len() - i,
        {
            proof {
                vstd::std_specs::vec::axiom_vec_index_decreases(*whens, i as int);
            }
            let ghost prev = whens_r(k, il, n, whens@.take(i as int));
            assert(whens@.take(i + 1).drop_last() == whens@.take(i as int));
            assert(whens@.take(i + 1).last() == whens@[i as int]);
            let pair = &whens[i];
            let ghost c = expr_r(k, il, n + prev.1.len(), pair.0);
            let ghost r = expr_r(k, il, n + prev.1.len() + c.1.len(), pair.1);
            let ghost s1 = *self;
            self.push_sql(" WHEN ");
            let ghost s2 = *self;
            self.write_expr(&pair.0);
            let ghost s3 = *self;
            self.push_sql(" THEN ");
            let ghost s4 = *self;
            self.write_expr(&pair.1);
            proof {
                lemma_chain5(s0, s1, s2, s3, s4, *self, prev, text_r(" WHEN "@), c, text_r(" THEN "@), r);
                lemma_wrote_same(s0, *self, join_r(join_r(join_r(join_r(prev, text_r(" WHEN "@)), c), text_r(" THEN "@)), r), whens_r(k, il, n, whens@.take(i + 1)));
            }
            i = i + 1;
        }
        assert(whens@.take(i as int) == whens@);
    }

    /// Renders a `CASE` expression.
    fn write_case(&mut self, e: &Expr)
        requires
            e is Case,
        ensures
            wrote(*old(self), *final(self), expr_r(old(self).kind(), old(self).inline(), old(self).offset(), *e)),
        decreases e, 1nat, 0nat,
    {
        let ghost s0 = *self;
        let ghost k = self.kind();
        let ghost il = self.inline();
        let ghost n = self.offset();
        match e {
            Expr::Case { whens, else_expr } => {
                let ghost w = whens_r(k, il, n, whens@);
                self.push_sql("CASE");
                let ghost s1 = *self;
                self.write_whens(whens);
                let ghost s2 = *self;
                let ghost d = match else_expr {
                    Some(d) => {
                        let r = expr_r(k, il, n + w.1.len(), **d);
                        (" ELSE "@ + r.0, r.1)
                    },
                    None => empty_r(),
                };
                match else_expr {
                    Some(default) => {
                        let ghost r = expr_r(k, il, n + w.1.len(), **default);
                        self.push_sql(" ELSE ");
                        let ghost t1 = *self;
                        self.write_expr(default);
                        proof {
                            lemma_wrote_trans(s2, t1, *self, text_r(" ELSE "@), r);
                            lemma_wrote_same(s2, *self, join_r(text_r(" ELSE "@), r), d);
                        }
                    },
                    None => {
                        proof {
                            lemma_wrote_refl(s2);
                        }
                    },
                }
                let ghost s3 = *self;
                self.push_sql(" END");
                proof {
                    lemma_chain4(s0, s1, s2, s3, *self, text_r("CASE"@), w, d, text_r(" END"@));
                    lemma_wrote_same(s0, *self, join_r(join_r(join_r(text_r("CASE"@), w), d), text_r(" END"@)), expr_r(k, il, n, *e));
                }
            },
            _ => {},
        }
    }

    /// Records the values of a raw fragment, which carries its own markers.
    fn bind_raw(&mut self, values: &Vec<Value>)
        ensures
            wrote(*old(self), *final(self), (seq![], values@)),
    {
        let ghost s0 = *self;
        proof {
            lemma_wrote_refl(s0);
        }
        let mut i: usize = 0;
        while i < values.len()
            invariant
                i <= values@.len(),
                wrote(s0, *self, (seq![], values@.take(i as int))),
            decreases values@.len() - i,
        {
            let ghost before = self.params@;
            self.params.push(values[i].duplicate());
            proof {
                assert(params_extended(before, self.params@, seq![values@[i as int]])) by {
                    assert(self.params@[before.len() + 0int] == self.params@[before.len() as int]);
                }
                lemma_params_extended_trans(s0.bound(), before, self.params@, values@.take(i as int), seq![values@[i as int]]);
                assert(values@.take(i as int) + seq![values@[i as int]] == values@.take(i + 1));
                assert(self.text() == s0.text() + Seq::<char>::empty());
            }
            i = i + 1;
        }
        assert(values@.take(i as int) == values@);
    }

    /// Renders a raw fragment verbatim and records its values.
    fn write_raw(&mut self, e: &Expr)
        requires
            e is Raw,
        ensures
            wrote(*old(self), *final(self), expr_r(old(self).kind(), old(self).inline(), old(self).offset(), *e)),
    {
        let ghost s0 = *self;
        match e {
            Expr::Raw { sql, params } => {
                self.push_sql(sql.as_str());
                let ghost s1 = *self;
                self.bind_raw(params);
                proof {
                    lemma_wrote_trans(s0, s1, *self, text_r(sql@), (seq![], params@));
                    lemma_wrote_same(s0, *self, join_r(text_r(sql@), (seq![], params@)), (sql@, params@));
                }
            },
            _ => {},
        }
    }

    /// Renders a reference to the would-be-inserted row of an upsert.
    fn write_excluded(&mut self, e: &Expr)
        requires
            e is Excluded,
        ensures
            wrote(*old(self), *final(self), expr_r(old(self).kind(), old(self).inline(), old(self).offset(), *e)),
    {
        let ghost s0 = *self;
        let ghost k = self.kind();
        match e {
            Expr::Excluded(column) => {
                if self.dialect.kind() == DialectKind::Mysql {
                    self.push_sql("VALUES(");
                    let ghost s1 = *self;
                    self.push_identifier(column);
                    let ghost s2 = *self;
                    self.push_sql(")");
                    proof {
                        lemma_chain3(s0, s1, s2, *self, text_r("VALUES("@), text_r(quoted_identifier(k, column@)), text_r(")"@));
                        lemma_wrote_same(s0, *self, join_r(join_r(text_r("VALUES("@), text_r(quoted_identifier(k, column@))), text_r(")"@)), expr_r(k, s0.inline(), s0.offset(), *e));
                    }
                } else {
                    self.push_sql("EXCLUDED.");
                    let ghost s1 = *self;
                    self.push_identifier(column);
                    proof {
                        lemma_wrote_trans(s0, s1, *self, text_r("EXCLUDED."@), text_r(quoted_identifier(k, column@)));
                        lemma_wrote_same(s0, *self, join_r(text_r("EXCLUDED."@), text_r(quoted_identifier(k, column@))), expr_r(k, s0.inline(), s0.offset(), *e));
                    }
                }
            },
            _ => {},
        }
    }

    /// Renders `EXTRACT(field FROM source)`.
    fn write_extract(&mut self, e: &Expr)
        requires
            e is Extract,
        ensures
            wrote(*old(self), *final(self), expr_r(old(self).kind(), old(self).inline(), old(self).offset(), *e)),
        decreases e, 1nat, 0nat,
    {
        let ghost s0 = *self;
        let ghost k = self.kind();
        let ghost il = self.inline();
        let ghost n = self.offset();
        match e {
            Expr::Extract { field, source } => {
                let ghost s = expr_r(k, il, n, **source);
                self.push_sql("EXTRACT(");
                let ghost s1 = *self;
                self.push_sql(field);
                let ghost s2 = *self;
                self.push_sql(" FROM ");
                let ghost s3 = *self;
                self.write_expr(source);
                let ghost s4 = *self;
                self.push_sql(")");
                proof {
                    lemma_chain5(s0, s1, s2, s3, s4, *self, text_r("EXTRACT("@), text_r(field@), text_r(" FROM "@), s, text_r(")"@));
                    lemma_wrote_same(s0, *self, join_r(join_r(join_r(join_r(text_r("EXTRACT("@), text_r(field@)), text_r(" FROM "@)), s), text_r(")"@)), expr_r(k, il, n, *e));
                }
            },
            _ => {},
        }
    }
}

/// Text-only writes: the text grew by `s` and nothing was bound.
pub proof fn lemma_wrote_text<'a, D: Dialect>(
    a: QueryWriter<'a, D>,
    b: QueryWriter<'a, D>,
    s: Seq<char>,
)
    requires
        b.kind() == a.kind(),
        b.inline() == a.inline(),
        b.text() == a.text() + s,
        b.bound() == a.bound(),
    ensures
        wrote(a, b, text_r(s)),
{
    lemma_params_extended_refl(a.bound());
}

impl<'a, D: Dialect> QueryWriter<'a, D> {
    /// Appends `s` when `cond` holds.
    pub fn push_opt(&mut self, cond: bool, s: &str)
        ensures
            wrote(*old(self), *final(self), text_r(
                if cond {
                    s@
                } else {
                    seq![]
                },
            )),
            final(self).bound() == old(self).bound(),
    {
        if cond {
            self.push_sql(s);
        } else {
            proof {
                lemma_wrote_text(*self, *self, seq![]);
            }
        }
    }

    /// Appends the direction and null placement of an order term.
    pub fn push_order_suffix(&mut self, descending: bool, nulls: Option<bool>)
        ensures
            wrote(*old(self), *final(self), text_r(order_suffix(descending, nulls))),
            final(self).bound() == old(self).bound(),
            descending ==> final(self).text().subrange(old(self).text().len() as int, old(self).text().len() + 5 as int)
                == " DESC"@,
            !descending ==> final(self).text().subrange(old(self).text().len() as int, old(self).text().len() + 4 as int)
                == " ASC"@,
    {
        let ghost s0 = *self;
        self.push_sql(
            if descending {
                " DESC"
            } else {
                " ASC"
            },
        );
        match nulls {
            Some(first) => self.push_sql(
                if first {
                    " NULLS FIRST"
                } else {
                    " NULLS LAST"
                },
            ),
            None => {},
        }
        assert(self.text() =~= s0.text() + order_suffix(descending, nulls));
        proof {
            lemma_wrote_text(s0, *self, order_suffix(descending, nulls));
            lemma_order_direction(descending, nulls);
            let t = order_suffix(descending, nulls);
            if descending {
                assert(self.text().subrange(s0.text().len() as int, s0.text().len() + 5 as int) =~= t.subrange(0, 5));
            } else {
                assert(self.text().subrange(s0.text().len() as int, s0.text().len() + 4 as int) =~= t.subrange(0, 4));
            }
        }
    }

    /// Appends quoted identifiers joined by `", "`.
    pub fn push_identifiers(&mut self, names: &Vec<&'static str>)
        ensures
            wrote(*old(self), *final(self), text_r(idents_text(old(self).kind(), names@))),
            final(self).bound() == old(self).bound(),
    {
        let ghost s0 = *self;
        let ghost k = self.kind();
        let mut i: usize = 0;
        while i < names.len()
            invariant
                i <= names@.len(),
                k == s0.kind(),
                self.kind() == s0.kind(),
                self.inline() == s0.inline(),
                self.bound() == s0.bound(),
                self.text() == s0.text() + idents_text(k, names@.take(i as int)),
            decreases names@.len() - i,
        {
            assert(names@.take(i + 1).drop_last() == names@.take(i as int));
            self.push_opt(i != 0, ", ");
            self.push_identifier(names[i]);
            i = i + 1;
        }
        assert(names@.take(i as int) == names@);
        proof {
            lemma_wrote_text(s0, *self, idents_text(k, names@));
        }
    }

    /// Appends one join.
    pub fn push_join(&mut self, join: Join)
        ensures
            wrote(*old(self), *final(self), text_r(join_text(old(self).kind(), join))),
            final(self).bound() == old(self).bound(),
    {
        let ghost s0 = *self;
        let ghost k = self.kind();
        self.push_sql(" ");
        self.push_sql(join.kind.as_sql());
        self.push_sql(" ");
        self.push_identifier(join.table);
        let ghost t1 = self.text();
        assert(t1 =~= s0.text() + " "@ + join_keyword(join.kind) + " "@ + quoted_identifier(k, join.table@));
        match join.alias {
            Some(alias) => {
                self.push_sql(" AS ");
                self.push_identifier(alias);
            },
            None => {},
        }
        let ghost t2 = self.text();
        let ghost alias_text: Seq<char> = match join.alias {
            Some(a) => " AS "@ + quoted_identifier(k, a@),
            None => seq![],
        };
        assert(t2 =~= t1 + alias_text);
        if join.kind != JoinKind::Cross {
            self.push_sql(" ON ");
            self.push_qualified(join.left_table, join.left_column);
            self.push_sql(" = ");
            self.push_qualified(join.right_table, join.right_column);
        }
        let ghost on_text: Seq<char> = if join.kind != JoinKind::Cross {
            " ON "@ + qualified(k, join.left_table@, join.left_column@) + " = "@ + qualified(k, join.right_table@, join.right_column@)
        } else {
            seq![]
        };
        assert(self.text() =~= t2 + on_text);
        assert(self.text() =~= s0.text() + join_text(k, join));
        proof {
            lemma_wrote_text(s0, *self, join_text(k, join));
        }
    }

    /// Appends the joins.
    pub fn push_joins(&mut self, joins: &Vec<Join>)
        ensures
            wrote(*old(self), *final(self), text_r(joins_text(old(self).kind(), joins@))),
            final(self).bound() == old(self).bound(),
    {
        let ghost s0 = *self;
        let ghost k = self.kind();
        let mut i: usize = 0;
        while i < joins.len()
            invariant
                i <= joins@.len(),
                k == s0.kind(),
                self.kind() == s0.kind(),
                self.inline() == s0.inline(),
                self.bound() == s0.bound(),
                self.text() == s0.text() + joins_text(k, joins@.take(i as int)),
            decreases joins@.len() - i,
        {
            assert(joins@.take(i + 1).drop_last() == joins@.take(i as int));
            self.push_join(joins[i]);
            i = i + 1;
        }
        assert(joins@.take(i as int) == joins@);
        proof {
            lemma_wrote_text(s0, *self, joins_text(k, joins@));
        }
    }

    /// Appends a row-locking clause.
    pub fn push_lock(&mut self, lock: &Option<LockClause>)
        ensures
            wrote(*old(self), *final(self), text_r(row_lock_text(old(self).kind(), *lock))),
            final(self).bound() == old(self).bound(),
    {
        let ghost s0 = *self;
        match lock {
            Some(l) => {
                match l.strength {
                    LockStrength::Update => self.push_sql(" FOR UPDATE"),
                    LockStrength::Share => self.push_sql(" FOR SHARE"),
                }
                if l.of.len() > 0 {
                    self.push_sql(" OF ");
                    self.push_identifiers(&l.of);
                }
                match l.wait {
                    LockWait::Wait => {},
                    LockWait::NoWait => self.push_sql(" NOWAIT"),
                    LockWait::SkipLocked => self.push_sql(" SKIP LOCKED"),
                }
            },
            None => {},
        }
        assert(self.text() =~= s0.text() + row_lock_text(s0.kind(), *lock));
        proof {
            lemma_wrote_text(s0, *self, row_lock_text(s0.kind(), *lock));
        }
    }

    /// Appends ` LIMIT n` and ` OFFSET m`, each when set.
    pub fn push_limit(&mut self, limit: Option<u64>, offset: Option<u64>)
        ensures
            wrote(*old(self), *final(self), text_r(limit_text(limit, offset))),
            final(self).bound() == old(self).bound(),
    {
        let ghost s0 = *self;
        match limit {
            Some(l) => {
                self.push_sql(" LIMIT ");
                let digits = decimal_string(l);
                self.push_sql(digits.as_str());
            },
            None => {},
        }
        match offset {
            Some(o) => {
                self.push_sql(" OFFSET ");
                let digits = decimal_string(o);
                self.push_sql(digits.as_str());
            },
            None => {},
        }
        assert(self.text() =~= s0.text() + limit_text(limit, offset));
        proof {
            lemma_wrote_text(s0, *self, limit_text(limit, offset));
        }
    }

    /// Renders order terms joined by `", "`.
    pub fn write_orders(&mut self, terms: &Vec<OrderItem>)
        ensures
            wrote(*old(self), *final(self), orders_r(old(self).kind(), old(self).inline(), old(self).offset(), terms@)),
        decreases terms, 2nat, 0nat,
    {
        let ghost s0 = *self;
        let ghost k = self.kind();
        let ghost il = self.inline();
        let ghost n = self.offset();
        proof {
            lemma_wrote_refl(s0);
        }
        let mut i: usize = 0;
        while i < terms.len()
            invariant
                i <= terms@.len(),
                wrote(s0, *self, orders_r(k, il, n, terms@.take(i as int))),
                k == s0.kind(),
                il == s0.inline(),
                n == s0.offset(),
            decreases terms@.len() - i,
        {
            proof {
                vstd::std_specs::vec::axiom_vec_index_decreases(*terms, i as int);
            }
            let ghost prev = orders_r(k, il, n, terms@.take(i as int));
            assert(terms@.take(i + 1).drop_last() == terms@.take(i as int));
            assert(terms@.take(i + 1).last() == terms@[i as int]);
            let term = &terms[i];
            let ghost sep: Seq<char> = if i != 0 {
                ", "@
            } else {
                seq![]
            };
            let ghost b = expr_r(k, il, n + prev.1.len(), term.expr);
            let ghost s1 = *self;
            self.push_opt(i != 0, ", ");
            let ghost s2 = *self;
            self.write_expr(&term.expr);
            let ghost s3 = *self;
            self.push_order_suffix(term.descending, term.nulls);
            proof {
                lemma_chain4(s0, s1, s2, s3, *self, prev, text_r(sep), b, text_r(order_suffix(term.descending, term.nulls)));
                lemma_wrote_same(s0, *self, join_r(join_r(join_r(prev, text_r(sep)), b), text_r(order_suffix(term.descending, term.nulls))), orders_r(k, il, n, terms@.take(i + 1)));
            }
            i = i + 1;
        }
        assert(terms@.take(i as int) == terms@);
    }

    /// Renders a window frame bound.
    fn write_bound(&mut self, b: &WindowBound)
        ensures
            wrote(*old(self), *final(self), bound_r(old(self).kind(), old(self).inline(), old(self).offset(), *b)),
        decreases b, 2nat, 0nat,
    {
        let ghost s0 = *self;
        let ghost k = self.kind();
        let ghost il = self.inline();
        let ghost n = self.offset();
        match b {
            WindowBound::UnboundedPreceding => self.push_sql("UNBOUNDED PRECEDING"),
            WindowBound::Preceding(e) => {
                self.write_expr(e);
                let ghost s1 = *self;
                self.push_sql(" PRECEDING");
                proof {
                    lemma_wrote_trans(s0, s1, *self, expr_r(k, il, n, **e), text_r(" PRECEDING"@));
                    lemma_wrote_same(s0, *self, join_r(expr_r(k, il, n, **e), text_r(" PRECEDING"@)), bound_r(k, il, n, *b));
                }
            },
            WindowBound::CurrentRow => self.push_sql("CURRENT ROW"),
            WindowBound::Following(e) => {
                self.write_expr(e);
                let ghost s1 = *self;
                self.push_sql(" FOLLOWING");
                proof {
                    lemma_wrote_trans(s0, s1, *self, expr_r(k, il, n, **e), text_r(" FOLLOWING"@));
                    lemma_wrote_same(s0, *self, join_r(expr_r(k, il, n, **e), text_r(" FOLLOWING"@)), bound_r(k, il, n, *b));
                }
            },
            WindowBound::UnboundedFollowing => self.push_sql("UNBOUNDED FOLLOWING"),
        }
    }

    /// Renders the inside of an `OVER (...)` clause.
    fn write_window(&mut self, w: &Window)
        ensures
            wrote(*old(self), *final(self), window_r(old(self).kind(), old(self).inline(), old(self).offset(), *w)),
        decreases w, 2nat, 0nat,
    {
        let ghost s0 = *self;
        let ghost k = self.kind();
        let ghost il = self.inline();
        let ghost n = self.offset();
        let has_partition = w.partition_by.len() > 0;
        let has_order = w.order_by.len() > 0;
        let ghost p = if w.partition_by@.len() > 0 {
            let r = exprs_r(k, il, n, w.partition_by@, ", "@);
            ("PARTITION BY "@ + r.0, r.1)
        } else {
            empty_r()
        };
        if has_partition {
            self.push_sql("PARTITION BY ");
            let ghost t1 = *self;
            self.write_exprs(&w.partition_by, ", ");
            proof {
                lemma_wrote_trans(s0, t1, *self, text_r("PARTITION BY "@), exprs_r(k, il, n, w.partition_by@, ", "@));
                lemma_wrote_same(s0, *self, join_r(text_r("PARTITION BY "@), exprs_r(k, il, n, w.partition_by@, ", "@)), p);
            }
        } else {
            proof {
                lemma_wrote_refl(s0);
            }
        }
        let ghost s1 = *self;
        let ghost m1 = n + p.1.len();
        let ghost o = if w.order_by@.len() > 0 {
            let r = orders_r(k, il, m1, w.order_by@);
            (
                (if w.partition_by@.len() > 0 {
                    " "@
                } else {
                    seq![]
                }) + "ORDER BY "@ + r.0,
                r.1,
            )
        } else {
            empty_r()
        };
        if has_order {
            let ghost sp: Seq<char> = if has_partition {
                " "@
            } else {
                seq![]
            };
            self.push_opt(has_partition, " ");
            let ghost t1 = *self;
            self.push_sql("ORDER BY ");
            let ghost t2 = *self;
            self.write_orders(&w.order_by);
            proof {
                lemma_chain3(s1, t1, t2, *self, text_r(sp), text_r("ORDER BY "@), orders_r(k, il, m1, w.order_by@));
                lemma_wrote_same(s1, *self, join_r(join_r(text_r(sp), text_r("ORDER BY "@)), orders_r(k, il, m1, w.order_by@)), o);
            }
        } else {
            proof {
                lemma_wrote_refl(s1);
            }
        }
        let ghost s2 = *self;
        let ghost m2 = m1 + o.1.len();
        let ghost f = match &w.frame {
            Some(frame) => {
                let s = bound_r(k, il, m2, frame.start);
                let e = match &frame.end {
                    Some(end) => bound_r(k, il, m2 + s.1.len(), *end),
                    None => text_r("CURRENT ROW"@),
                };
                (
                    (if w.partition_by@.len() > 0 || w.order_by@.len() > 0 {
                        " "@
                    } else {
                        seq![]
                    }) + unit_name(frame.unit) + " BETWEEN "@ + s.0 + " AND "@ + e.0,
                    s.1 + e.1,
                )
            },
            None => empty_r(),
        };
        match &w.frame {
            Some(frame) => {
                let ghost sp: Seq<char> = if has_partition || has_order {
                    " "@
                } else {
                    seq![]
                };
                let ghost sb = bound_r(k, il, m2, frame.start);
                self.push_opt(has_partition || has_order, " ");
                let ghost t1 = *self;
                self.push_sql(frame.unit.as_sql());
                let ghost t2 = *self;
                self.push_sql(" BETWEEN ");
                let ghost t3 = *self;
                self.write_bound(&frame.start);
                let ghost t4 = *self;
                self.push_sql(" AND ");
                let ghost t5 = *self;
                let ghost eb = match &frame.end {
                    Some(end) => bound_r(k, il, m2 + sb.1.len(), *end),
                    None => text_r("CURRENT ROW"@),
                };
                match &frame.end {
                    Some(end) => self.write_bound(end),
                    None => self.push_sql("CURRENT ROW"),
                }
                proof {
                    lemma_chain5(s2, t1, t2, t3, t4, t5, text_r(sp), text_r(unit_name(frame.unit)), text_r(" BETWEEN "@), sb, text_r(" AND "@));
                    lemma_wrote_trans(s2, t5, *self, join_r(join_r(join_r(join_r(text_r(sp), text_r(unit_name(frame.unit))), text_r(" BETWEEN "@)), sb), text_r(" AND "@)), eb);
                    lemma_wrote_same(s2, *self, join_r(join_r(join_r(join_r(join_r(text_r(sp), text_r(unit_name(frame.unit))), text_r(" BETWEEN "@)), sb), text_r(" AND "@)), eb), f);
                }
            },
            None => {
                proof {
                    lemma_wrote_refl(s2);
                }
            },
        }
        proof {
            lemma_chain3(s0, s1, s2, *self, p, o, f);
            lemma_wrote_same(s0, *self, join_r(join_r(p, o), f), window_r(k, il, n, *w));
        }
    }

    /// Renders a window function.
    fn write_over(&mut self, e: &Expr)
        requires
            e is Over,
        ensures
            wrote(*old(self), *final(self), expr_r(old(self).kind(), old(self).inline(), old(self).offset(), *e)),
        decreases e, 1nat, 0nat,
    {
        let ghost s0 = *self;
        let ghost k = self.kind();
        let ghost il = self.inline();
        let ghost n = self.offset();
        match e {
            Expr::Over { expr, window } => {
                let ghost a = expr_r(k, il, n, **expr);
                let ghost w = window_r(k, il, n + a.1.len(), **window);
                self.write_expr(expr);
                let ghost s1 = *self;
                self.push_sql(" OVER (");
                let ghost s2 = *self;
                self.write_window(window);
                let ghost s3 = *self;
                self.push_sql(")");
                proof {
                    lemma_chain4(s0, s1, s2, s3, *self, a, text_r(" OVER ("@), w, text_r(")"@));
                    lemma_wrote_same(s0, *self, join_r(join_r(join_r(a, text_r(" OVER ("@)), w), text_r(")"@)), expr_r(k, il, n, *e));
                }
            },
            _ => {},
        }
    }

    /// Renders a scalar subquery.
    fn write_subquery(&mut self, e: &Expr)
        requires
            e is Subquery,
        ensures
            wrote(*old(self), *final(self), expr_r(old(self).kind(), old(self).inline(), old(self).offset(), *e)),
        decreases e, 1nat, 0nat,
    {
        let ghost s0 = *self;
        let ghost k = self.kind();
        let ghost il = self.inline();
        let ghost n = self.offset();
        match e {
            Expr::Subquery(stmt) => {
                let ghost s = select_r(k, il, n, **stmt);
                self.push_sql("(");
                let ghost s1 = *self;
                self.write_select(stmt);
                let ghost s2 = *self;
                self.push_sql(")");
                proof {
                    lemma_chain3(s0, s1, s2, *self, text_r("("@), s, text_r(")"@));
                    lemma_wrote_same(s0, *self, join_r(join_r(text_r("("@), s), text_r(")"@)), expr_r(k, il, n, *e));
                }
            },
            _ => {},
        }
    }

    /// Renders `expr [NOT] IN (SELECT ...)`.
    fn write_in_subquery(&mut self, e: &Expr)
        requires
            e is InSubquery,
        ensures
            wrote(*old(self), *final(self), expr_r(old(self).kind(), old(self).inline(), old(self).offset(), *e)),
        decreases e, 1nat, 0nat,
    {
        let ghost s0 = *self;
        let ghost k = self.kind();
        let ghost il = self.inline();
        let ghost n = self.offset();
        match e {
            Expr::InSubquery { expr, subquery, negated } => {
                let ghost a = expr_r(k, il, n, **expr);
                let ghost s = select_r(k, il, n + a.1.len(), **subquery);
                self.write_expr(expr);
                let ghost s1 = *self;
                let open = if *negated {
                    " NOT IN ("
                } else {
                    " IN ("
                };
                self.push_sql(open);
                let ghost s2 = *self;
                self.write_select(subquery);
                let ghost s3 = *self;
                self.push_sql(")");
                proof {
                    lemma_chain4(s0, s1, s2, s3, *self, a, text_r(open@), s, text_r(")"@));
                    lemma_wrote_same(s0, *self, join_r(join_r(join_r(a, text_r(open@)), s), text_r(")"@)), expr_r(k, il, n, *e));
                }
            },
            _ => {},
        }
    }

    /// Renders `[NOT] EXISTS (SELECT ...)`.
    fn write_exists_expr(&mut self, e: &Expr)
        requires
            e is Exists,
        ensures
            wrote(*old(self), *final(self), expr_r(old(self).kind(), old(self).inline(), old(self).offset(), *e)),
        decreases e, 1nat, 0nat,
    {
        let ghost s0 = *self;
        let ghost k = self.kind();
        let ghost il = self.inline();
        let ghost n = self.offset();
        match e {
            Expr::Exists { subquery, negated } => {
                let ghost s = select_r(k, il, n, **subquery);
                let open = if *negated {
                    "NOT EXISTS ("
                } else {
                    "EXISTS ("
                };
                self.push_sql(open);
                let ghost s1 = *self;
                self.write_select(subquery);
                let ghost s2 = *self;
                self.push_sql(")");
                proof {
                    lemma_chain3(s0, s1, s2, *self, text_r(open@), s, text_r(")"@));
                    lemma_wrote_same(s0, *self, join_r(join_r(text_r(open@), s), text_r(")"@)), expr_r(k, il, n, *e));
                }
            },
            _ => {},
        }
    }
}

impl<'a, D: Dialect> QueryWriter<'a, D> {
    /// Renders projection items joined by `", "`.
    fn write_items(&mut self, items: &Vec<SelectItem>)
        ensures
            wrote(*old(self), *final(self), items_r(old(self).kind(), old(self).inline(), old(self).offset(), items@)),
        decreases items, 2nat, 0nat,
    {
        let ghost s0 = *self;
        let ghost k = self.kind();
        let ghost il = self.inline();
        let ghost n = self.offset();
        proof {
            lemma_wrote_refl(s0);
        }
        let mut i: usize = 0;
        while i < items.len()
            invariant
                i <= items@.len(),
                wrote(s0, *self, items_r(k, il, n, items@.take(i as int))),
                k == s0.kind(),
                il == s0.inline(),
                n == s0.offset(),
            decreases items@.len() - i,
        {
            proof {
                vstd::std_specs::vec::axiom_vec_index_decreases(*items, i as int);
            }
            let ghost prev = items_r(k, il, n, items@.take(i as int));
            assert(items@.take(i + 1).drop_last() == items@.take(i as int));
            assert(items@.take(i + 1).last() == items@[i as int]);
            let ghost sep: Seq<char> = if i != 0 {
                ", "@
            } else {
                seq![]
            };
            let ghost b = match items@[i as int] {
                SelectItem::Column { table, column } => text_r(qualified(k, table@, column@)),
                SelectItem::Expression(e) => expr_r(k, il, n + prev.1.len(), e),
            };
            let ghost s1 = *self;
            self.push_opt(i != 0, ", ");
            let ghost s2 = *self;
            match &items[i] {
                SelectItem::Column { table, column } => self.push_qualified(table, column),
                SelectItem::Expression(e) => self.write_expr(e),
            }
            proof {
                lemma_chain3(s0, s1, s2, *self, prev, text_r(sep), b);
                lemma_wrote_same(s0, *self, join_r(join_r(prev, text_r(sep)), b), items_r(k, il, n, items@.take(i + 1)));
            }
            i = i + 1;
        }
        assert(items@.take(i as int) == items@);
    }

    /// Renders the `WHERE` clause for top-level filters, joined by `AND`
    /// without an outer parenthesis.
    pub fn write_where(&mut self, filters: &Vec<Expr>)
        ensures
            wrote(*old(self), *final(self), where_r(old(self).kind(), old(self).inline(), old(self).offset(), filters@)),
        decreases filters, 3nat, 0nat,
    {
        let ghost s0 = *self;
        let ghost k = self.kind();
        let ghost il = self.inline();
        let ghost n = self.offset();
        if filters.len() == 0 {
            proof {
                lemma_wrote_refl(s0);
            }
        } else {
            self.push_sql(" WHERE ");
            let ghost s1 = *self;
            self.write_exprs(filters, " AND ");
            proof {
                lemma_wrote_trans(s0, s1, *self, text_r(" WHERE "@), exprs_r(k, il, n, filters@, " AND "@));
                lemma_wrote_same(s0, *self, join_r(text_r(" WHERE "@), exprs_r(k, il, n, filters@, " AND "@)), where_r(k, il, n, filters@));
            }
        }
    }

    /// Renders the head of a `SELECT`.
    fn write_select_head(&mut self, st: &SelectStatement)
        ensures
            wrote(*old(self), *final(self), select_head_r(old(self).kind(), old(self).inline(), old(self).offset(), *st)),
        decreases st, 1nat, 0nat,
    {
        let ghost s0 = *self;
        let ghost k = self.kind();
        let ghost il = self.inline();
        let ghost n = self.offset();
        let ghost w = match &st.with {
            Some(w) => with_r(k, il, n, *w),
            None => empty_r(),
        };
        match &st.with {
            Some(with) => self.write_with(with),
            None => {
                proof {
                    lemma_wrote_refl(s0);
                }
            },
        }
        let ghost s1 = *self;
        self.push_sql("SELECT ");
        let ghost s2 = *self;
        let ghost m = n + w.1.len();
        let ghost d = if st.distinct_on@.len() > 0 {
            let r = exprs_r(k, il, m, st.distinct_on@, ", "@);
            ("DISTINCT ON ("@ + r.0 + ") "@, r.1)
        } else if st.distinct {
            text_r("DISTINCT "@)
        } else {
            empty_r()
        };
        if st.distinct_on.len() > 0 {
            let ghost r = exprs_r(k, il, m, st.distinct_on@, ", "@);
            self.push_sql("DISTINCT ON (");
            let ghost t1 = *self;
            self.write_exprs(&st.distinct_on, ", ");
            let ghost t2 = *self;
            self.push_sql(") ");
            proof {
                lemma_chain3(s2, t1, t2, *self, text_r("DISTINCT ON ("@), r, text_r(") "@));
                lemma_wrote_same(s2, *self, join_r(join_r(text_r("DISTINCT ON ("@), r), text_r(") "@)), d);
            }
        } else if st.distinct {
            self.push_sql("DISTINCT ");
        } else {
            proof {
                lemma_wrote_refl(s2);
            }
        }
        let ghost s3 = *self;
        let ghost p = items_r(k, il, m + d.1.len(), st.projection@);
        self.write_items(&st.projection);
        proof {
            lemma_chain4(s0, s1, s2, s3, *self, w, text_r("SELECT "@), d, p);
            lemma_wrote_same(s0, *self, join_r(join_r(join_r(w, text_r("SELECT "@)), d), p), select_head_r(k, il, n, *st));
        }
    }

    /// Renders the tail of a `SELECT`.
    fn write_select_tail(&mut self, st: &SelectStatement)
        ensures
            wrote(*old(self), *final(self), select_tail_r(old(self).kind(), old(self).inline(), old(self).offset(), *st)),
        decreases st, 1nat, 0nat,
    {
        let ghost s0 = *self;
        let ghost k = self.kind();
        let ghost il = self.inline();
        let ghost n = self.offset();
        let ghost from = " FROM "@ + quoted_identifier(k, st.table@) + joins_text(k, st.joins@);
        self.push_sql(" FROM ");
        self.push_identifier(st.table);
        self.push_joins(&st.joins);
        assert(self.text() =~= s0.text() + from);
        proof {
            lemma_wrote_text(s0, *self, from);
        }
        let ghost s1 = *self;
        let ghost w = where_r(k, il, n, st.filters@);
        self.write_where(&st.filters);
        let ghost s2 = *self;
        let ghost g = if st.group_by@.len() > 0 {
            let r = exprs_r(k, il, n + w.1.len(), st.group_by@, ", "@);
            (" GROUP BY "@ + r.0, r.1)
        } else {
            empty_r()
        };
        if st.group_by.len() > 0 {
            self.push_sql(" GROUP BY ");
            let ghost t1 = *self;
            self.write_exprs(&st.group_by, ", ");
            proof {
                lemma_wrote_trans(s2, t1, *self, text_r(" GROUP BY "@), exprs_r(k, il, n + w.1.len(), st.group_by@, ", "@));
                lemma_wrote_same(s2, *self, join_r(text_r(" GROUP BY "@), exprs_r(k, il, n + w.1.len(), st.group_by@, ", "@)), g);
            }
        } else {
            proof {
                lemma_wrote_refl(s2);
            }
        }
        let ghost s3 = *self;
        let ghost m = n + w.1.len() + g.1.len();
        let ghost h = match &st.having {
            Some(h) => {
                let r = expr_r(k, il, m, *h);
                (" HAVING "@ + r.0, r.1)
            },
            None => empty_r(),
        };
        match &st.having {
            Some(having) => {
                self.push_sql(" HAVING ");
                let ghost t1 = *self;
                self.write_expr(having);
                proof {
                    lemma_wrote_trans(s3, t1, *self, text_r(" HAVING "@), expr_r(k, il, m, *having));
                    lemma_wrote_same(s3, *self, join_r(text_r(" HAVING "@), expr_r(k, il, m, *having)), h);
                }
            },
            None => {
                proof {
                    lemma_wrote_refl(s3);
                }
            },
        }
        let ghost s4 = *self;
        let ghost m2 = m + h.1.len();
        let ghost o = if st.order_by@.len() > 0 {
            let r = orders_r(k, il, m2, st.order_by@);
            (" ORDER BY "@ + r.0, r.1)
        } else {
            empty_r()
        };
        if st.order_by.len() > 0 {
            self.push_sql(" ORDER BY ");
            let ghost t1 = *self;
            self.write_orders(&st.order_by);
            proof {
                lemma_wrote_trans(s4, t1, *self, text_r(" ORDER BY "@), orders_r(k, il, m2, st.order_by@));
                lemma_wrote_same(s4, *self, join_r(text_r(" ORDER BY "@), orders_r(k, il, m2, st.order_by@)), o);
            }
        } else {
            proof {
                lemma_wrote_refl(s4);
            }
        }
        let ghost s5 = *self;
        self.push_limit(st.limit, st.offset);
        let ghost s6 = *self;
        self.push_lock(&st.lock);
        proof {
            lemma_chain5(s0, s1, s2, s3, s4, s5, text_r(from), w, g, h, o);
            lemma_chain3(s0, s5, s6, *self, join_r(join_r(join_r(join_r(text_r(from), w), g), h), o), text_r(limit_text(st.limit, st.offset)), text_r(row_lock_text(k, st.lock)));
            lemma_wrote_same(s0, *self, join_r(join_r(join_r(join_r(join_r(join_r(text_r(from), w), g), h), o), text_r(limit_text(st.limit, st.offset))), text_r(row_lock_text(k, st.lock))), select_tail_r(k, il, n, *st));
        }
    }

    /// Renders a `SELECT` statement.
    pub fn write_select(&mut self, st: &SelectStatement)
        ensures
            wrote(*old(self), *final(self), select_r(old(self).kind(), old(self).inline(), old(self).offset(), *st)),
        decreases st, 2nat, 0nat,
    {
        let ghost s0 = *self;
        self.write_select_head(st);
        let ghost s1 = *self;
        self.write_select_tail(st);
        proof {
            lemma_wrote_trans(s0, s1, *self, select_head_r(s0.kind(), s0.inline(), s0.offset(), *st), select_tail_r(s0.kind(), s0.inline(), s1.offset(), *st));
        }
    }

    /// Renders a `WITH [RECURSIVE] ...` clause.
    fn write_with(&mut self, w: &WithClause)
        ensures
            wrote(*old(self), *final(self), with_r(old(self).kind(), old(self).inline(), old(self).offset(), *w)),
        decreases w, 2nat, 0nat,
    {
        let ghost s0 = *self;
        let ghost k = self.kind();
        let ghost il = self.inline();
        let ghost n = self.offset();
        self.push_sql("WITH ");
        let ghost s1 = *self;
        self.push_opt(w.recursive, "RECURSIVE ");
        let ghost s2 = *self;
        self.write_ctes(&w.ctes);
        let ghost s3 = *self;
        self.push_sql(" ");
        proof {
            let rec: Seq<char> = if w.recursive {
                "RECURSIVE "@
            } else {
                seq![]
            };
            lemma_chain4(s0, s1, s2, s3, *self, text_r("WITH "@), text_r(rec), ctes_r(k, il, n, w.ctes@), text_r(" "@));
            lemma_wrote_same(s0, *self, join_r(join_r(join_r(text_r("WITH "@), text_r(rec)), ctes_r(k, il, n, w.ctes@)), text_r(" "@)), with_r(k, il, n, *w));
        }
    }

    /// Appends the head of a common table expression.
    fn push_cte_head(&mut self, cte: &Cte)
        ensures
            wrote(*old(self), *final(self), text_r(cte_head_text(old(self).kind(), *cte))),
            final(self).bound() == old(self).bound(),
    {
        let ghost s0 = *self;
        let ghost k = self.kind();
        self.push_identifier(cte.name);
        let ghost t1 = self.text();
        match &cte.columns {
            Some(cols) => {
                self.push_sql("(");
                self.push_identifiers(cols);
                self.push_sql(")");
            },
            None => {},
        }
        let ghost cols_text: Seq<char> = match &cte.columns {
            Some(cols) => "("@ + idents_text(k, cols@) + ")"@,
            None => seq![],
        };
        assert(self.text() =~= t1 + cols_text);
        self.push_sql(" AS (");
        assert(self.text() =~= s0.text() + cte_head_text(k, *cte));
        proof {
            lemma_wrote_text(s0, *self, cte_head_text(k, *cte));
        }
    }

    /// Renders the body of a common table expression.
    fn write_cte_query(&mut self, q: &CteQuery)
        ensures
            wrote(*old(self), *final(self), cte_query_r(old(self).kind(), old(self).inline(), old(self).offset(), *q)),
        decreases q, 2nat, 0nat,
    {
        match q {
            CteQuery::Select(st) => self.write_select(st),
            CteQuery::Union(u) => self.write_union(u),
        }
    }

    /// Renders one common table expression.
    fn write_cte(&mut self, cte: &Cte)
        ensures
            wrote(*old(self), *final(self), cte_r(old(self).kind(), old(self).inline(), old(self).offset(), *cte)),
        decreases cte, 2nat, 0nat,
    {
        let ghost s0 = *self;
        let ghost k = self.kind();
        let ghost il = self.inline();
        let ghost n = self.offset();
        self.push_cte_head(cte);
        let ghost s1 = *self;
        let ghost q = cte_query_r(k, il, n, cte.query);
        self.write_cte_query(&cte.query);
        let ghost s2 = *self;
        self.push_sql(")");
        proof {
            lemma_chain3(s0, s1, s2, *self, text_r(cte_head_text(k, *cte)), q, text_r(")"@));
            lemma_wrote_same(s0, *self, join_r(join_r(text_r(cte_head_text(k, *cte)), q), text_r(")"@)), cte_r(k, il, n, *cte));
        }
    }

    /// Renders common table expressions joined by `", "`.
    fn write_ctes(&mut self, ctes: &Vec<Cte>)
        ensures
            wrote(*old(self), *final(self), ctes_r(old(self).kind(), old(self).inline(), old(self).offset(), ctes@)),
        decreases ctes, 2nat, 0nat,
    {
        let ghost s0 = *self;
        let ghost k = self.kind();
        let ghost il = self.inline();
        let ghost n = self.offset();
        proof {
            lemma_wrote_refl(s0);
        }
        let mut i: usize = 0;
        while i < ctes.len()
            invariant
                i <= ctes@.len(),
                wrote(s0, *self, ctes_r(k, il, n, ctes@.take(i as int))),
                k == s0.kind(),
                il == s0.inline(),
                n == s0.offset(),
            decreases ctes@.len() - i,
        {
            proof {
                vstd::std_specs::vec::axiom_vec_index_decreases(*ctes, i as int);
            }
            let ghost prev = ctes_r(k, il, n, ctes@.take(i as int));
            assert(ctes@.take(i + 1).drop_last() == ctes@.take(i as int));
            assert(ctes@.take(i + 1).last() == ctes@[i as int]);
            let ghost sep: Seq<char> = if i != 0 {
                ", "@
            } else {
                seq![]
            };
            let ghost c = cte_r(k, il, n + prev.1.len(), ctes@[i as int]);
            let ghost s1 = *self;
            self.push_opt(i != 0, ", ");
            let ghost s2 = *self;
            self.write_cte(&ctes[i]);
            proof {
                lemma_chain3(s0, s1, s2, *self, prev, text_r(sep), c);
                lemma_wrote_same(s0, *self, join_r(join_r(prev, text_r(sep)), c), ctes_r(k, il, n, ctes@.take(i + 1)));
            }
            i = i + 1;
        }
        assert(ctes@.take(i as int) == ctes@);
    }

    /// Renders the later branches of a union.
    fn write_rest(&mut self, rest: &Vec<(bool, SelectStatement)>)
        ensures
            wrote(*old(self), *final(self), rest_r(old(self).kind(), old(self).inline(), old(self).offset(), rest@)),
        decreases rest, 2nat, 0nat,
    {
        let ghost s0 = *self;
        let ghost k = self.kind();
        let ghost il = self.inline();
        let ghost n = self.offset();
        proof {
            lemma_wrote_refl(s0);
        }
        let mut i: usize = 0;
        while i < rest.len()
            invariant
                i <= rest@.len(),
                wrote(s0, *self, rest_r(k, il, n, rest@.take(i as int))),
                k == s0.kind(),
                il == s0.inline(),
                n == s0.offset(),
            decreases rest@.len() - i,
        {
            proof {
                vstd::std_specs::vec::axiom_vec_index_decreases(*rest, i as int);
            }
            let ghost prev = rest_r(k, il, n, rest@.take(i as int));
            assert(rest@.take(i + 1).drop_last() == rest@.take(i as int));
            assert(rest@.take(i + 1).last() == rest@[i as int]);
            let branch = &rest[i];
            let ghost b = select_r(k, il, n + prev.1.len(), branch.1);
            let word = if branch.0 {
                " UNION ALL "
            } else {
                " UNION "
            };
            let ghost s1 = *self;
            self.push_sql(word);
            let ghost s2 = *self;
            self.write_select(&branch.1);
            proof {
                lemma_chain3(s0, s1, s2, *self, prev, text_r(word@), b);
                lemma_wrote_same(s0, *self, join_r(join_r(prev, text_r(word@)), b), rest_r(k, il, n, rest@.take(i + 1)));
            }
            i = i + 1;
        }
        assert(rest@.take(i as int) == rest@);
    }

    /// Renders a `UNION` / `UNION ALL` of several `SELECT` statements; the
    /// ordering, limit, offset and lock apply to the combined result.
    pub fn write_union(&mut self, u: &UnionStatement)
        ensures
            wrote(*old(self), *final(self), union_r(old(self).kind(), old(self).inline(), old(self).offset(), *u)),
        decreases u, 2nat, 0nat,
    {
        let ghost s0 = *self;
        let ghost k = self.kind();
        let ghost il = self.inline();
        let ghost n = self.offset();
        let ghost f = select_r(k, il, n, u.first);
        self.write_select(&u.first);
        let ghost s1 = *self;
        let ghost r = rest_r(k, il, n + f.1.len(), u.rest@);
        self.write_rest(&u.rest);
        let ghost s2 = *self;
        let ghost m = n + f.1.len() + r.1.len();
        let ghost o = if u.order_by@.len() > 0 {
            let x = orders_r(k, il, m, u.order_by@);
            (" ORDER BY "@ + x.0, x.1)
        } else {
            empty_r()
        };
        if u.order_by.len() > 0 {
            self.push_sql(" ORDER BY ");
            let ghost t1 = *self;
            self.write_orders(&u.order_by);
            proof {
                lemma_wrote_trans(s2, t1, *self, text_r(" ORDER BY "@), orders_r(k, il, m, u.order_by@));
                lemma_wrote_same(s2, *self, join_r(text_r(" ORDER BY "@), orders_r(k, il, m, u.order_by@)), o);
            }
        } else {
            proof {
                lemma_wrote_refl(s2);
            }
        }
        let ghost s3 = *self;
        self.push_limit(u.limit, u.offset);
        let ghost s4 = *self;
        self.push_lock(&u.lock);
        proof {
            lemma_chain5(s0, s1, s2, s3, s4, *self, f, r, o, text_r(limit_text(u.limit, u.offset)), text_r(row_lock_text(k, u.lock)));
            lemma_wrote_same(s0, *self, join_r(join_r(join_r(join_r(f, r), o), text_r(limit_text(u.limit, u.offset))), text_r(row_lock_text(k, u.lock))), union_r(k, il, n, *u));
        }
    }
}

impl<'a, D: Dialect> QueryWriter<'a, D> {
    /// Renders a `SELECT COUNT(*)` over a statement's table and filters.
    pub fn write_count(&mut self, st: &SelectStatement)
        ensures
            wrote(*old(self), *final(self), count_r(old(self).kind(), old(self).inline(), old(self).offset(), *st)),
    {
        let ghost s0 = *self;
        let ghost k = self.kind();
        let ghost il = self.inline();
        let ghost n = self.offset();
        self.push_sql("SELECT COUNT(*) FROM ");
        self.push_identifier(st.table);
        let ghost head = "SELECT COUNT(*) FROM "@ + quoted_identifier(k, st.table@);
        assert(self.text() =~= s0.text() + head);
        proof {
            lemma_wrote_text(s0, *self, head);
        }
        let ghost s1 = *self;
        self.write_where(&st.filters);
        proof {
            lemma_wrote_trans(s0, s1, *self, text_r(head), where_r(k, il, n, st.filters@));
            lemma_wrote_same(s0, *self, join_r(text_r(head), where_r(k, il, n, st.filters@)), count_r(k, il, n, *st));
        }
    }

    /// Renders an existence check over a statement's table and filters.
    pub fn write_exists(&mut self, st: &SelectStatement)
        ensures
            wrote(*old(self), *final(self), exists_r(old(self).kind(), old(self).inline(), old(self).offset(), *st)),
    {
        let ghost s0 = *self;
        let ghost k = self.kind();
        let ghost il = self.inline();
        let ghost n = self.offset();
        self.push_sql("SELECT EXISTS(SELECT 1 FROM ");
        self.push_identifier(st.table);
        let ghost head = "SELECT EXISTS(SELECT 1 FROM "@ + quoted_identifier(k, st.table@);
        assert(self.text() =~= s0.text() + head);
        proof {
            lemma_wrote_text(s0, *self, head);
        }
        let ghost s1 = *self;
        self.write_where(&st.filters);
        let ghost s2 = *self;
        self.push_sql(")");
        proof {
            lemma_chain3(s0, s1, s2, *self, text_r(head), where_r(k, il, n, st.filters@), text_r(")"@));
            lemma_wrote_same(s0, *self, join_r(join_r(text_r(head), where_r(k, il, n, st.filters@)), text_r(")"@)), exists_r(k, il, n, *st));
        }
    }

    /// Renders assignments joined by `", "`.
    pub fn write_assignments(&mut self, items: &Vec<Assignment>)
        ensures
            wrote(*old(self), *final(self), assigns_r(old(self).kind(), old(self).inline(), old(self).offset(), items@)),
    {
        let ghost s0 = *self;
        let ghost k = self.kind();
        let ghost il = self.inline();
        let ghost n = self.offset();
        proof {
            lemma_wrote_refl(s0);
        }
        let mut i: usize = 0;
        while i < items.len()
            invariant
                i <= items@.len(),
                wrote(s0, *self, assigns_r(k, il, n, items@.take(i as int))),
                k == s0.kind(),
                il == s0.inline(),
                n == s0.offset(),
            decreases items@.len() - i,
        {
            let ghost prev = assigns_r(k, il, n, items@.take(i as int));
            assert(items@.take(i + 1).drop_last() == items@.take(i as int));
            assert(items@.take(i + 1).last() == items@[i as int]);
            let item = &items[i];
            let ghost sep: Seq<char> = if i != 0 {
                ", "@
            } else {
                seq![]
            };
            let ghost v = expr_r(k, il, n + prev.1.len(), item.value);
            let ghost s1 = *self;
            self.push_opt(i != 0, ", ");
            let ghost s2 = *self;
            self.push_identifier(item.column);
            let ghost s3 = *self;
            self.push_sql(" = ");
            let ghost s4 = *self;
            self.write_expr(&item.value);
            proof {
                lemma_chain5(s0, s1, s2, s3, s4, *self, prev, text_r(sep), text_r(quoted_identifier(k, item.column@)), text_r(" = "@), v);
                lemma_wrote_same(s0, *self, join_r(join_r(join_r(join_r(prev, text_r(sep)), text_r(quoted_identifier(k, item.column@))), text_r(" = "@)), v), assigns_r(k, il, n, items@.take(i + 1)));
            }
            i = i + 1;
        }
        assert(items@.take(i as int) == items@);
    }

    /// Renders value rows joined by `", "`.
    pub fn write_rows(&mut self, rows: &Vec<Vec<Value>>)
        ensures
            wrote(*old(self), *final(self), rows_r(old(self).kind(), old(self).inline(), old(self).offset(), rows@)),
    {
        let ghost s0 = *self;
        let ghost k = self.kind();
        let ghost il = self.inline();
        let ghost n = self.offset();
        proof {
            lemma_wrote_refl(s0);
        }
        let mut i: usize = 0;
        while i < rows.len()
            invariant
                i <= rows@.len(),
                wrote(s0, *self, rows_r(k, il, n, rows@.take(i as int))),
                k == s0.kind(),
                il == s0.inline(),
                n == s0.offset(),
            decreases rows@.len() - i,
        {
            let ghost prev = rows_r(k, il, n, rows@.take(i as int));
            assert(rows@.take(i + 1).drop_last() == rows@.take(i as int));
            assert(rows@.take(i + 1).last() == rows@[i as int]);
            let ghost sep: Seq<char> = if i != 0 {
                ", "@
            } else {
                seq![]
            };
            let ghost b = binds_r(k, il, n + prev.1.len(), rows@[i as int]@);
            let ghost s1 = *self;
            self.push_opt(i != 0, ", ");
            let ghost s2 = *self;
            self.push_sql("(");
            let ghost s3 = *self;
            self.write_binds(&rows[i]);
            let ghost s4 = *self;
            self.push_sql(")");
            proof {
                lemma_chain5(s0, s1, s2, s3, s4, *self, prev, text_r(sep), text_r("("@), b, text_r(")"@));
                lemma_wrote_same(s0, *self, join_r(join_r(join_r(join_r(prev, text_r(sep)), text_r("("@)), b), text_r(")"@)), rows_r(k, il, n, rows@.take(i + 1)));
            }
            i = i + 1;
        }
        assert(rows@.take(i as int) == rows@);
    }

    /// Renders the conflict clause of an insert.
    pub fn write_conflict(&mut self, c: &OnConflict)
        ensures
            wrote(*old(self), *final(self), conflict_r(old(self).kind(), old(self).inline(), old(self).offset(), *c)),
    {
        let ghost s0 = *self;
        let ghost k = self.kind();
        let ghost il = self.inline();
        let ghost n = self.offset();
        let is_mysql = self.dialect.kind() == DialectKind::Mysql;
        match c {
            OnConflict::Abort => {
                proof {
                    lemma_wrote_refl(s0);
                }
            },
            OnConflict::Update { constraint, updates } => {
                let ghost head: Seq<char> = if is_mysql {
                    " ON DUPLICATE KEY UPDATE "@
                } else {
                    " ON CONFLICT ("@ + idents_text(k, constraint@) + ") DO UPDATE SET "@
                };
                if is_mysql {
                    self.push_sql(" ON DUPLICATE KEY UPDATE ");
                } else {
                    self.push_sql(" ON CONFLICT (");
                    self.push_identifiers(constraint);
                    self.push_sql(") DO UPDATE SET ");
                }
                assert(self.text() =~= s0.text() + head);
                proof {
                    lemma_wrote_text(s0, *self, head);
                }
                let ghost s1 = *self;
                self.write_assignments(updates);
                proof {
                    lemma_wrote_trans(s0, s1, *self, text_r(head), assigns_r(k, il, n, updates@));
                    lemma_wrote_same(s0, *self, join_r(text_r(head), assigns_r(k, il, n, updates@)), conflict_r(k, il, n, *c));
                }
            },
            OnConflict::DoNothing { constraint } => {
                if !is_mysql {
                    self.push_sql(" ON CONFLICT ");
                    if constraint.len() > 0 {
                        self.push_sql("(");
                        self.push_identifiers(constraint);
                        self.push_sql(") ");
                    }
                    self.push_sql("DO NOTHING");
                }
                let ghost t: Seq<char> = if is_mysql {
                    seq![]
                } else {
                    " ON CONFLICT "@ + (if constraint@.len() > 0 {
                        "("@ + idents_text(k, constraint@) + ") "@
                    } else {
                        seq![]
                    }) + "DO NOTHING"@
                };
                assert(self.text() =~= s0.text() + t);
                proof {
                    lemma_wrote_text(s0, *self, t);
                }
            },
        }
    }

    /// Appends ` RETURNING` and the columns, when there are any.
    pub fn push_returning(&mut self, cols: &Vec<&'static str>)
        ensures
            wrote(*old(self), *final(self), text_r(returning_text(old(self).kind(), cols@))),
            final(self).bound() == old(self).bound(),
    {
        let ghost s0 = *self;
        if cols.len() > 0 {
            self.push_sql(" RETURNING ");
            self.push_identifiers(cols);
        }
        assert(self.text() =~= s0.text() + returning_text(s0.kind(), cols@));
        proof {
            lemma_wrote_text(s0, *self, returning_text(s0.kind(), cols@));
        }
    }

    /// Renders an `INSERT` statement.
    pub fn write_insert(&mut self, st: &InsertStatement)
        ensures
            wrote(*old(self), *final(self), insert_r(old(self).kind(), old(self).inline(), old(self).offset(), *st)),
    {
        let ghost s0 = *self;
        let ghost k = self.kind();
        let ghost il = self.inline();
        let ghost n = self.offset();
        let is_mysql = self.dialect.kind() == DialectKind::Mysql;
        let ignore = match &st.on_conflict {
            OnConflict::DoNothing { .. } => is_mysql,
            _ => false,
        };
        if ignore {
            self.push_sql("INSERT IGNORE INTO ");
        } else {
            self.push_sql("INSERT INTO ");
        }
        self.push_identifier(st.table);
        self.push_sql(" (");
        self.push_identifiers(&st.columns);
        self.push_sql(") VALUES ");
        let ghost head = insert_prefix(k, st.on_conflict) + quoted_identifier(k, st.table@) + " ("@
            + idents_text(k, st.columns@) + ") VALUES "@;
        assert(self.text() =~= s0.text() + head);
        proof {
            lemma_wrote_text(s0, *self, head);
        }
        let ghost s1 = *self;
        let ghost rows = rows_r(k, il, n, st.rows@);
        self.write_rows(&st.rows);
        let ghost s2 = *self;
        let ghost c = conflict_r(k, il, n + rows.1.len(), st.on_conflict);
        self.write_conflict(&st.on_conflict);
        let ghost s3 = *self;
        self.push_returning(&st.returning);
        proof {
            lemma_chain4(s0, s1, s2, s3, *self, text_r(head), rows, c, text_r(returning_text(k, st.returning@)));
            lemma_wrote_same(s0, *self, join_r(join_r(join_r(text_r(head), rows), c), text_r(returning_text(k, st.returning@))), insert_r(k, il, n, *st));
        }
    }

    /// Renders an `UPDATE` statement.
    pub fn write_update(&mut self, st: &UpdateStatement)
        ensures
            wrote(*old(self), *final(self), update_r(old(self).kind(), old(self).inline(), old(self).offset(), *st)),
    {
        let ghost s0 = *self;
        let ghost k = self.kind();
        let ghost il = self.inline();
        let ghost n = self.offset();
        self.push_sql("UPDATE ");
        self.push_identifier(st.table);
        self.push_sql(" SET ");
        let ghost head = "UPDATE "@ + quoted_identifier(k, st.table@) + " SET "@;
        assert(self.text() =~= s0.text() + head);
        proof {
            lemma_wrote_text(s0, *self, head);
        }
        let ghost s1 = *self;
        let ghost a = assigns_r(k, il, n, st.assignments@);
        self.write_assignments(&st.assignments);
        let ghost s2 = *self;
        let ghost w = where_r(k, il, n + a.1.len(), st.filters@);
        self.write_where(&st.filters);
        let ghost s3 = *self;
        self.push_returning(&st.returning);
        proof {
            lemma_chain4(s0, s1, s2, s3, *self, text_r(head), a, w, text_r(returning_text(k, st.returning@)));
            lemma_wrote_same(s0, *self, join_r(join_r(join_r(text_r(head), a), w), text_r(returning_text(k, st.returning@))), update_r(k, il, n, *st));
        }
    }

    /// Renders a `DELETE` statement.
    pub fn write_delete(&mut self, st: &DeleteStatement)
        ensures
            wrote(*old(self), *final(self), delete_r(old(self).kind(), old(self).inline(), old(self).offset(), *st)),
    {
        let ghost s0 = *self;
        let ghost k = self.kind();
        let ghost il = self.inline();
        let ghost n = self.offset();
        self.push_sql("DELETE FROM ");
        self.push_identifier(st.table);
        let ghost head = "DELETE FROM "@ + quoted_identifier(k, st.table@);
        assert(self.text() =~= s0.text() + head);
        proof {
            lemma_wrote_text(s0, *self, head);
        }
        let ghost s1 = *self;
        let ghost w = where_r(k, il, n, st.filters@);
        self.write_where(&st.filters);
        let ghost s2 = *self;
        self.push_returning(&st.returning);
        proof {
            lemma_chain3(s0, s1, s2, *self, text_r(head), w, text_r(returning_text(k, st.returning@)));
            lemma_wrote_same(s0, *self, join_r(join_r(text_r(head), w), text_r(returning_text(k, st.returning@))), delete_r(k, il, n, *st));
        }
    }
}

/// A fresh writer's output after writing `r`.
proof fn lemma_fresh_rendered<'a, D: Dialect>(w: QueryWriter<'a, D>, r: (Seq<char>, Seq<Value>), s: (String, Vec<Value>))
    requires
        w.text().len() == 0,
        w.bound().len() == 0,
        s.0@ == (w.text() + r.0),
        params_extended(w.bound(), s.1@, r.1),
    ensures
        rendered(s, r),
{
    assert(w.text() + r.0 =~= r.0);
    assert(w.bound() =~= Seq::<Value>::empty());
}

/// Renders a `UNION` statement to SQL and bound parameters.
pub fn render_union<D: Dialect>(dialect: &D, statement: &UnionStatement) -> (r: (String, Vec<Value>))
    ensures
        rendered(r, union_r(dialect.spec_kind(), false, 0, *statement)),
{
    let mut writer = QueryWriter::new(dialect);
    let ghost w0 = writer;
    writer.write_union(statement);
    let r = writer.finish();
    proof {
        lemma_fresh_rendered(w0, union_r(dialect.spec_kind(), false, 0, *statement), r);
    }
    r
}

/// Renders a `SELECT` statement to SQL and bound parameters.
pub fn render_select<D: Dialect>(dialect: &D, statement: &SelectStatement) -> (r: (String, Vec<Value>))
    ensures
        rendered(r, select_r(dialect.spec_kind(), false, 0, *statement)),
{
    let mut writer = QueryWriter::new(dialect);
    let ghost w0 = writer;
    writer.write_select(statement);
    let r = writer.finish();
    proof {
        lemma_fresh_rendered(w0, select_r(dialect.spec_kind(), false, 0, *statement), r);
    }
    r
}

/// Renders a count query to SQL and bound parameters.
pub fn render_count<D: Dialect>(dialect: &D, statement: &SelectStatement) -> (r: (String, Vec<Value>))
    ensures
        rendered(r, count_r(dialect.spec_kind(), false, 0, *statement)),
{
    let mut writer = QueryWriter::new(dialect);
    let ghost w0 = writer;
    writer.write_count(statement);
    let r = writer.finish();
    proof {
        lemma_fresh_rendered(w0, count_r(dialect.spec_kind(), false, 0, *statement), r);
    }
    r
}

/// Renders an existence query to SQL and bound parameters.
pub fn render_exists<D: Dialect>(dialect: &D, statement: &SelectStatement) -> (r: (String, Vec<Value>))
    ensures
        rendered(r, exists_r(dialect.spec_kind(), false, 0, *statement)),
{
    let mut writer = QueryWriter::new(dialect);
    let ghost w0 = writer;
    writer.write_exists(statement);
    let r = writer.finish();
    proof {
        lemma_fresh_rendered(w0, exists_r(dialect.spec_kind(), false, 0, *statement), r);
    }
    r
}

/// Renders an `INSERT` statement to SQL and bound parameters.
pub fn render_insert<D: Dialect>(dialect: &D, statement: &InsertStatement) -> (r: (String, Vec<Value>))
    ensures
        rendered(r, insert_r(dialect.spec_kind(), false, 0, *statement)),
{
    let mut writer = QueryWriter::new(dialect);
    let ghost w0 = writer;
    writer.write_insert(statement);
    let r = writer.finish();
    proof {
        lemma_fresh_rendered(w0, insert_r(dialect.spec_kind(), false, 0, *statement), r);
    }
    r
}

/// Renders an `UPDATE` statement to SQL and bound parameters.
pub fn render_update<D: Dialect>(dialect: &D, statement: &UpdateStatement) -> (r: (String, Vec<Value>))
    ensures
        rendered(r, update_r(dialect.spec_kind(), false, 0, *statement)),
{
    let mut writer = QueryWriter::new(dialect);
    let ghost w0 = writer;
    writer.write_update(statement);
    let r = writer.finish();
    proof {
        lemma_fresh_rendered(w0, update_r(dialect.spec_kind(), false, 0, *statement), r);
    }
    r
}

/// Renders a `DELETE` statement to SQL and bound parameters.
pub fn render_delete<D: Dialect>(dialect: &D, statement: &DeleteStatement) -> (r: (String, Vec<Value>))
    ensures
        rendered(r, delete_r(dialect.spec_kind(), false, 0, *statement)),
{
    let mut writer = QueryWriter::new(dialect);
    let ghost w0 = writer;
    writer.write_delete(statement);
    let r = writer.finish();
    proof {
        lemma_fresh_rendered(w0, delete_r(dialect.spec_kind(), false, 0, *statement), r);
    }
    r
}

/// Renders a standalone expression to SQL and its bound parameters.
pub fn render_expr<D: Dialect>(dialect: &D, expr: &Expr) -> (r: (String, Vec<Value>))
    ensures
        rendered(r, expr_r(dialect.spec_kind(), false, 0, *expr)),
{
    let mut writer = QueryWriter::new(dialect);
    let ghost w0 = writer;
    writer.write_expr(expr);
    let r = writer.finish();
    proof {
        lemma_fresh_rendered(w0, expr_r(dialect.spec_kind(), false, 0, *expr), r);
    }
    r
}

/// Renders a boolean expression with its values inlined as SQL literals, for
/// places that cannot bind parameters (a partial index's `WHERE` in DDL).
pub fn predicate_sql<D: Dialect>(dialect: &D, expr: &Expr) -> (s: String)
    ensures
        s@ == inline_text(dialect.spec_kind(), *expr),
{
    let mut writer = QueryWriter::new_inline(dialect);
    let ghost w0 = writer;
    writer.write_expr(expr);
    let r = writer.finish();
    proof {
        reveal(inline_text);
        assert(w0.text() + expr_r(dialect.spec_kind(), true, 0, *expr).0 =~= expr_r(dialect.spec_kind(), true, 0, *expr).0);
    }
    r.0
}

} // verus!
