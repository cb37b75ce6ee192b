//! Free-function builders for scalar SQL functions and aggregates.
//!
//! A call form (`lower(expr)`) for the common functions, and a generic escape
//! hatch ([`func`]) for any function the built-ins do not cover.

use vstd::prelude::*;

use crate::query::expr::{AggFunc, Expr};
use crate::text::owned;
use crate::value::Value;

verus! {

/// Whether `e` calls the function `name` with exactly `args`.
pub open spec fn calls(e: Expr, name: Seq<char>, args: Seq<Expr>) -> bool {
    e matches Expr::Func { name: n, args: a } && n@ == name && a@ == args
}

/// Whether `e` is the bound text `t`.
pub open spec fn is_text(e: Expr, t: Seq<char>) -> bool {
    e matches Expr::Value(Value::Text(s)) && s@ == t
}

/// Whether `e` aggregates `args` with `f`, without a filter.
pub open spec fn aggregates(e: Expr, f: AggFunc, args: Seq<Expr>) -> bool {
    e matches Expr::Aggregate { func, args: a, filter } && func == f && a@ == args && filter is None
}

/// A call to an arbitrary scalar function, `name(args...)`; the name is emitted
/// verbatim.
pub fn func(name: &str, args: Vec<Expr>) -> (e: Expr)
    ensures
        calls(e, name@, args@),
{
    Expr::func(owned(name), args)
}

fn call1(name: &str, arg: Expr) -> (e: Expr)
    ensures
        calls(e, name@, seq![arg]),
{
    let ghost a = arg;
    let mut args: Vec<Expr> = Vec::new();
    args.push(arg);
    let e = Expr::func(owned(name), args);
    assert(calls(e, name@, seq![a]));
    e
}

fn call2(name: &str, first: Expr, second: Expr) -> (e: Expr)
    ensures
        calls(e, name@, seq![first, second]),
{
    let ghost (a, b) = (first, second);
    let e = Expr::func(owned(name), vec![first, second]);
    assert(calls(e, name@, seq![a, b]));
    e
}

/// `lower(arg)`.
pub fn lower(arg: Expr) -> (e: Expr)
    ensures
        calls(e, "lower"@, seq![arg]),
{
    call1("lower", arg)
}

/// `upper(arg)`.
pub fn upper(arg: Expr) -> (e: Expr)
    ensures
        calls(e, "upper"@, seq![arg]),
{
    call1("upper", arg)
}

/// `length(arg)`.
pub fn length(arg: Expr) -> (e: Expr)
    ensures
        calls(e, "length"@, seq![arg]),
{
    call1("length", arg)
}

/// `trim(arg)`.
pub fn trim(arg: Expr) -> (e: Expr)
    ensures
        calls(e, "trim"@, seq![arg]),
{
    call1("trim", arg)
}

/// `abs(arg)`.
pub fn abs(arg: Expr) -> (e: Expr)
    ensures
        calls(e, "abs"@, seq![arg]),
{
    call1("abs", arg)
}

/// `coalesce(first, second)`.
pub fn coalesce(first: Expr, second: Expr) -> (e: Expr)
    ensures
        calls(e, "coalesce"@, seq![first, second]),
{
    call2("coalesce", first, second)
}

/// `round(arg)`: rounds to the nearest integer.
pub fn round(arg: Expr) -> (e: Expr)
    ensures
        calls(e, "round"@, seq![arg]),
{
    call1("round", arg)
}

/// `ceil(arg)`: the smallest integer not less than the argument.
pub fn ceil(arg: Expr) -> (e: Expr)
    ensures
        calls(e, "ceil"@, seq![arg]),
{
    call1("ceil", arg)
}

/// `floor(arg)`: the largest integer not greater than the argument.
pub fn floor(arg: Expr) -> (e: Expr)
    ensures
        calls(e, "floor"@, seq![arg]),
{
    call1("floor", arg)
}

/// `substr(arg, start)`: the 1-based substring from `start` to the end.
pub fn substr(arg: Expr, start: Expr) -> (e: Expr)
    ensures
        calls(e, "substr"@, seq![arg, start]),
{
    call2("substr", arg, start)
}

/// `substr(arg, start, len)`: the 1-based substring of `len` characters.
pub fn substr_len(arg: Expr, start: Expr, len: Expr) -> (e: Expr)
    ensures
        calls(e, "substr"@, seq![arg, start, len]),
{
    let ghost (a, b, c) = (arg, start, len);
    let e = Expr::func(owned("substr"), vec![arg, start, len]);
    assert(calls(e, "substr"@, seq![a, b, c]));
    e
}

/// `concat(args...)`: concatenates strings.
pub fn concat(args: Vec<Expr>) -> (e: Expr)
    ensures
        calls(e, "concat"@, args@),
{
    func("concat", args)
}

/// `nullif(a, b)`: `NULL` when `a` equals `b`, otherwise `a`.
pub fn nullif(a: Expr, b: Expr) -> (e: Expr)
    ensures
        calls(e, "nullif"@, seq![a, b]),
{
    call2("nullif", a, b)
}

/// `greatest(args...)`: the largest of the values.
pub fn greatest(args: Vec<Expr>) -> (e: Expr)
    ensures
        calls(e, "greatest"@, args@),
{
    func("greatest", args)
}

/// `least(args...)`: the smallest of the values.
pub fn least(args: Vec<Expr>) -> (e: Expr)
    ensures
        calls(e, "least"@, args@),
{
    func("least", args)
}

/// `random()`: a random value between 0 and 1.
pub fn random_value() -> (e: Expr)
    ensures
        calls(e, "random"@, seq![]),
{
    func("random", Vec::new())
}

fn text_value(t: &str) -> (e: Expr)
    ensures
        is_text(e, t@),
{
    Expr::value(Value::Text(owned(t)))
}

fn int_arg(n: i64) -> (e: Expr)
    ensures
        e == Expr::Value(Value::Int(n)),
{
    Expr::value(Value::Int(n))
}

/// `regexp_like(column, pattern)`: whether the column matches the pattern.
pub fn regex_match(column: Expr, pattern: &str) -> (e: Expr)
    ensures
        e matches Expr::Func { name, args } && name@ == "regexp_like"@ && args@.len() == 2 && args@[0]
            == column && is_text(args@[1], pattern@),
{
    let ghost c = column;
    let e = Expr::func(owned("regexp_like"), vec![column, text_value(pattern)]);
    assert(e matches Expr::Func { name, args } && args@[0] == c);
    e
}

/// `regexp_replace(column, pattern, replacement)`: replaces the matches.
pub fn regex_replace(column: Expr, pattern: &str, replacement: &str) -> (e: Expr)
    ensures
        e matches Expr::Func { name, args } && name@ == "regexp_replace"@ && args@.len() == 3
            && args@[0] == column && is_text(args@[1], pattern@) && is_text(args@[2], replacement@),
{
    let ghost c = column;
    let e = Expr::func(owned("regexp_replace"), vec![column, text_value(pattern), text_value(replacement)]);
    assert(e matches Expr::Func { name, args } && args@[0] == c);
    e
}

/// `split_part(column, delimiter, field)`: the `field`-th part (1-based) of the
/// column split on `delimiter`.
pub fn split_part(column: Expr, delimiter: &str, field: i64) -> (e: Expr)
    ensures
        e matches Expr::Func { name, args } && name@ == "split_part"@ && args@.len() == 3
            && args@[0] == column && is_text(args@[1], delimiter@) && args@[2] == Expr::Value(
            Value::Int(field),
        ),
{
    let ghost c = column;
    let e = Expr::func(owned("split_part"), vec![column, text_value(delimiter), int_arg(field)]);
    assert(e matches Expr::Func { name, args } && args@[0] == c);
    e
}

/// `replace(column, from, to)`: replaces every occurrence of `from` with `to`.
pub fn replace(column: Expr, from: &str, to: &str) -> (e: Expr)
    ensures
        e matches Expr::Func { name, args } && name@ == "replace"@ && args@.len() == 3 && args@[0]
            == column && is_text(args@[1], from@) && is_text(args@[2], to@),
{
    let ghost c = column;
    let e = Expr::func(owned("replace"), vec![column, text_value(from), text_value(to)]);
    assert(e matches Expr::Func { name, args } && args@[0] == c);
    e
}

/// `left(column, n)`: the first `n` characters.
pub fn left(column: Expr, n: i64) -> (e: Expr)
    ensures
        calls(e, "left"@, seq![column, Expr::Value(Value::Int(n))]),
{
    call2("left", column, int_arg(n))
}

/// `right(column, n)`: the last `n` characters.
pub fn right(column: Expr, n: i64) -> (e: Expr)
    ensures
        calls(e, "right"@, seq![column, Expr::Value(Value::Int(n))]),
{
    call2("right", column, int_arg(n))
}

/// `repeat(column, n)`: the string repeated `n` times.
pub fn repeat(column: Expr, n: i64) -> (e: Expr)
    ensures
        calls(e, "repeat"@, seq![column, Expr::Value(Value::Int(n))]),
{
    call2("repeat", column, int_arg(n))
}

/// `reverse(column)`: the string reversed.
pub fn reverse(column: Expr) -> (e: Expr)
    ensures
        calls(e, "reverse"@, seq![column]),
{
    call1("reverse", column)
}

/// `position(substring IN column)`: where `substring` first occurs.
pub fn position(substring: &str, column: Expr) -> (e: Expr)
    ensures
        e matches Expr::Func { name, args } && name@ == "position"@ && args@.len() == 2 && is_text(
            args@[0],
            substring@,
        ) && args@[1] == column,
{
    let ghost c = column;
    let e = Expr::func(owned("position"), vec![text_value(substring), column]);
    assert(e matches Expr::Func { name, args } && args@[1] == c);
    e
}

/// `string_agg(column, delimiter)`: the non-null values joined by `delimiter`.
pub fn string_aggregation(column: Expr, delimiter: &str) -> (e: Expr)
    ensures
        e matches Expr::Aggregate { func, args, filter } && func == AggFunc::StringAggregation
            && filter is None && args@.len() == 2 && args@[0] == column && is_text(args@[1], delimiter@),
{
    let ghost c = column;
    let e = Expr::aggregate(AggFunc::StringAggregation, vec![column, text_value(delimiter)]);
    assert(e matches Expr::Aggregate { args, .. } && args@[0] == c);
    e
}

fn aggregate1(f: AggFunc, column: Expr) -> (e: Expr)
    ensures
        aggregates(e, f, seq![column]),
{
    let ghost c = column;
    let mut args: Vec<Expr> = Vec::new();
    args.push(column);
    let e = Expr::aggregate(f, args);
    assert(aggregates(e, f, seq![c]));
    e
}

/// `array_agg(column)`: the values collected into an array.
pub fn array_aggregation(column: Expr) -> (e: Expr)
    ensures
        aggregates(e, AggFunc::ArrayAggregation, seq![column]),
{
    aggregate1(AggFunc::ArrayAggregation, column)
}

/// `json_agg(column)`: the values aggregated as a JSON array.
pub fn json_aggregation(column: Expr) -> (e: Expr)
    ensures
        aggregates(e, AggFunc::JsonAggregation, seq![column]),
{
    aggregate1(AggFunc::JsonAggregation, column)
}

/// `jsonb_agg(column)`: the values aggregated as a JSONB array.
pub fn jsonb_aggregation(column: Expr) -> (e: Expr)
    ensures
        aggregates(e, AggFunc::JsonbAggregation, seq![column]),
{
    aggregate1(AggFunc::JsonbAggregation, column)
}

/// `bool_and(column)`: whether every non-null value is true.
pub fn bool_and(column: Expr) -> (e: Expr)
    ensures
        aggregates(e, AggFunc::BoolAnd, seq![column]),
{
    aggregate1(AggFunc::BoolAnd, column)
}

/// `bool_or(column)`: whether any non-null value is true.
pub fn bool_or(column: Expr) -> (e: Expr)
    ensures
        aggregates(e, AggFunc::BoolOr, seq![column]),
{
    aggregate1(AggFunc::BoolOr, column)
}

} // verus!
