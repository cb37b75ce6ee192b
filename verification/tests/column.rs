//! Typed column handles and function builders.

use tork_orm::dialect::{render_expr, PostgresDialect, SqliteDialect};
use tork_orm::query::column::{Column, IntoSqlValue};
use tork_orm::query::expr::Expr;
use tork_orm::query::func;
use tork_orm::value::{BindValue, Value};

struct User;

fn age() -> Column<User, i64> {
    Column::new("users", "age")
}

fn name() -> Column<User, String> {
    Column::new("users", "name")
}

fn sql(e: &Expr) -> String {
    render_expr(&PostgresDialect::new(), e).0
}

#[test]
fn comparisons_bind_their_right_hand_side() {
    let (text, params) = render_expr(&PostgresDialect::new(), &age().ge(18i64));
    assert_eq!(text, "\"users\".\"age\" >= $1");
    assert!(matches!(params[0], Value::Int(18)));
    assert_eq!(sql(&name().eq("ann")), "\"users\".\"name\" = $1");
    assert_eq!(sql(&name().ne(String::from("bob"))), "\"users\".\"name\" <> $1");
    assert_eq!(sql(&age().in_list(vec![1i64, 2, 3])), "\"users\".\"age\" IN ($1, $2, $3)");
    assert_eq!(sql(&age().not_in(Vec::<i64>::new())), "NOT (0 = 1)");
    assert_eq!(sql(&age().between(1i64, 9i64)), "\"users\".\"age\" BETWEEN $1 AND $2");
    assert_eq!(sql(&age().is_null()), "\"users\".\"age\" IS NULL");
    assert_eq!(sql(&age().is_not_null()), "\"users\".\"age\" IS NOT NULL");
    assert_eq!(sql(&age().is_distinct_from(3i64)), "\"users\".\"age\" IS DISTINCT FROM $1");
}

#[test]
fn text_patterns_wrap_the_needle() {
    let (text, params) = render_expr(&PostgresDialect::new(), &name().contains("nn"));
    assert_eq!(text, "\"users\".\"name\" LIKE $1");
    assert!(matches!(&params[0], Value::Text(t) if t == "%nn%"));
    let (_, params) = render_expr(&PostgresDialect::new(), &name().starts_with("a"));
    assert!(matches!(&params[0], Value::Text(t) if t == "a%"));
    let (_, params) = render_expr(&PostgresDialect::new(), &name().iends_with("z"));
    assert!(matches!(&params[0], Value::Text(t) if t == "%z"));
    assert_eq!(
        render_expr(&SqliteDialect::new(), &name().icontains("x")).0,
        "lower(\"users\".\"name\") LIKE lower(?)"
    );
}

#[test]
fn aggregates_and_functions_wrap_the_column() {
    assert_eq!(sql(&age().sum()), "SUM(\"users\".\"age\")");
    assert_eq!(sql(&age().count()), "COUNT(\"users\".\"age\")");
    assert_eq!(sql(&name().lower()), "lower(\"users\".\"name\")");
    assert_eq!(sql(&age().add(1i64)), "\"users\".\"age\" + $1");
    assert_eq!(sql(&name().substr_len(1, 3)), "substr(\"users\".\"name\", $1, $2)");
    assert_eq!(sql(&func::coalesce(age().expr(), Expr::value(Value::Int(0)))), "coalesce(\"users\".\"age\", $1)");
    assert_eq!(sql(&func::random_value()), "random()");
    assert_eq!(sql(&func::bool_or(Expr::column("t", "flag"))), "bool_or(\"t\".\"flag\")");
    assert_eq!(
        sql(&func::string_aggregation(Expr::column("t", "tag"), ", ")),
        "string_agg(\"t\".\"tag\", $1)"
    );
}

#[test]
fn columns_order_alias_and_assign() {
    let order = age().desc();
    assert!(order.descending);
    assert_eq!(sql(&age().as_("years")), "\"users\".\"age\" AS \"years\"");
    let assignment = name().set("carol");
    assert_eq!(assignment.column, "name");
    assert!(matches!(&assignment.value, Expr::Value(Value::Text(t)) if t == "carol"));
    let bumped = age().set(age().add(1i64));
    assert_eq!(sql(&bumped.value), "\"users\".\"age\" + $1");
    assert_eq!(age().table(), "users");
    assert_eq!(age().name(), "age");
}

#[test]
fn values_lower_to_their_bound_form() {
    assert!(matches!(7u8.to_value(), Value::Int(7)));
    assert!(matches!(u64::MAX.to_value(), Value::Int(-1)));
    assert!(matches!(Some(true).to_value(), Value::Bool(true)));
    assert!(matches!(None::<i64>.to_value(), Value::Null));
    assert!(matches!(IntoSqlValue::<String>::into_sql_value("x"), Value::Text(t) if t == "x"));
    let tags: Column<User, Vec<i64>> = Column::new("users", "tags");
    assert_eq!(sql(&tags.array_contains(vec![1, 2])), "\"users\".\"tags\" @> $1");
}
