//! The PostgreSQL dialect's spellings, capabilities and parameter numbering.

use tork_orm::dialect::{Dialect, IsolationLevel, PostgresDialect, QueryWriter, SqlType};
use tork_orm::value::Value;

fn type_str(ty: SqlType) -> String {
    let mut out = String::new();
    PostgresDialect::new().map_sql_type(ty, &mut out);
    out
}

#[test]
fn quotes_identifiers_and_escapes_embedded_quotes() {
    let dialect = PostgresDialect::new();
    assert_eq!(dialect.quoted("users"), "\"users\"");
    assert_eq!(dialect.quoted("a\"b"), "\"a\"\"b\"");
}

#[test]
fn placeholders_are_numbered_from_one() {
    let dialect = PostgresDialect::new();
    let mut out = String::new();
    dialect.placeholder(0, &mut out);
    dialect.placeholder(1, &mut out);
    dialect.placeholder(9, &mut out);
    assert_eq!(out, "$1$2$10");
}

#[test]
fn writer_numbers_bound_params_sequentially() {
    let dialect = PostgresDialect::new();
    let mut writer = QueryWriter::new(&dialect);
    writer.push_sql("VALUES (");
    writer.push_bind(Value::Int(1));
    writer.push_sql(", ");
    writer.push_bind(Value::Text("x".into()));
    writer.push_sql(", ");
    writer.push_bind(Value::Bool(true));
    writer.push_sql(")");
    let (sql, params) = writer.finish();
    assert_eq!(sql, "VALUES ($1, $2, $3)");
    assert_eq!(params.len(), 3);
}

#[test]
fn maps_types_to_postgres_spellings() {
    assert_eq!(type_str(SqlType::Boolean), "BOOLEAN");
    assert_eq!(type_str(SqlType::Integer), "INTEGER");
    assert_eq!(type_str(SqlType::BigInt), "BIGINT");
    assert_eq!(type_str(SqlType::Real), "DOUBLE PRECISION");
    assert_eq!(type_str(SqlType::Text), "TEXT");
    assert_eq!(type_str(SqlType::Varchar(50)), "VARCHAR(50)");
    assert_eq!(type_str(SqlType::Timestamp), "TIMESTAMP WITH TIME ZONE");
    assert_eq!(type_str(SqlType::Blob), "BYTEA");
}

#[test]
fn maps_isolation_levels_to_standard_sql() {
    let dialect = PostgresDialect::new();
    assert_eq!(
        dialect.begin_with_sql(IsolationLevel::Deferred),
        "BEGIN ISOLATION LEVEL READ COMMITTED"
    );
    assert_eq!(
        dialect.begin_with_sql(IsolationLevel::Immediate),
        "BEGIN ISOLATION LEVEL REPEATABLE READ"
    );
    assert_eq!(
        dialect.begin_with_sql(IsolationLevel::Exclusive),
        "BEGIN ISOLATION LEVEL SERIALIZABLE"
    );
}

#[test]
fn renders_native_boolean_literals() {
    let dialect = PostgresDialect::new();
    assert_eq!(dialect.bool_literal(true), "true");
    assert_eq!(dialect.bool_literal(false), "false");
}

#[test]
fn advertises_full_index_capabilities() {
    let dialect = PostgresDialect::new();
    assert!(dialect.supports_index_method());
    assert!(dialect.supports_index_include());
    assert!(dialect.supports_index_opclass());
    assert!(dialect.supports_returning());
}

#[test]
fn postgres_arrays_and_advisory_locks() {
    assert_eq!(type_str(SqlType::Array(Box::new(SqlType::Integer))), "INTEGER[]");
    assert_eq!(type_str(SqlType::Uuid), "UUID");
    assert_eq!(type_str(SqlType::Json), "JSONB");
    let dialect = PostgresDialect::new();
    assert_eq!(dialect.acquire_migration_lock_sql(-7), None);
    assert_eq!(dialect.begin_sql(), "BEGIN");
}
