//! The MySQL dialect's spellings and capabilities.

use tork_orm::dialect::{Dialect, MySqlDialect, SqlType};

fn type_str(ty: SqlType) -> String {
    let mut out = String::new();
    MySqlDialect::new().map_sql_type(ty, &mut out);
    out
}

#[test]
fn quotes_identifiers_with_backticks() {
    let dialect = MySqlDialect::new();
    assert_eq!(dialect.quoted("users"), "`users`");
    // An embedded backtick is doubled.
    assert_eq!(dialect.quoted("a`b"), "`a``b`");
}

#[test]
fn placeholders_are_positional_question_marks() {
    let dialect = MySqlDialect::new();
    let mut out = String::new();
    dialect.placeholder(0, &mut out);
    dialect.placeholder(7, &mut out);
    assert_eq!(out, "??");
}

#[test]
fn maps_types_to_mysql_spellings() {
    assert_eq!(type_str(SqlType::Boolean), "TINYINT(1)");
    assert_eq!(type_str(SqlType::Integer), "INT");
    assert_eq!(type_str(SqlType::BigInt), "BIGINT");
    assert_eq!(type_str(SqlType::Real), "DOUBLE");
    assert_eq!(type_str(SqlType::Text), "TEXT");
    assert_eq!(type_str(SqlType::Varchar(50)), "VARCHAR(50)");
    assert_eq!(type_str(SqlType::Timestamp), "DATETIME");
    assert_eq!(type_str(SqlType::Blob), "BLOB");
    assert_eq!(type_str(SqlType::Json), "JSON");
    assert_eq!(type_str(SqlType::Uuid), "CHAR(36)");
}

#[test]
fn lacks_returning_filter_and_full_join() {
    let dialect = MySqlDialect::new();
    assert!(!dialect.supports_returning());
    assert!(!dialect.supports_filter_clause());
    assert!(!dialect.supports_full_join());
}

#[test]
fn savepoint_release_uses_savepoint_keyword() {
    let dialect = MySqlDialect::new();
    assert_eq!(dialect.release_sql("sp1"), "RELEASE SAVEPOINT sp1");
    assert_eq!(dialect.rollback_to_sql("sp1"), "ROLLBACK TO SAVEPOINT sp1");
}

#[test]
fn uses_named_user_locks_for_migrations() {
    let dialect = MySqlDialect::new();
    assert_eq!(
        dialect.acquire_migration_lock_sql(42).as_deref(),
        Some("SELECT GET_LOCK('tork_migration_42', 60)")
    );
    assert_eq!(
        dialect.release_migration_lock_sql(42).as_deref(),
        Some("SELECT RELEASE_LOCK('tork_migration_42')")
    );
    assert_eq!(dialect.max_bind_params(), 65535);
}

#[test]
fn mysql_string_literals_escape_backslashes() {
    let dialect = MySqlDialect::new();
    let mut out = String::new();
    dialect.escape_string_literal("it's a\\b", &mut out);
    assert_eq!(out, "'it''s a\\\\b'");
    let mut ty = String::new();
    dialect.map_sql_type(
        SqlType::Enum { name: "status".into(), variants: vec!["on".into(), "o'ff".into()] },
        &mut ty,
    );
    assert_eq!(ty, "ENUM('on', 'o''ff')");
}
