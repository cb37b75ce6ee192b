//! The error type: kinds, messages and retry detection.

use tork_orm::error::{has_retry_marker, ErrorKind, OrmError};
use tork_orm::migration::files::is_destructive;

#[test]
fn kinds_have_stable_labels() {
    assert_eq!(ErrorKind::NotFound.as_str(), "not_found");
    assert_eq!(ErrorKind::Configuration.as_str(), "configuration");
    let e = OrmError::query("boom");
    assert_eq!(e.kind(), ErrorKind::Query);
    assert_eq!(e.to_display_string(), "query: boom");
    assert_eq!(OrmError::conflict("x").kind(), ErrorKind::Conflict);
    assert_eq!(OrmError::not_found("x").kind(), ErrorKind::NotFound);
    assert_eq!(OrmError::multiple_found("x").kind(), ErrorKind::MultipleFound);
    assert_eq!(OrmError::connection("x").kind(), ErrorKind::Connection);
}

#[test]
fn transient_failures_are_retryable_whatever_their_case() {
    assert!(OrmError::query("Database is LOCKED").is_retryable());
    assert!(OrmError::query("statement failed")
        .with_source(vec!["ERROR: DEADLOCK detected".into()])
        .is_retryable());
    assert!(OrmError::query("SQLSTATE 40P01").is_retryable());
    assert!(!OrmError::query("syntax error").is_retryable());
}

#[test]
fn destructive_statements_are_found_in_any_case() {
    assert!(is_destructive("drop table users;"));
    assert!(is_destructive("ALTER TABLE t Drop Column c;"));
    assert!(!is_destructive("CREATE TABLE drops (id INTEGER);"));
}

#[test]
fn retry_markers_are_found_in_lowered_text() {
    assert!(has_retry_marker("error: deadlock detected"));
    assert!(has_retry_marker("sqlstate 40001"));
    assert!(!has_retry_marker("Deadlock"));
    assert!(!has_retry_marker(""));
}
