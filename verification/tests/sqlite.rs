//! The SQLite dialect's capabilities.

use tork_orm::dialect::sqlite::returning_supported_by;
use tork_orm::dialect::{Dialect, SqliteDialect};

#[test]
fn returning_support_follows_the_runtime_sqlite_version() {
    // RETURNING needs SQLite 3.35.0+; the bundled library is well past that, so
    // it is reported as supported, matching the runtime version.
    let supported = SqliteDialect::new().supports_returning();
    assert_eq!(supported, rusqlite::version_number() >= 3_035_000);
    assert!(supported, "the bundled SQLite should support RETURNING");
}

#[test]
fn returning_arrived_in_3_35() {
    assert!(!returning_supported_by(3_034_999));
    assert!(returning_supported_by(3_035_000));
    assert_eq!(SqliteDialect::new().quoted("a\"b"), "\"a\"\"b\"");
}
