//! The SQLite dialect.

use vstd::prelude::*;

use super::{Dialect, DialectKind};

verus! {

/// SQL generation for SQLite.
///
/// SQLite quotes identifiers with double quotes, uses positional `?`
/// placeholders, and supports `RETURNING` from version 3.35.0 on. Its dynamic
/// typing means the abstract types map onto a small set of storage classes.
#[derive(Debug, Clone, Copy, Default)]
pub struct SqliteDialect;

impl SqliteDialect {
    /// Creates a SQLite dialect.
    pub fn new() -> (d: Self)
        ensures
            d.spec_kind() == DialectKind::Sqlite,
    {
        SqliteDialect
    }
}

/// The version number of the linked SQLite library (`rusqlite::version_number`,
/// `sqlite3_libversion_number`): major * 1000000 + minor * 1000 + patch.
///
/// The value depends on the library the program links, so nothing is stated of it.
#[verifier::external_body]
fn linked_sqlite_version() -> i32 {
    rusqlite::version_number()
}

/// Whether a SQLite library of version number `version` has `RETURNING`
/// (added in 3.35.0).
pub fn returning_supported_by(version: i32) -> (b: bool)
    ensures
        b == (version >= 3_035_000),
{
    version >= 3_035_000
}

impl Dialect for SqliteDialect {
    open spec fn spec_kind(&self) -> DialectKind {
        DialectKind::Sqlite
    }

    fn kind(&self) -> (k: DialectKind) {
        DialectKind::Sqlite
    }

    /// `RETURNING` was added in SQLite 3.35.0; a build linking an older system
    /// SQLite must fall back to a re-select.
    fn supports_returning(&self) -> (b: bool) {
        returning_supported_by(linked_sqlite_version())
    }
}

} // verus!
