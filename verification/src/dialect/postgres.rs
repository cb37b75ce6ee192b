//! The PostgreSQL dialect.

use vstd::prelude::*;

use super::{Dialect, DialectKind};

verus! {

/// SQL generation for PostgreSQL.
///
/// PostgreSQL quotes identifiers with double quotes, uses numbered `$1`, `$2`
/// placeholders, has native `BOOLEAN`/`BYTEA`/timestamp types, supports
/// `RETURNING`, and offers the full set of index features (method, covering
/// columns, operator classes).
#[derive(Debug, Clone, Copy, Default)]
pub struct PostgresDialect;

impl PostgresDialect {
    /// Creates a PostgreSQL dialect.
    pub fn new() -> (d: Self)
        ensures
            d.spec_kind() == DialectKind::Postgres,
    {
        PostgresDialect
    }
}

impl Dialect for PostgresDialect {
    open spec fn spec_kind(&self) -> DialectKind {
        DialectKind::Postgres
    }

    fn kind(&self) -> (k: DialectKind) {
        DialectKind::Postgres
    }

    fn supports_returning(&self) -> (b: bool) {
        true
    }
}

} // verus!
