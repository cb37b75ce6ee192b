//! The MySQL dialect.

use vstd::prelude::*;

use super::{Dialect, DialectKind};

verus! {

/// SQL generation for MySQL (and MariaDB).
///
/// MySQL quotes identifiers with backticks, uses positional `?` placeholders, has
/// no `RETURNING`, spells upserts as `ON DUPLICATE KEY UPDATE`, lacks the
/// aggregate `FILTER` clause (the writer emulates it with `CASE`) and
/// `FULL OUTER JOIN`, and takes a named user lock around migrations.
#[derive(Debug, Clone, Copy, Default)]
pub struct MySqlDialect;

impl MySqlDialect {
    /// Creates a MySQL dialect.
    pub fn new() -> (d: Self)
        ensures
            d.spec_kind() == DialectKind::Mysql,
    {
        MySqlDialect
    }
}

impl Dialect for MySqlDialect {
    open spec fn spec_kind(&self) -> DialectKind {
        DialectKind::Mysql
    }

    fn kind(&self) -> (k: DialectKind) {
        DialectKind::Mysql
    }

    fn supports_returning(&self) -> (b: bool) {
        false
    }
}

} // verus!
