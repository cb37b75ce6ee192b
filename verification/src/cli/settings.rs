//! Resolving the database URL, migrations directory, and table from the flags,
//! the environment, and the project's `[package.metadata.tork]` configuration.

use vstd::prelude::*;

use crate::cli::args::{opt_view, GlobalArgs};
use crate::config::{Migrations, TorkConfig};
use crate::error::{ErrorKind, OrmError};
use crate::text::owned;

verus! {

/// The resolved configuration for a command.
pub struct Config {
    /// The database URL, if one was provided.
    pub database_url: Option<String>,
    /// The migrations directory.
    pub dir: String,
    /// The bookkeeping table name.
    pub table: String,
    /// Migration file-naming settings from `[package.metadata.tork.migrations]`.
    pub migrations: Migrations,
}

/// The first of two optional values that is present.
pub open spec fn first_given(a: Option<Seq<char>>, b: Option<Seq<char>>) -> Option<Seq<char>> {
    match a {
        Some(x) => Some(x),
        None => b,
    }
}

fn or_else_string(a: Option<String>, b: Option<String>) -> (r: Option<String>)
    ensures
        opt_view(r) == first_given(opt_view(a), opt_view(b)),
{
    match a {
        Some(x) => Some(x),
        None => b,
    }
}

impl Config {
    /// Resolves the configuration from the global flags, the environment's
    /// `DATABASE_URL` and `DB_URL`, and the project's configuration.
    ///
    /// The database URL comes from `--database-url`, then `DATABASE_URL`, then
    /// `DB_URL`. The directory is the `--dir` flag, then the configured
    /// `migrations.dir`. The table is the `--table` flag, else `_tork_migrations`.
    pub fn resolve(
        global: &GlobalArgs,
        env_database_url: Option<String>,
        env_db_url: Option<String>,
        project: TorkConfig,
    ) -> (c: Config)
        ensures
            opt_view(c.database_url) == first_given(
                opt_view(global.database_url),
                first_given(opt_view(env_database_url), opt_view(env_db_url)),
            ),
            c.dir@ == (match global.dir {
                Some(d) => d@,
                None => project.migrations.dir@,
            }),
            c.table@ == (match global.table {
                Some(t) => t@,
                None => "_tork_migrations"@,
            }),
            c.migrations == project.migrations,
    {
        let database_url = or_else_string(
            global.database_url.clone(),
            or_else_string(env_database_url, env_db_url),
        );
        let dir = match &global.dir {
            Some(d) => d.clone(),
            None => project.migrations.dir.clone(),
        };
        let table = match &global.table {
            Some(t) => t.clone(),
            None => owned("_tork_migrations"),
        };
        Config { database_url, dir, table, migrations: project.migrations }
    }

    /// The database URL, or a configuration error explaining how to provide one.
    pub fn require_database_url(&self) -> (r: Result<&str, OrmError>)
        ensures
            self.database_url matches Some(u) ==> (r matches Ok(s) && s@ == u@),
            self.database_url is None ==> (r matches Err(e) && e.spec_kind()
                == ErrorKind::Configuration && e.spec_message()
                == "no database URL; pass --database-url or set DATABASE_URL"@),
    {
        match &self.database_url {
            Some(u) => Ok(u.as_str()),
            None => Err(
                OrmError::configuration("no database URL; pass --database-url or set DATABASE_URL"),
            ),
        }
    }
}

} // verus!
