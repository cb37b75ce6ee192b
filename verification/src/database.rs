//! Choosing a backend from a database URL, and where a SQLite URL points.
//!
//! The backend is chosen from the URL's scheme: `sqlite:` (or none) for SQLite,
//! `postgres:`/`postgresql:` for PostgreSQL, `mysql:`/`mariadb:` for MySQL.

use vstd::prelude::*;

use crate::dialect::DialectKind;
use crate::error::{ErrorKind, OrmError};
use crate::text::{
    chars_of, has_prefix, lemma_leading_count_unique, leading_count, push_str, str_eq, string_of_range,
    trim, trimmed, owned,
};

verus! {

/// The outcome of a statement that does not return rows.
#[derive(Debug, Clone, Copy, PartialEq, Eq, Structural)]
pub struct ExecuteResult {
    /// The number of rows the statement changed.
    pub rows_affected: u64,
    /// The row id of the most recent insert on this connection (`0` when none).
    pub last_insert_rowid: i64,
}

impl Default for ExecuteResult {
    fn default() -> (r: Self)
        ensures
            r.rows_affected == 0,
            r.last_insert_rowid == 0,
    {
        ExecuteResult { rows_affected: 0, last_insert_rowid: 0 }
    }
}

/// Whether `c` is not `:`.
pub open spec fn not_colon(c: char) -> bool {
    c != ':'
}

/// The scheme of a URL: the text before its first `:`, or nothing when it has
/// no `:`.
pub open spec fn url_scheme(url: Seq<char>) -> Seq<char> {
    let n = leading_count(url, |c: char| not_colon(c));
    if n < url.len() {
        url.take(n as int)
    } else {
        seq![]
    }
}

/// The backend a URL's scheme selects, if any.
pub open spec fn backend_of(url: Seq<char>) -> Option<DialectKind> {
    let s = url_scheme(url);
    if s == "sqlite"@ || s.len() == 0 {
        Some(DialectKind::Sqlite)
    } else if s == "postgres"@ || s == "postgresql"@ {
        Some(DialectKind::Postgres)
    } else if s == "mysql"@ || s == "mariadb"@ {
        Some(DialectKind::Mysql)
    } else {
        None
    }
}

/// A URL that starts with `p` and then `:`, where `p` holds no `:`, has
/// scheme `p`.
pub proof fn lemma_url_scheme_is(url: Seq<char>, p: Seq<char>)
    requires
        has_prefix(url, p + seq![':']),
        forall|i: int| 0 <= i < p.len() ==> p[i] != ':',
    ensures
        url_scheme(url) == p,
{
    let n = p.len() as int;
    assert(url.subrange(0, n + 1) == p + seq![':']);
    assert forall|k: int| 0 <= k < n implies not_colon(#[trigger] url[k]) by {
        assert(url[k] == url.subrange(0, n + 1)[k]);
        assert((p + seq![':'])[k] == p[k]);
    }
    assert(url[n] == url.subrange(0, n + 1)[n]);
    assert((p + seq![':'])[n] == ':');
    lemma_leading_count_unique(url, |c: char| not_colon(c), n);
    assert(url.take(n) =~= p) by {
        assert forall|k: int| 0 <= k < n implies url.take(n)[k] == p[k] by {
            assert(url[k] == url.subrange(0, n + 1)[k]);
            assert((p + seq![':'])[k] == p[k]);
        }
    }
}

/// A URL's scheme, the text before its first `:`, picks the backend:
/// `sqlite` for SQLite, `postgres` or `postgresql` for PostgreSQL, `mysql` or
/// `mariadb` for MySQL; a URL without any `:` is a SQLite path.
pub proof fn lemma_backend_by_scheme(url: Seq<char>)
    ensures
        has_prefix(url, "sqlite:"@) ==> backend_of(url) == Some(DialectKind::Sqlite),
        has_prefix(url, "postgres:"@) ==> backend_of(url) == Some(DialectKind::Postgres),
        has_prefix(url, "postgresql:"@) ==> backend_of(url) == Some(DialectKind::Postgres),
        has_prefix(url, "mysql:"@) ==> backend_of(url) == Some(DialectKind::Mysql),
        has_prefix(url, "mariadb:"@) ==> backend_of(url) == Some(DialectKind::Mysql),
        (forall|i: int| 0 <= i < url.len() ==> url[i] != ':') ==> backend_of(url) == Some(
            DialectKind::Sqlite,
        ),
{
    reveal_strlit("sqlite:");
    reveal_strlit("sqlite");
    reveal_strlit("postgres:");
    reveal_strlit("postgres");
    reveal_strlit("postgresql:");
    reveal_strlit("postgresql");
    reveal_strlit("mysql:");
    reveal_strlit("mysql");
    reveal_strlit("mariadb:");
    reveal_strlit("mariadb");
    if has_prefix(url, "sqlite:"@) {
        assert("sqlite:"@ =~= "sqlite"@ + seq![':']);
        lemma_url_scheme_is(url, "sqlite"@);
    }
    if has_prefix(url, "postgres:"@) {
        assert("postgres:"@ =~= "postgres"@ + seq![':']);
        lemma_url_scheme_is(url, "postgres"@);
    }
    if has_prefix(url, "postgresql:"@) {
        assert("postgresql:"@ =~= "postgresql"@ + seq![':']);
        lemma_url_scheme_is(url, "postgresql"@);
    }
    if has_prefix(url, "mysql:"@) {
        assert("mysql:"@ =~= "mysql"@ + seq![':']);
        lemma_url_scheme_is(url, "mysql"@);
    }
    if has_prefix(url, "mariadb:"@) {
        assert("mariadb:"@ =~= "mariadb"@ + seq![':']);
        lemma_url_scheme_is(url, "mariadb"@);
    }
    if forall|i: int| 0 <= i < url.len() ==> url[i] != ':' {
        assert forall|k: int| 0 <= k < url.len() implies not_colon(#[trigger] url[k]) by {}
        lemma_leading_count_unique(url, |c: char| not_colon(c), url.len() as int);
    }
}

/// The message for a URL whose scheme names no backend.
pub open spec fn unknown_scheme_message(scheme: Seq<char>) -> Seq<char> {
    "no compiled-in backend for url scheme `"@ + scheme + "`"@
}

/// The backend a database URL names, or a configuration error for an unknown
/// scheme.
pub fn backend_for_url(url: &str) -> (r: Result<DialectKind, OrmError>)
    ensures
        backend_of(url@) matches Some(k) ==> (r matches Ok(x) && x == k),
        backend_of(url@) is None ==> (r matches Err(e) && e.spec_kind() == ErrorKind::Configuration
            && e.spec_message() == unknown_scheme_message(url_scheme(url@))),
        has_prefix(url@, "sqlite:"@) ==> r == Ok::<DialectKind, OrmError>(DialectKind::Sqlite),
        has_prefix(url@, "postgres:"@) ==> r == Ok::<DialectKind, OrmError>(DialectKind::Postgres),
        has_prefix(url@, "postgresql:"@) ==> r == Ok::<DialectKind, OrmError>(
            DialectKind::Postgres,
        ),
        has_prefix(url@, "mysql:"@) ==> r == Ok::<DialectKind, OrmError>(DialectKind::Mysql),
        has_prefix(url@, "mariadb:"@) ==> r == Ok::<DialectKind, OrmError>(DialectKind::Mysql),
        (forall|i: int| 0 <= i < url@.len() ==> url@[i] != ':') ==> r == Ok::<
            DialectKind,
            OrmError,
        >(DialectKind::Sqlite),
{
    proof {
        lemma_backend_by_scheme(url@);
    }
    let chars = chars_of(url);
    let n = chars.len();
    let mut k: usize = 0;
    while k < n && chars[k] != ':'
        invariant
            k <= n == chars@.len(),
            forall|j: int| 0 <= j < k ==> chars@[j] != ':',
        decreases n - k,
    {
        k = k + 1;
    }
    proof {
        assert forall|j: int| 0 <= j < k implies not_colon(#[trigger] url@[j]) by {}
        lemma_leading_count_unique(url@, |c: char| not_colon(c), k as int);
    }
    let scheme = if k < n {
        string_of_range(&chars, 0, k)
    } else {
        String::new()
    };
    assert(scheme@ == url_scheme(url@));
    let s = scheme.as_str();
    if str_eq(s, "sqlite") || scheme.as_str().unicode_len() == 0 {
        Ok(DialectKind::Sqlite)
    } else if str_eq(s, "postgres") || str_eq(s, "postgresql") {
        Ok(DialectKind::Postgres)
    } else if str_eq(s, "mysql") || str_eq(s, "mariadb") {
        Ok(DialectKind::Mysql)
    } else {
        let mut message = owned("no compiled-in backend for url scheme `");
        push_str(&mut message, s);
        push_str(&mut message, "`");
        Err(OrmError::configuration(message.as_str()))
    }
}

/// Where a SQLite database lives.
#[derive(Debug)]
pub enum SqliteSource {
    /// A file-backed database at the given path.
    File(String),
    /// A private in-memory database.
    Memory,
}

/// The rest of a SQLite URL after an optional `sqlite://` or `sqlite:` scheme.
pub open spec fn sqlite_path_text(t: Seq<char>) -> Seq<char> {
    if has_prefix(t, "sqlite://"@) {
        t.skip(9)
    } else if has_prefix(t, "sqlite:"@) {
        t.skip(7)
    } else {
        t
    }
}

/// Where a SQLite URL points, read after trimming whitespace: `None` for an
/// empty URL, `Some(None)` for an in-memory database (`:memory:` or nothing after
/// the scheme), else `Some(Some(path))`.
pub open spec fn sqlite_target(url: Seq<char>) -> Option<Option<Seq<char>>> {
    let t = trim(url);
    if t.len() == 0 {
        None
    } else {
        let w = sqlite_path_text(t);
        if w == ":memory:"@ || w.len() == 0 {
            Some(None)
        } else {
            Some(Some(w))
        }
    }
}

/// Where a SQLite database URL points: `sqlite://path`, `sqlite:path`, a bare
/// path, `:memory:` or `sqlite::memory:`. An empty URL is a configuration error.
pub fn sqlite_source(url: &str) -> (r: Result<SqliteSource, OrmError>)
    ensures
        sqlite_target(url@) is None ==> (r matches Err(e) && e.spec_kind()
            == ErrorKind::Configuration && e.spec_message() == "database url is empty"@),
        sqlite_target(url@) == Some(None::<Seq<char>>) ==> (r matches Ok(s) && s is Memory),
        sqlite_target(url@) matches Some(Some(p)) ==> (r matches Ok(s) && s matches SqliteSource::File(
            f,
        ) && f@ == p),
{
    let t = trimmed(url);
    if t.as_str().unicode_len() == 0 {
        return Err(OrmError::configuration("database url is empty"));
    }
    let chars = chars_of(t.as_str());
    let n = chars.len();
    let rest = if crate::text::starts_with(t.as_str(), "sqlite://") {
        proof {
            reveal_strlit("sqlite://");
        }
        string_of_range(&chars, 9, n)
    } else if crate::text::starts_with(t.as_str(), "sqlite:") {
        proof {
            reveal_strlit("sqlite:");
        }
        string_of_range(&chars, 7, n)
    } else {
        t.clone()
    };
    assert(rest@ == sqlite_path_text(trim(url@)));
    if str_eq(rest.as_str(), ":memory:") || rest.as_str().unicode_len() == 0 {
        Ok(SqliteSource::Memory)
    } else {
        Ok(SqliteSource::File(rest))
    }
}

} // verus!
