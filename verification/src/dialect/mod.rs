//! The dialect abstraction: everything backend-specific about generating SQL.
//!
//! A [`Dialect`] knows how to quote identifiers, write parameter placeholders, map
//! abstract column types to concrete SQL types, and spell the transaction and
//! savepoint statements. Every backend-specific spelling is stated once here as a
//! spec function of the [`DialectKind`]; the three dialects differ only in their
//! kind (and SQLite additionally in whether the linked library has `RETURNING`).

pub mod mysql;
pub mod postgres;
pub mod sqlite;
pub mod shape;
pub mod sql;
pub mod writer;

pub use mysql::MySqlDialect;
pub use postgres::PostgresDialect;
pub use sqlite::SqliteDialect;
pub use writer::{
    predicate_sql, quote_string_literal, quote_string_literal_mysql, render_count, render_delete,
    render_exists, render_expr, render_insert, render_select, render_union, render_update,
    QueryWriter,
};

use vstd::prelude::*;

use crate::text::{chars_of, decimal, owned, push_char, push_decimal, push_decimal_wide, push_signed_decimal, push_str, signed_decimal};

verus! {

/// Identifies a database backend.
#[derive(Debug, Clone, Copy, PartialEq, Eq, Structural)]
pub enum DialectKind {
    /// SQLite.
    Sqlite,
    /// PostgreSQL.
    Postgres,
    /// MySQL (and MariaDB).
    Mysql,
}

/// An abstract column type, independent of any backend.
#[derive(Debug)]
pub enum SqlType {
    /// A boolean.
    Boolean,
    /// A 32-bit signed integer.
    Integer,
    /// A 64-bit signed integer.
    BigInt,
    /// A double-precision floating point number.
    Real,
    /// Unbounded UTF-8 text.
    Text,
    /// Bounded UTF-8 text of at most the given length.
    Varchar(u32),
    /// A timestamp with time zone.
    Timestamp,
    /// Raw bytes.
    Blob,
    /// A JSON document.
    Json,
    /// A UUID.
    Uuid,
    /// An array of the given element type.
    Array(Box<SqlType>),
    /// A text column constrained to a fixed set of values.
    Enum {
        /// The enum's name.
        name: String,
        /// The allowed stored values, in declaration order.
        variants: Vec<String>,
    },
}

/// A copy of the strings `v`.
pub fn clone_strings(v: &Vec<String>) -> (r: Vec<String>)
    ensures
        r@ == v@,
{
    let mut r: Vec<String> = Vec::new();
    let mut i: usize = 0;
    while i < v.len()
        invariant
            i <= v@.len(),
            r@ == v@.take(i as int),
        decreases v@.len() - i,
    {
        r.push(v[i].clone());
        i = i + 1;
    }
    assert(v@.take(i as int) == v@);
    r
}

/// Whether two column types are the same type (enum variant lists compared by
/// their contents).
pub open spec fn same_type(a: SqlType, b: SqlType) -> bool
    decreases a,
{
    match (a, b) {
        (SqlType::Array(x), SqlType::Array(y)) => same_type(*x, *y),
        (SqlType::Enum { name: n1, variants: v1 }, SqlType::Enum { name: n2, variants: v2 }) => n1@
            == n2@ && v1@ == v2@,
        (SqlType::Array(_), _) => false,
        (SqlType::Enum { .. }, _) => false,
        _ => a == b,
    }
}

/// Types that are the same are spelled the same by every dialect.
pub proof fn lemma_same_type_text(k: DialectKind, a: SqlType, b: SqlType)
    requires
        same_type(a, b),
    ensures
        type_text(k, a) == type_text(k, b),
    decreases a,
{
    match (a, b) {
        (SqlType::Array(x), SqlType::Array(y)) => {
            lemma_same_type_text(k, *x, *y);
        },
        _ => {},
    }
}

impl Clone for SqlType {
    fn clone(&self) -> (r: Self)
        ensures
            same_type(r, *self),
        decreases self,
    {
        match self {
            SqlType::Boolean => SqlType::Boolean,
            SqlType::Integer => SqlType::Integer,
            SqlType::BigInt => SqlType::BigInt,
            SqlType::Real => SqlType::Real,
            SqlType::Text => SqlType::Text,
            SqlType::Varchar(n) => SqlType::Varchar(*n),
            SqlType::Timestamp => SqlType::Timestamp,
            SqlType::Blob => SqlType::Blob,
            SqlType::Json => SqlType::Json,
            SqlType::Uuid => SqlType::Uuid,
            SqlType::Array(inner) => SqlType::Array(Box::new((**inner).clone())),
            SqlType::Enum { name, variants } => SqlType::Enum {
                name: name.clone(),
                variants: clone_strings(variants),
            },
        }
    }
}

/// How a transaction locks the database when it begins.
#[derive(Debug, Clone, Copy, PartialEq, Eq, Structural)]
pub enum IsolationLevel {
    /// Take locks lazily (the default).
    Deferred,
    /// Take a write lock immediately.
    Immediate,
    /// Take an exclusive lock immediately.
    Exclusive,
}

// ---------------------------------------------------------------------------
// The backend spellings
// ---------------------------------------------------------------------------

/// The dialect's stable name.
pub open spec fn dialect_name(k: DialectKind) -> Seq<char> {
    match k {
        DialectKind::Sqlite => "sqlite"@,
        DialectKind::Postgres => "postgres"@,
        DialectKind::Mysql => "mysql"@,
    }
}

/// The character that opens and closes a quoted identifier.
pub open spec fn quote_char(k: DialectKind) -> char {
    if k == DialectKind::Mysql {
        '`'
    } else {
        '"'
    }
}

/// `s` with every `q` doubled.
pub open spec fn doubled(s: Seq<char>, q: char) -> Seq<char>
    decreases s.len(),
{
    if s.len() == 0 {
        seq![]
    } else if s.last() == q {
        doubled(s.drop_last(), q).push(q).push(q)
    } else {
        doubled(s.drop_last(), q).push(s.last())
    }
}

/// A quoted identifier: the quote character, the name with embedded quote
/// characters doubled, and the quote character again.
pub open spec fn quoted_identifier(k: DialectKind, name: Seq<char>) -> Seq<char> {
    seq![quote_char(k)] + doubled(name, quote_char(k)) + seq![quote_char(k)]
}

/// The placeholder for the zero-based parameter `index`: `$index+1` on
/// PostgreSQL, `?` elsewhere.
pub open spec fn placeholder_text(k: DialectKind, index: nat) -> Seq<char> {
    if k == DialectKind::Postgres {
        seq!['$'] + decimal(index + 1)
    } else {
        seq!['?']
    }
}

/// The body of a single-quoted literal: `'` doubled and, when `backslash`,
/// `\` doubled too.
pub open spec fn literal_body(s: Seq<char>, backslash: bool) -> Seq<char>
    decreases s.len(),
{
    if s.len() == 0 {
        seq![]
    } else {
        let c = s.last();
        let front = literal_body(s.drop_last(), backslash);
        if c == '\'' {
            front.push('\'').push('\'')
        } else if c == '\\' && backslash {
            front.push('\\').push('\\')
        } else {
            front.push(c)
        }
    }
}

/// A single-quoted SQL string literal.
pub open spec fn string_literal(s: Seq<char>, backslash: bool) -> Seq<char> {
    seq!['\''] + literal_body(s, backslash) + seq!['\'']
}

/// The string literal the dialect writes for inline text: MySQL also escapes
/// backslashes, the others double quotes only.
pub open spec fn escaped_literal(k: DialectKind, s: Seq<char>) -> Seq<char> {
    string_literal(s, k == DialectKind::Mysql)
}

/// The variant list of a MySQL `ENUM(...)`: quoted literals joined by `", "`.
pub open spec fn enum_variants_text(variants: Seq<String>) -> Seq<char>
    decreases variants.len(),
{
    if variants.len() == 0 {
        seq![]
    } else if variants.len() == 1 {
        string_literal(variants[0]@, false)
    } else {
        enum_variants_text(variants.drop_last()) + ", "@ + string_literal(variants.last()@, false)
    }
}

/// The concrete column type the dialect spells for `ty`.
pub open spec fn type_text(k: DialectKind, ty: SqlType) -> Seq<char>
    decreases ty,
{
    match ty {
        SqlType::Boolean => match k {
            DialectKind::Mysql => "TINYINT(1)"@,
            _ => "BOOLEAN"@,
        },
        SqlType::Integer => match k {
            DialectKind::Mysql => "INT"@,
            _ => "INTEGER"@,
        },
        SqlType::BigInt => "BIGINT"@,
        SqlType::Real => match k {
            DialectKind::Sqlite => "REAL"@,
            DialectKind::Postgres => "DOUBLE PRECISION"@,
            DialectKind::Mysql => "DOUBLE"@,
        },
        SqlType::Text => "TEXT"@,
        SqlType::Varchar(n) => "VARCHAR("@ + decimal(n as nat) + seq![')'],
        SqlType::Timestamp => match k {
            DialectKind::Sqlite => "TIMESTAMP"@,
            DialectKind::Postgres => "TIMESTAMP WITH TIME ZONE"@,
            DialectKind::Mysql => "DATETIME"@,
        },
        SqlType::Blob => match k {
            DialectKind::Postgres => "BYTEA"@,
            _ => "BLOB"@,
        },
        SqlType::Json => match k {
            DialectKind::Sqlite => "TEXT"@,
            DialectKind::Postgres => "JSONB"@,
            DialectKind::Mysql => "JSON"@,
        },
        SqlType::Uuid => match k {
            DialectKind::Sqlite => "TEXT"@,
            DialectKind::Postgres => "UUID"@,
            DialectKind::Mysql => "CHAR(36)"@,
        },
        SqlType::Array(inner) => match k {
            DialectKind::Postgres => type_text(k, *inner) + "[]"@,
            _ => "TEXT"@,
        },
        SqlType::Enum { name, variants } => match k {
            DialectKind::Sqlite => "TEXT"@,
            DialectKind::Postgres => "VARCHAR(255)"@,
            DialectKind::Mysql => "ENUM("@ + enum_variants_text(variants@) + seq![')'],
        },
    }
}

/// The statement that begins a transaction.
pub open spec fn begin_text(k: DialectKind) -> Seq<char> {
    if k == DialectKind::Mysql {
        "START TRANSACTION"@
    } else {
        "BEGIN"@
    }
}

/// The statement that begins a transaction at an isolation level.
pub open spec fn begin_with_text(k: DialectKind, level: IsolationLevel) -> Seq<char> {
    match k {
        DialectKind::Sqlite => match level {
            IsolationLevel::Deferred => "BEGIN DEFERRED"@,
            IsolationLevel::Immediate => "BEGIN IMMEDIATE"@,
            IsolationLevel::Exclusive => "BEGIN EXCLUSIVE"@,
        },
        DialectKind::Postgres => "BEGIN ISOLATION LEVEL "@ + match level {
            IsolationLevel::Deferred => "READ COMMITTED"@,
            IsolationLevel::Immediate => "REPEATABLE READ"@,
            IsolationLevel::Exclusive => "SERIALIZABLE"@,
        },
        DialectKind::Mysql => "START TRANSACTION"@,
    }
}

/// The statement that releases a savepoint.
pub open spec fn release_text(k: DialectKind, name: Seq<char>) -> Seq<char> {
    if k == DialectKind::Mysql {
        "RELEASE SAVEPOINT "@ + name
    } else {
        "RELEASE "@ + name
    }
}

/// The statement that rolls back to a savepoint.
pub open spec fn rollback_to_text(k: DialectKind, name: Seq<char>) -> Seq<char> {
    if k == DialectKind::Mysql {
        "ROLLBACK TO SAVEPOINT "@ + name
    } else {
        "ROLLBACK TO "@ + name
    }
}

/// The inline literal for a boolean: `true`/`false` on PostgreSQL, `1`/`0`
/// elsewhere.
pub open spec fn bool_text(k: DialectKind, value: bool) -> Seq<char> {
    if k == DialectKind::Postgres {
        if value {
            "true"@
        } else {
            "false"@
        }
    } else if value {
        "1"@
    } else {
        "0"@
    }
}

/// Whether the backend has the index method, covering-column and operator-class
/// features (PostgreSQL only).
pub open spec fn has_index_features(k: DialectKind) -> bool {
    k == DialectKind::Postgres
}

/// The statement that takes the migration lock with `key`, if the backend has one.
pub open spec fn lock_text(k: DialectKind, key: int) -> Option<Seq<char>> {
    if k == DialectKind::Mysql {
        Some("SELECT GET_LOCK('tork_migration_"@ + signed_decimal(key) + "', 60)"@)
    } else {
        None
    }
}

/// The statement that releases the migration lock with `key`, if any.
pub open spec fn unlock_text(k: DialectKind, key: int) -> Option<Seq<char>> {
    if k == DialectKind::Mysql {
        Some("SELECT RELEASE_LOCK('tork_migration_"@ + signed_decimal(key) + "')"@)
    } else {
        None
    }
}

// ---------------------------------------------------------------------------
// Quoting laws
// ---------------------------------------------------------------------------

proof fn lemma_doubled_ends(s: Seq<char>, q: char)
    ensures
        (s.len() == 0) == (doubled(s, q).len() == 0),
        s.len() > 0 ==> doubled(s, q).last() == s.last(),
        s.len() > 0 && s.last() == q ==> doubled(s, q).drop_last().drop_last() == doubled(
            s.drop_last(),
            q,
        ),
        s.len() > 0 && s.last() != q ==> doubled(s, q).drop_last() == doubled(s.drop_last(), q),
{
    if s.len() > 0 {
        let d = doubled(s.drop_last(), q);
        if s.last() == q {
            assert(d.push(q).push(q).drop_last().drop_last() == d);
        } else {
            assert(d.push(s.last()).drop_last() == d);
        }
    }
}

proof fn lemma_doubled_injective(a: Seq<char>, b: Seq<char>, q: char)
    requires
        doubled(a, q) == doubled(b, q),
    ensures
        a == b,
    decreases a.len(),
{
    lemma_doubled_ends(a, q);
    lemma_doubled_ends(b, q);
    if a.len() > 0 {
        lemma_doubled_injective(a.drop_last(), b.drop_last(), q);
        assert(a == a.drop_last().push(a.last()));
        assert(b == b.drop_last().push(b.last()));
    } else {
        assert(b.len() == 0);
        assert(a == b);
    }
}

/// Quoting identifiers loses nothing: two different names never quote to the
/// same text in any dialect, because an embedded quote character is doubled and
/// so cannot end the identifier early.
pub proof fn lemma_quoted_identifier_injective(k: DialectKind, a: Seq<char>, b: Seq<char>)
    requires
        quoted_identifier(k, a) == quoted_identifier(k, b),
    ensures
        a == b,
{
    let q = quote_char(k);
    let qa = quoted_identifier(k, a);
    let qb = quoted_identifier(k, b);
    assert(doubled(a, q) == qa.subrange(1, qa.len() - 1));
    assert(doubled(b, q) == qb.subrange(1, qb.len() - 1));
    lemma_doubled_injective(a, b, q);
}

proof fn lemma_literal_body_ends(s: Seq<char>, backslash: bool)
    ensures
        (s.len() == 0) == (literal_body(s, backslash).len() == 0),
        s.len() > 0 ==> literal_body(s, backslash).last() == s.last(),
        s.len() > 0 && (s.last() == '\'' || (s.last() == '\\' && backslash)) ==> literal_body(
            s,
            backslash,
        ).drop_last().drop_last() == literal_body(s.drop_last(), backslash),
        s.len() > 0 && !(s.last() == '\'' || (s.last() == '\\' && backslash)) ==> literal_body(
            s,
            backslash,
        ).drop_last() == literal_body(s.drop_last(), backslash),
{
    if s.len() > 0 {
        let d = literal_body(s.drop_last(), backslash);
        let c = s.last();
        if c == '\'' || (c == '\\' && backslash) {
            assert(d.push(c).push(c).drop_last().drop_last() == d);
        } else {
            assert(d.push(c).drop_last() == d);
        }
    }
}

proof fn lemma_literal_body_injective(a: Seq<char>, b: Seq<char>, backslash: bool)
    requires
        literal_body(a, backslash) == literal_body(b, backslash),
    ensures
        a == b,
    decreases a.len(),
{
    lemma_literal_body_ends(a, backslash);
    lemma_literal_body_ends(b, backslash);
    if a.len() > 0 {
        lemma_literal_body_injective(a.drop_last(), b.drop_last(), backslash);
        assert(a == a.drop_last().push(a.last()));
        assert(b == b.drop_last().push(b.last()));
    } else {
        assert(b.len() == 0);
        assert(a == b);
    }
}

/// Inlining text as a string literal loses nothing: two different texts never
/// give the same literal, with or without backslash escaping, because an
/// embedded quote (and, when escaping, a backslash) is doubled and so cannot end
/// the literal early.
pub proof fn lemma_string_literal_injective(a: Seq<char>, b: Seq<char>, backslash: bool)
    requires
        string_literal(a, backslash) == string_literal(b, backslash),
    ensures
        a == b,
{
    let la = string_literal(a, backslash);
    let lb = string_literal(b, backslash);
    assert(literal_body(a, backslash) == la.subrange(1, la.len() - 1));
    assert(literal_body(b, backslash) == lb.subrange(1, lb.len() - 1));
    lemma_literal_body_injective(a, b, backslash);
}

// ---------------------------------------------------------------------------
// Executable spellings
// ---------------------------------------------------------------------------

/// Appends `name` quoted for `kind`.
pub fn write_quoted(kind: DialectKind, name: &str, out: &mut String)
    ensures
        final(out)@ == old(out)@ + quoted_identifier(kind, name@),
{
    let q = if kind == DialectKind::Mysql {
        '`'
    } else {
        '"'
    };
    let ghost start = out@;
    push_char(out, q);
    let chars = chars_of(name);
    let mut i: usize = 0;
    while i < chars.len()
        invariant
            i <= chars@.len(),
            chars@ == name@,
            q == quote_char(kind),
            out@ == start + seq![q] + doubled(chars@.take(i as int), q),
        decreases chars@.len() - i,
    {
        let c = chars[i];
        assert(chars@.take(i + 1).drop_last() == chars@.take(i as int));
        if c == q {
            push_char(out, q);
            push_char(out, q);
        } else {
            push_char(out, c);
        }
        i = i + 1;
    }
    assert(chars@.take(i as int) == name@);
    push_char(out, q);
}

/// Appends the single-quoted literal of `value` (see [`string_literal`]).
pub fn write_string_literal(value: &str, out: &mut String, backslash: bool)
    ensures
        final(out)@ == old(out)@ + string_literal(value@, backslash),
{
    let ghost start = out@;
    push_char(out, '\'');
    let chars = chars_of(value);
    let mut i: usize = 0;
    while i < chars.len()
        invariant
            i <= chars@.len(),
            chars@ == value@,
            out@ == start + seq!['\''] + literal_body(chars@.take(i as int), backslash),
        decreases chars@.len() - i,
    {
        let c = chars[i];
        assert(chars@.take(i + 1).drop_last() == chars@.take(i as int));
        if c == '\'' {
            push_char(out, '\'');
            push_char(out, '\'');
        } else if c == '\\' && backslash {
            push_char(out, '\\');
            push_char(out, '\\');
        } else {
            push_char(out, c);
        }
        i = i + 1;
    }
    assert(chars@.take(i as int) == value@);
    push_char(out, '\'');
}

/// Appends the concrete column type for `ty` under `kind`.
pub fn write_type(kind: DialectKind, ty: &SqlType, out: &mut String)
    ensures
        final(out)@ == old(out)@ + type_text(kind, *ty),
    decreases ty,
{
    match ty {
        SqlType::Boolean => match kind {
            DialectKind::Mysql => push_str(out, "TINYINT(1)"),
            _ => push_str(out, "BOOLEAN"),
        },
        SqlType::Integer => match kind {
            DialectKind::Mysql => push_str(out, "INT"),
            _ => push_str(out, "INTEGER"),
        },
        SqlType::BigInt => push_str(out, "BIGINT"),
        SqlType::Real => match kind {
            DialectKind::Sqlite => push_str(out, "REAL"),
            DialectKind::Postgres => push_str(out, "DOUBLE PRECISION"),
            DialectKind::Mysql => push_str(out, "DOUBLE"),
        },
        SqlType::Text => push_str(out, "TEXT"),
        SqlType::Varchar(length) => {
            push_str(out, "VARCHAR(");
            push_decimal(out, *length as u64);
            push_char(out, ')');
        },
        SqlType::Timestamp => match kind {
            DialectKind::Sqlite => push_str(out, "TIMESTAMP"),
            DialectKind::Postgres => push_str(out, "TIMESTAMP WITH TIME ZONE"),
            DialectKind::Mysql => push_str(out, "DATETIME"),
        },
        SqlType::Blob => match kind {
            DialectKind::Postgres => push_str(out, "BYTEA"),
            _ => push_str(out, "BLOB"),
        },
        SqlType::Json => match kind {
            DialectKind::Sqlite => push_str(out, "TEXT"),
            DialectKind::Postgres => push_str(out, "JSONB"),
            DialectKind::Mysql => push_str(out, "JSON"),
        },
        SqlType::Uuid => match kind {
            DialectKind::Sqlite => push_str(out, "TEXT"),
            DialectKind::Postgres => push_str(out, "UUID"),
            DialectKind::Mysql => push_str(out, "CHAR(36)"),
        },
        SqlType::Array(inner) => match kind {
            DialectKind::Postgres => {
                write_type(kind, inner, out);
                push_str(out, "[]");
            },
            _ => push_str(out, "TEXT"),
        },
        SqlType::Enum { name: _, variants } => match kind {
            DialectKind::Sqlite => push_str(out, "TEXT"),
            DialectKind::Postgres => push_str(out, "VARCHAR(255)"),
            DialectKind::Mysql => {
                push_str(out, "ENUM(");
                let ghost start = out@;
                let mut i: usize = 0;
                while i < variants.len()
                    invariant
                        i <= variants@.len(),
                        out@ == start + enum_variants_text(variants@.take(i as int)),
                    decreases variants@.len() - i,
                {
                    assert(variants@.take(i + 1).drop_last() == variants@.take(i as int));
                    if i > 0 {
                        push_str(out, ", ");
                    }
                    write_string_literal(variants[i].as_str(), out, false);
                    i = i + 1;
                }
                assert(variants@.take(i as int) == variants@);
                push_char(out, ')');
            },
        },
    }
}

/// Generates backend-specific SQL.
///
/// An implementor names its backend through [`Dialect::kind`]; every spelling
/// follows from the kind. SQLite additionally decides `RETURNING` support from
/// the linked library.
pub trait Dialect {
    /// The backend this dialect targets.
    spec fn spec_kind(&self) -> DialectKind;

    /// Returns which backend this dialect targets.
    fn kind(&self) -> (k: DialectKind)
        ensures
            k == self.spec_kind(),
    ;

    /// Returns `true` if the backend supports `INSERT ... RETURNING`.
    fn supports_returning(&self) -> (b: bool)
        ensures
            self.spec_kind() == DialectKind::Postgres ==> b,
            self.spec_kind() == DialectKind::Mysql ==> !b,
    ;

    /// Returns the dialect's stable name, for diagnostics.
    fn name(&self) -> (s: &'static str)
        ensures
            s@ == dialect_name(self.spec_kind()),
    {
        match self.kind() {
            DialectKind::Sqlite => "sqlite",
            DialectKind::Postgres => "postgres",
            DialectKind::Mysql => "mysql",
        }
    }

    /// Writes a quoted identifier (table or column name) into `out`, doubling any
    /// embedded quote character so it cannot terminate the identifier.
    fn quote_identifier(&self, identifier: &str, out: &mut String)
        ensures
            final(out)@ == old(out)@ + quoted_identifier(self.spec_kind(), identifier@),
    {
        write_quoted(self.kind(), identifier, out)
    }

    /// Writes the placeholder for the parameter at `index` (zero-based) into `out`.
    fn placeholder(&self, index: usize, out: &mut String)
        ensures
            final(out)@ == old(out)@ + placeholder_text(self.spec_kind(), index as nat),
    {
        if self.kind() == DialectKind::Postgres {
            push_char(out, '$');
            push_decimal_wide(out, (index as u128) + 1);
        } else {
            push_char(out, '?');
        }
    }

    /// Writes the backend's concrete column type for an abstract [`SqlType`].
    fn map_sql_type(&self, ty: SqlType, out: &mut String)
        ensures
            final(out)@ == old(out)@ + type_text(self.spec_kind(), ty),
    {
        write_type(self.kind(), &ty, out)
    }

    /// Writes `value` as a single-quoted string literal for inline SQL.
    fn escape_string_literal(&self, value: &str, out: &mut String)
        ensures
            final(out)@ == old(out)@ + escaped_literal(self.spec_kind(), value@),
    {
        let backslash = self.kind() == DialectKind::Mysql;
        write_string_literal(value, out, backslash)
    }

    /// Returns a quoted identifier as an owned `String`.
    fn quoted(&self, identifier: &str) -> (s: String)
        ensures
            s@ == quoted_identifier(self.spec_kind(), identifier@),
    {
        let mut out = String::new();
        self.quote_identifier(identifier, &mut out);
        out
    }

    /// The statement that begins a transaction.
    fn begin_sql(&self) -> (s: &'static str)
        ensures
            s@ == begin_text(self.spec_kind()),
    {
        if self.kind() == DialectKind::Mysql {
            "START TRANSACTION"
        } else {
            "BEGIN"
        }
    }

    /// The statement that begins a transaction with the given isolation level.
    fn begin_with_sql(&self, level: IsolationLevel) -> (s: String)
        ensures
            s@ == begin_with_text(self.spec_kind(), level),
    {
        match self.kind() {
            DialectKind::Sqlite => match level {
                IsolationLevel::Deferred => owned("BEGIN DEFERRED"),
                IsolationLevel::Immediate => owned("BEGIN IMMEDIATE"),
                IsolationLevel::Exclusive => owned("BEGIN EXCLUSIVE"),
            },
            DialectKind::Postgres => {
                let mut s = owned("BEGIN ISOLATION LEVEL ");
                match level {
                    IsolationLevel::Deferred => push_str(&mut s, "READ COMMITTED"),
                    IsolationLevel::Immediate => push_str(&mut s, "REPEATABLE READ"),
                    IsolationLevel::Exclusive => push_str(&mut s, "SERIALIZABLE"),
                }
                s
            },
            DialectKind::Mysql => owned("START TRANSACTION"),
        }
    }

    /// The statement that commits a transaction.
    fn commit_sql(&self) -> (s: &'static str)
        ensures
            s@ == "COMMIT"@,
    {
        "COMMIT"
    }

    /// The statement that rolls back a transaction.
    fn rollback_sql(&self) -> (s: &'static str)
        ensures
            s@ == "ROLLBACK"@,
    {
        "ROLLBACK"
    }

    /// The statement that creates a savepoint with the given name.
    fn savepoint_sql(&self, name: &str) -> (s: String)
        ensures
            s@ == "SAVEPOINT "@ + name@,
    {
        let mut s = owned("SAVEPOINT ");
        push_str(&mut s, name);
        s
    }

    /// The statement that releases (commits) a savepoint with the given name.
    fn release_sql(&self, name: &str) -> (s: String)
        ensures
            s@ == release_text(self.spec_kind(), name@),
    {
        let mut s = if self.kind() == DialectKind::Mysql {
            owned("RELEASE SAVEPOINT ")
        } else {
            owned("RELEASE ")
        };
        push_str(&mut s, name);
        s
    }

    /// The statement that rolls back to a savepoint without ending the transaction.
    fn rollback_to_sql(&self, name: &str) -> (s: String)
        ensures
            s@ == rollback_to_text(self.spec_kind(), name@),
    {
        let mut s = if self.kind() == DialectKind::Mysql {
            owned("ROLLBACK TO SAVEPOINT ")
        } else {
            owned("ROLLBACK TO ")
        };
        push_str(&mut s, name);
        s
    }

    /// Returns the literal for `value` as it appears inline in a boolean column.
    fn bool_literal(&self, value: bool) -> (s: &'static str)
        ensures
            s@ == bool_text(self.spec_kind(), value),
    {
        if self.kind() == DialectKind::Postgres {
            if value {
                "true"
            } else {
                "false"
            }
        } else if value {
            "1"
        } else {
            "0"
        }
    }

    /// Returns `true` if the backend supports choosing an index method (`USING`).
    fn supports_index_method(&self) -> (b: bool)
        ensures
            b == has_index_features(self.spec_kind()),
    {
        self.kind() == DialectKind::Postgres
    }

    /// Returns `true` if the backend supports covering columns on an index
    /// (`INCLUDE`).
    fn supports_index_include(&self) -> (b: bool)
        ensures
            b == has_index_features(self.spec_kind()),
    {
        self.kind() == DialectKind::Postgres
    }

    /// Returns `true` if the backend supports a per-column operator class on an
    /// index.
    fn supports_index_opclass(&self) -> (b: bool)
        ensures
            b == has_index_features(self.spec_kind()),
    {
        self.kind() == DialectKind::Postgres
    }

    /// Returns `true` if the backend has the aggregate `FILTER (WHERE ...)` clause
    /// (MySQL does not; the writer emulates it with `CASE`).
    fn supports_filter_clause(&self) -> (b: bool)
        ensures
            b == (self.spec_kind() != DialectKind::Mysql),
    {
        self.kind() != DialectKind::Mysql
    }

    /// Returns `true` if the backend has `FULL OUTER JOIN` (MySQL does not).
    fn supports_full_join(&self) -> (b: bool)
        ensures
            b == (self.spec_kind() != DialectKind::Mysql),
    {
        self.kind() != DialectKind::Mysql
    }

    /// Returns `true` if the backend has `DISTINCT ON (...)` (PostgreSQL only).
    fn supports_distinct_on(&self) -> (b: bool)
        ensures
            b == (self.spec_kind() == DialectKind::Postgres),
    {
        self.kind() == DialectKind::Postgres
    }

    /// Returns `true` if the backend has `FOR SHARE`, `OF`, `NOWAIT` and
    /// `SKIP LOCKED` on locking reads (PostgreSQL and MySQL).
    fn supports_lock_modifiers(&self) -> (b: bool)
        ensures
            b == (self.spec_kind() != DialectKind::Sqlite),
    {
        self.kind() != DialectKind::Sqlite
    }

    /// The most parameters one statement may bind: 65535 on PostgreSQL and MySQL
    /// (a 16-bit count in their protocols), 32766 on SQLite (its default
    /// `SQLITE_MAX_VARIABLE_NUMBER`).
    fn max_bind_params(&self) -> (n: usize)
        ensures
            self.spec_kind() == DialectKind::Sqlite ==> n == 32766,
            self.spec_kind() != DialectKind::Sqlite ==> n == 65535,
    {
        if self.kind() == DialectKind::Sqlite {
            32766
        } else {
            65535
        }
    }

    /// The statement that takes the migration lock identified by `key`, if the
    /// backend has one (a named user lock on MySQL).
    fn acquire_migration_lock_sql(&self, key: i64) -> (s: Option<String>)
        ensures
            s.is_some() == lock_text(self.spec_kind(), key as int).is_some(),
            s matches Some(t) ==> t@ == lock_text(self.spec_kind(), key as int).unwrap(),
    {
        if self.kind() == DialectKind::Mysql {
            let mut s = owned("SELECT GET_LOCK('tork_migration_");
            push_signed_decimal(&mut s, key);
            push_str(&mut s, "', 60)");
            Some(s)
        } else {
            None
        }
    }

    /// The statement that releases the migration lock identified by `key`.
    fn release_migration_lock_sql(&self, key: i64) -> (s: Option<String>)
        ensures
            s.is_some() == unlock_text(self.spec_kind(), key as int).is_some(),
            s matches Some(t) ==> t@ == unlock_text(self.spec_kind(), key as int).unwrap(),
    {
        if self.kind() == DialectKind::Mysql {
            let mut s = owned("SELECT RELEASE_LOCK('tork_migration_");
            push_signed_decimal(&mut s, key);
            push_str(&mut s, "')");
            Some(s)
        } else {
            None
        }
    }
}

} // verus!
