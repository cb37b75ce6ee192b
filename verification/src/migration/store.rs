//! The statements of the migration bookkeeping table.
//!
//! Applied migrations are recorded in one table (`_tork_migrations` by
//! default). Its schema and its reads and writes are rendered through the
//! dialect here, so they stay portable; running them is the caller's part.

use vstd::prelude::*;

use crate::dialect::{placeholder_text, quoted_identifier, Dialect, DialectKind, SqlType};
use crate::text::{owned, push_str};
use crate::value::Value;

use super::ddl::{ColumnSpec, TableDef};

verus! {

/// The schema of the bookkeeping table: an auto-increment `id`, a unique
/// `revision`, a nullable `down_revision`, and `name`, `checksum`, `batch`,
/// `applied_at` and `execution_time_ms`; created `IF NOT EXISTS`.
pub fn table_def(table: &str) -> (d: TableDef)
    ensures
        d.name@ == table@,
        d.if_not_exists,
        d.columns@.len() == 8,
        d.columns@[0].name@ == "id"@ && d.columns@[0].ty == SqlType::BigInt && d.columns@[0].primary_key
            && d.columns@[0].auto_increment,
        d.columns@[1].name@ == "revision"@ && d.columns@[1].ty == SqlType::Text && d.columns@[1].unique,
        d.columns@[2].name@ == "down_revision"@ && d.columns@[2].ty == SqlType::Text
            && d.columns@[2].nullable,
        d.columns@[3].name@ == "name"@ && d.columns@[3].ty == SqlType::Text,
        d.columns@[4].name@ == "checksum"@ && d.columns@[4].ty == SqlType::Text,
        d.columns@[5].name@ == "batch"@ && d.columns@[5].ty == SqlType::Integer,
        d.columns@[6].name@ == "applied_at"@ && d.columns@[6].ty == SqlType::Text,
        d.columns@[7].name@ == "execution_time_ms"@ && d.columns@[7].ty == SqlType::BigInt,
        forall|i: int| 1 <= i < 8 ==> !(#[trigger] d.columns@[i]).primary_key && !d.columns@[i].auto_increment,
        forall|i: int| 0 <= i < 8 && i != 2 ==> !(#[trigger] d.columns@[i]).nullable,
        forall|i: int| 0 <= i < 8 && i != 1 ==> !(#[trigger] d.columns@[i]).unique,
        forall|i: int| 0 <= i < 8 ==> (#[trigger] d.columns@[i]).default is None,
        d.primary_key@.len() == 0,
        d.foreign_keys@.len() == 0,
        d.checks@.len() == 0,
        d.indexes@.len() == 0,
{
    let mut def = TableDef::new(owned(table));
    def.if_not_exists = true;
    let mut id = ColumnSpec::new(owned("id"), SqlType::BigInt);
    id.primary_key = true;
    id.auto_increment = true;
    let mut revision = ColumnSpec::new(owned("revision"), SqlType::Text);
    revision.unique = true;
    let mut down_revision = ColumnSpec::new(owned("down_revision"), SqlType::Text);
    down_revision.nullable = true;
    def.columns.push(id);
    def.columns.push(revision);
    def.columns.push(down_revision);
    def.columns.push(ColumnSpec::new(owned("name"), SqlType::Text));
    def.columns.push(ColumnSpec::new(owned("checksum"), SqlType::Text));
    def.columns.push(ColumnSpec::new(owned("batch"), SqlType::Integer));
    def.columns.push(ColumnSpec::new(owned("applied_at"), SqlType::Text));
    def.columns.push(ColumnSpec::new(owned("execution_time_ms"), SqlType::BigInt));
    def
}

/// Reads every record: `SELECT "revision", "down_revision", "checksum" FROM "table"`.
pub fn applied_records_query<D: Dialect>(dialect: &D, table: &str) -> (s: String)
    ensures
        s@ == "SELECT "@ + quoted_identifier(dialect.spec_kind(), "revision"@) + ", "@
            + quoted_identifier(dialect.spec_kind(), "down_revision"@) + ", "@ + quoted_identifier(
            dialect.spec_kind(),
            "checksum"@,
        ) + " FROM "@ + quoted_identifier(dialect.spec_kind(), table@),
{
    let mut sql = owned("SELECT ");
    dialect.quote_identifier("revision", &mut sql);
    push_str(&mut sql, ", ");
    dialect.quote_identifier("down_revision", &mut sql);
    push_str(&mut sql, ", ");
    dialect.quote_identifier("checksum", &mut sql);
    push_str(&mut sql, " FROM ");
    dialect.quote_identifier(table, &mut sql);
    sql
}

/// Reads the recorded revisions, most recent first (by batch, then id).
pub fn recent_revisions_query<D: Dialect>(dialect: &D, table: &str) -> (s: String)
    ensures
        s@ == "SELECT "@ + quoted_identifier(dialect.spec_kind(), "revision"@) + " FROM "@
            + quoted_identifier(dialect.spec_kind(), table@) + " ORDER BY "@ + quoted_identifier(
            dialect.spec_kind(),
            "batch"@,
        ) + " DESC, "@ + quoted_identifier(dialect.spec_kind(), "id"@) + " DESC"@,
{
    let mut sql = owned("SELECT ");
    dialect.quote_identifier("revision", &mut sql);
    push_str(&mut sql, " FROM ");
    dialect.quote_identifier(table, &mut sql);
    push_str(&mut sql, " ORDER BY ");
    dialect.quote_identifier("batch", &mut sql);
    push_str(&mut sql, " DESC, ");
    dialect.quote_identifier("id", &mut sql);
    push_str(&mut sql, " DESC");
    sql
}

/// Reads the highest batch number.
pub fn max_batch_query<D: Dialect>(dialect: &D, table: &str) -> (s: String)
    ensures
        s@ == "SELECT MAX("@ + quoted_identifier(dialect.spec_kind(), "batch"@) + ") FROM "@
            + quoted_identifier(dialect.spec_kind(), table@),
{
    let mut sql = owned("SELECT MAX(");
    dialect.quote_identifier("batch", &mut sql);
    push_str(&mut sql, ") FROM ");
    dialect.quote_identifier(table, &mut sql);
    sql
}

/// The next batch number: one more than the highest recorded, or `1`.
pub fn next_batch(max: Option<i64>) -> (b: i64)
    requires
        max matches Some(m) ==> m < i64::MAX,
    ensures
        b == match max {
            Some(m) => m + 1,
            None => 1,
        },
{
    match max {
        Some(m) => m + 1,
        None => 1,
    }
}

/// The statement that records an applied migration and its bound values:
/// revision, down revision (or `NULL`), name, checksum, batch, the application
/// time (RFC 3339) and the execution time in milliseconds.
pub fn record_statement<D: Dialect>(
    dialect: &D,
    table: &str,
    revision: &str,
    down_revision: Option<&str>,
    name: &str,
    checksum: &str,
    batch: i64,
    applied_at: &str,
    execution_time_ms: i64,
) -> (r: (String, Vec<Value>))
    ensures
        r.0@ == "INSERT INTO "@ + quoted_identifier(dialect.spec_kind(), table@) + " ("@
            + record_columns_text(dialect.spec_kind()) + ") VALUES ("@ + record_placeholders(
            dialect.spec_kind(),
        ) + ")"@,
        r.1@.len() == 7,
        r.1@[0] matches Value::Text(t) && t@ == revision@,
        match down_revision {
            Some(d) => r.1@[1] matches Value::Text(t) && t@ == d@,
            None => r.1@[1] is Null,
        },
        r.1@[2] matches Value::Text(t) && t@ == name@,
        r.1@[3] matches Value::Text(t) && t@ == checksum@,
        r.1@[4] == Value::Int(batch),
        r.1@[5] matches Value::Text(t) && t@ == applied_at@,
        r.1@[6] == Value::Int(execution_time_ms),
{
    let mut sql = owned("INSERT INTO ");
    dialect.quote_identifier(table, &mut sql);
    push_str(&mut sql, " (");
    let ghost t0 = sql@;
    dialect.quote_identifier("revision", &mut sql);
    push_str(&mut sql, ", ");
    dialect.quote_identifier("down_revision", &mut sql);
    push_str(&mut sql, ", ");
    dialect.quote_identifier("name", &mut sql);
    push_str(&mut sql, ", ");
    dialect.quote_identifier("checksum", &mut sql);
    push_str(&mut sql, ", ");
    dialect.quote_identifier("batch", &mut sql);
    push_str(&mut sql, ", ");
    dialect.quote_identifier("applied_at", &mut sql);
    push_str(&mut sql, ", ");
    dialect.quote_identifier("execution_time_ms", &mut sql);
    assert(sql@ =~= t0 + record_columns_text(dialect.spec_kind()));
    push_str(&mut sql, ") VALUES (");
    let ghost t1 = sql@;
    let mut i: usize = 0;
    while i < 7
        invariant
            i <= 7,
            sql@ == t1 + placeholders_text(dialect.spec_kind(), i as nat),
        decreases 7 - i,
    {
        if i != 0 {
            push_str(&mut sql, ", ");
        }
        dialect.placeholder(i, &mut sql);
        i = i + 1;
    }
    push_str(&mut sql, ")");
    let mut values: Vec<Value> = Vec::new();
    values.push(Value::Text(owned(revision)));
    values.push(match down_revision {
        Some(d) => Value::Text(owned(d)),
        None => Value::Null,
    });
    values.push(Value::Text(owned(name)));
    values.push(Value::Text(owned(checksum)));
    values.push(Value::Int(batch));
    values.push(Value::Text(owned(applied_at)));
    values.push(Value::Int(execution_time_ms));
    (sql, values)
}

/// The quoted bookkeeping columns written by a record, joined by `", "`.
pub open spec fn record_columns_text(k: DialectKind) -> Seq<char> {
    quoted_identifier(k, "revision"@) + ", "@ + quoted_identifier(k, "down_revision"@) + ", "@
        + quoted_identifier(k, "name"@) + ", "@ + quoted_identifier(k, "checksum"@) + ", "@
        + quoted_identifier(k, "batch"@) + ", "@ + quoted_identifier(k, "applied_at"@) + ", "@
        + quoted_identifier(k, "execution_time_ms"@)
}

/// The placeholders for parameters `0..n`, joined by `", "`.
pub open spec fn placeholders_text(k: DialectKind, n: nat) -> Seq<char>
    decreases n,
{
    if n == 0 {
        seq![]
    } else if n == 1 {
        placeholder_text(k, 0)
    } else {
        placeholders_text(k, (n - 1) as nat) + ", "@ + placeholder_text(k, (n - 1) as nat)
    }
}

/// The seven placeholders of a record.
pub open spec fn record_placeholders(k: DialectKind) -> Seq<char> {
    placeholders_text(k, 7)
}

/// The statement that removes a reverted migration's record, and its bound
/// revision.
pub fn delete_record_statement<D: Dialect>(dialect: &D, table: &str, revision: &str) -> (r: (String, Vec<Value>))
    ensures
        r.0@ == "DELETE FROM "@ + quoted_identifier(dialect.spec_kind(), table@) + " WHERE "@
            + quoted_identifier(dialect.spec_kind(), "revision"@) + " = "@ + placeholder_text(
            dialect.spec_kind(),
            0,
        ),
        r.1@.len() == 1,
        r.1@[0] matches Value::Text(t) && t@ == revision@,
{
    let mut sql = owned("DELETE FROM ");
    dialect.quote_identifier(table, &mut sql);
    push_str(&mut sql, " WHERE ");
    dialect.quote_identifier("revision", &mut sql);
    push_str(&mut sql, " = ");
    dialect.placeholder(0, &mut sql);
    let mut values: Vec<Value> = Vec::new();
    values.push(Value::Text(owned(revision)));
    (sql, values)
}

} // verus!
