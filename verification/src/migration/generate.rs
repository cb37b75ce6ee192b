//! Generating a migration from the difference between models and the database.
//!
//! Each model's intended schema (its columns and indexes) is compared with what
//! the live database holds, and the statements that reconcile them are emitted.
//! For existing tables the diff covers stale indexes (`DROP INDEX`), columns
//! removed from the model (`DROP COLUMN`), notes for type or nullability changes
//! that need a table rebuild, columns added to the model (`ADD COLUMN`), and new
//! indexes. Absent tables are created in full with their indexes. Reading the
//! live schema is the caller's part; this module decides.

use vstd::prelude::*;

use crate::cli::scaffold::{is_lower_hex, new_revision, snake, snake_case};
use crate::dialect::sql::inline_text;
use crate::dialect::{
    lemma_quoted_identifier_injective, lemma_same_type_text, quoted_identifier, same_type, type_text, Dialect, DialectKind, SqlType,
};
use crate::error::{ErrorKind, OrmError};
use crate::index::IndexDef;
use crate::model::{ColumnDef, ColumnDefault};
use crate::text::{has_prefix, owned, push_str, starts_with, str_eq, trim, trim_start, trimmed};

use super::ddl::{AlterAction, AlterTable, ColumnSpec, DefaultValue, ForeignKeySpec, TableDef};
use super::files::{
    chain_order, forms_chain, head_revision, rev_of, to_uppercase, uppercase, MigrationFile,
};
use super::render::{
    alter_action_text, alter_table, column_body_text, column_type_str, auto_pk, auto_pk_names, checks_text, column_text, columns_text, create_index,
    create_table, default_text, drop_index, drop_index_text, drop_table, drop_table_text,
    enum_check_text, first_problem, fks_text, index_problem, index_text, pk_names,
    primary_key_names, table_text, uuid_default_text, views,
};

verus! {

/// The statements that reconcile the models with the database, in both
/// directions.
#[derive(Debug)]
pub struct SchemaChange {
    /// Statements to apply the change.
    pub up: Vec<String>,
    /// Statements to revert it, in reverse order.
    pub down: Vec<String>,
}

/// Whether a statement line is a SQL comment (`--` after leading whitespace).
pub open spec fn is_comment(s: Seq<char>) -> bool {
    has_prefix(trim_start(s), "--"@)
}

/// Whether a statement line is a comment.
pub fn comment_line(s: &str) -> (b: bool)
    ensures
        b == is_comment(s@),
{
    let t = crate::text::trim_start_string(s);
    starts_with(t.as_str(), "--")
}

impl SchemaChange {
    /// Returns `true` if there are no executable statements to apply: comment
    /// lines (informational notes) do not count.
    pub fn is_empty(&self) -> (b: bool)
        ensures
            b == forall|i: int| 0 <= i < self.up@.len() ==> is_comment(#[trigger] self.up@[i]@),
    {
        let mut i: usize = 0;
        while i < self.up.len()
            invariant
                i <= self.up@.len(),
                forall|j: int| 0 <= j < i ==> is_comment(#[trigger] self.up@[j]@),
            decreases self.up@.len() - i,
        {
            if !comment_line(self.up[i].as_str()) {
                return false;
            }
            i = i + 1;
        }
        true
    }
}

/// An index that currently exists on a table.
#[derive(Debug)]
pub struct ExistingIndex {
    /// The index name.
    pub name: String,
    /// Whether the index is unique.
    pub unique: bool,
}

/// A column that currently exists on a table.
#[derive(Debug)]
pub struct ExistingColumn {
    /// The column name.
    pub name: String,
    /// The declared type, as the database reports it.
    pub declared_type: String,
    /// Whether the column is `NOT NULL`.
    pub not_null: bool,
    /// Whether the column is (part of) the primary key.
    pub is_pk: bool,
}

/// What the database holds of one model's table.
#[derive(Debug)]
pub struct LiveTable {
    /// Whether the table exists.
    pub exists: bool,
    /// Its explicitly created indexes.
    pub indexes: Vec<ExistingIndex>,
    /// Its columns.
    pub columns: Vec<ExistingColumn>,
}

/// The full intended schema of a model's table.
#[derive(Debug)]
pub struct TableSchema {
    /// The table name.
    pub table: &'static str,
    /// The columns, in declaration order.
    pub columns: Vec<ColumnDef>,
    /// The declared indexes.
    pub indexes: Vec<IndexDef>,
    /// Table-level `CHECK` expressions.
    pub checks: Vec<&'static str>,
}

// ---------------------------------------------------------------------------
// The diff, stated
// ---------------------------------------------------------------------------

/// Whether the model declares an index named `name`.
pub open spec fn model_has_index(s: TableSchema, name: Seq<char>) -> bool {
    exists|i: int| 0 <= i < s.indexes@.len() && (#[trigger] s.indexes@[i]).name@ == name
}

/// Whether the database has an index named `name`.
pub open spec fn live_has_index(l: LiveTable, name: Seq<char>) -> bool {
    exists|i: int| 0 <= i < l.indexes@.len() && (#[trigger] l.indexes@[i]).name@ == name
}

/// Whether the model declares a column named `name`.
pub open spec fn model_has_column(s: TableSchema, name: Seq<char>) -> bool {
    exists|i: int| 0 <= i < s.columns@.len() && (#[trigger] s.columns@[i]).name@ == name
}

/// The last live column named `name`, if any.
pub open spec fn live_column(cols: Seq<ExistingColumn>, name: Seq<char>) -> Option<ExistingColumn>
    decreases cols.len(),
{
    if cols.len() == 0 {
        None
    } else if cols.last().name@ == name {
        Some(cols.last())
    } else {
        live_column(cols.drop_last(), name)
    }
}

/// The down note for an index that cannot be recreated.
pub open spec fn lost_index_note(name: Seq<char>) -> Seq<char> {
    "-- cannot recreate dropped index \""@ + name + "\" (its definition is unknown)"@
}

/// The note for a removed primary key column.
pub open spec fn pk_column_note(name: Seq<char>) -> Seq<char> {
    "-- NOTE: column \""@ + name
        + "\" was removed from the model but cannot be dropped automatically (primary key); rebuild the table manually"@
}

/// The note for a column added as nullable.
pub open spec fn nullable_note(name: Seq<char>) -> Seq<char> {
    "-- NOTE: column \""@ + name
        + "\" added as nullable; NOT NULL requires a default value for existing rows"@
}

/// `nullable` or `not null`.
pub open spec fn nullability_word(nullable: bool) -> Seq<char> {
    if nullable {
        "nullable"@
    } else {
        "not null"@
    }
}

/// The note for a column whose definition changed.
pub open spec fn changed_note(
    name: Seq<char>,
    model_type: Seq<char>,
    model_nullable: bool,
    declared: Seq<char>,
    not_null: bool,
) -> Seq<char> {
    "-- NOTE: column \""@ + name + "\" definition changed (model: "@ + model_type + " "@
        + nullability_word(model_nullable) + ", database: "@ + declared + " "@ + nullability_word(
        !not_null,
    ) + "); rebuild the table to apply the change"@
}

/// The statement that restores a dropped column: always nullable, with the
/// declared type (or `TEXT` when unknown).
pub open spec fn restore_text(k: DialectKind, table: Seq<char>, c: ExistingColumn) -> Seq<char> {
    "ALTER TABLE "@ + quoted_identifier(k, table) + " ADD COLUMN "@ + quoted_identifier(k, c.name@)
        + " "@ + if c.declared_type@.len() == 0 {
        "TEXT"@
    } else {
        c.declared_type@
    }
}

/// The DDL default of a model column default.
pub open spec fn ddl_default_matches(d: Option<DefaultValue>, m: Option<ColumnDefault>) -> bool {
    match (d, m) {
        (None, None) => true,
        (Some(DefaultValue::CurrentTimestamp), Some(ColumnDefault::CurrentTimestamp)) => true,
        (Some(DefaultValue::Uuid), Some(ColumnDefault::Uuid)) => true,
        (Some(DefaultValue::Raw(s)), Some(ColumnDefault::Raw(t))) => s@ == t@,
        _ => false,
    }
}

/// `spec` is the column a model column becomes in a new table.
pub open spec fn spec_of_column(spec: ColumnSpec, c: ColumnDef) -> bool {
    &&& spec.name@ == c.name@
    &&& same_type(spec.ty, c.sql_type)
    &&& spec.nullable == c.nullable
    &&& spec.primary_key == c.primary_key
    &&& spec.auto_increment == c.auto
    &&& !spec.unique
    &&& ddl_default_matches(spec.default, c.default)
}

/// `spec` is the nullable, key-less column added for a model column.
pub open spec fn added_spec_of_column(spec: ColumnSpec, c: ColumnDef) -> bool {
    &&& spec.name@ == c.name@
    &&& same_type(spec.ty, c.sql_type)
    &&& spec.nullable
    &&& !spec.primary_key
    &&& !spec.auto_increment
    &&& !spec.unique
    &&& ddl_default_matches(spec.default, c.default)
}

/// `fk` is the foreign key of a model column that references another table.
pub open spec fn fk_of_column(fk: ForeignKeySpec, c: ColumnDef) -> bool {
    match c.foreign_key {
        Some(r) => {
            &&& views(fk.columns@) == seq![c.name@]
            &&& fk.ref_table@ == r.table@
            &&& views(fk.ref_columns@) == seq![r.column@]
            &&& fk.on_delete == r.on_delete
            &&& fk.on_update == r.on_update
        },
        None => false,
    }
}

/// The columns of `cols` that reference another table.
pub open spec fn fk_columns(cols: Seq<ColumnDef>) -> Seq<ColumnDef>
    decreases cols.len(),
{
    if cols.len() == 0 {
        seq![]
    } else if cols.last().foreign_key is Some {
        fk_columns(cols.drop_last()).push(cols.last())
    } else {
        fk_columns(cols.drop_last())
    }
}

/// `d` is the table definition a model's schema becomes (without its indexes,
/// which are rendered separately).
pub open spec fn def_of_schema(d: TableDef, s: TableSchema) -> bool {
    &&& d.name@ == s.table@
    &&& !d.if_not_exists
    &&& d.columns@.len() == s.columns@.len()
    &&& forall|i: int| 0 <= i < s.columns@.len() ==> spec_of_column(#[trigger] d.columns@[i], s.columns@[i])
    &&& d.primary_key@.len() == 0
    &&& d.foreign_keys@.len() == fk_columns(s.columns@).len()
    &&& forall|i: int|
        0 <= i < d.foreign_keys@.len() ==> fk_of_column(#[trigger] d.foreign_keys@[i], fk_columns(s.columns@)[i])
    &&& d.checks@.len() == s.checks@.len()
    &&& forall|i: int| 0 <= i < s.checks@.len() ==> (#[trigger] d.checks@[i])@ == s.checks@[i]@
    &&& d.indexes@.len() == 0
}

/// The `ALTER TABLE ... DROP COLUMN` statement.
pub open spec fn drop_column_text(k: DialectKind, table: Seq<char>, name: Seq<char>) -> Seq<char> {
    "ALTER TABLE "@ + quoted_identifier(k, table) + " DROP COLUMN "@ + quoted_identifier(k, name)
}

/// The ` DEFAULT ...` clause of a model column default.
pub open spec fn default_clause(k: DialectKind, d: Option<ColumnDefault>) -> Seq<char> {
    match d {
        None => seq![],
        Some(ColumnDefault::CurrentTimestamp) => " DEFAULT "@ + "CURRENT_TIMESTAMP"@,
        Some(ColumnDefault::Uuid) => " DEFAULT "@ + uuid_default_text(k),
        Some(ColumnDefault::Raw(s)) => " DEFAULT "@ + s@,
    }
}

/// The `ALTER TABLE ... ADD COLUMN` statement for a model column, added
/// nullable and without key constraints.
pub open spec fn add_column_text(k: DialectKind, table: Seq<char>, c: ColumnDef) -> Seq<char> {
    "ALTER TABLE "@ + quoted_identifier(k, table) + " ADD COLUMN "@ + quoted_identifier(k, c.name@)
        + " "@ + type_text(k, c.sql_type) + default_clause(k, c.default) + enum_check_text(
        k,
        c.name@,
        c.sql_type,
    )
}

/// Stale indexes: dropped on the way up, noted on the way down.
pub open spec fn stale_r(k: DialectKind, s: TableSchema, idx: Seq<ExistingIndex>) -> (
    Seq<Seq<char>>,
    Seq<Seq<char>>,
)
    decreases idx.len(),
{
    if idx.len() == 0 {
        (seq![], seq![])
    } else {
        let p = stale_r(k, s, idx.drop_last());
        let name = idx.last().name@;
        if !model_has_index(s, name) {
            (p.0.push(drop_index_text(k, name, true)), p.1.push(lost_index_note(name)))
        } else {
            p
        }
    }
}

/// Columns removed from the model: dropped (and restored on the way down), or
/// noted when they are primary key columns.
pub open spec fn removed_r(k: DialectKind, s: TableSchema, cols: Seq<ExistingColumn>) -> (
    Seq<Seq<char>>,
    Seq<Seq<char>>,
)
    decreases cols.len(),
{
    if cols.len() == 0 {
        (seq![], seq![])
    } else {
        let p = removed_r(k, s, cols.drop_last());
        let c = cols.last();
        if !model_has_column(s, c.name@) {
            if c.is_pk {
                (p.0.push(pk_column_note(c.name@)), p.1)
            } else {
                (
                    p.0.push(drop_column_text(k, s.table@, c.name@)),
                    p.1.push(restore_text(k, s.table@, c)),
                )
            }
        } else {
            p
        }
    }
}

/// The note for a model column whose live definition differs, if any.
pub open spec fn change_note(k: DialectKind, c: ColumnDef, live: Seq<ExistingColumn>) -> Option<
    Seq<char>,
> {
    match live_column(live, c.name@) {
        Some(e) => if e.is_pk {
            None
        } else {
            let model_type = type_text(k, c.sql_type);
            let db_type = uppercase(trim(e.declared_type@));
            let type_changed = uppercase(model_type) != db_type && db_type.len() > 0;
            let nullability_changed = c.nullable == e.not_null;
            if type_changed || nullability_changed {
                Some(changed_note(c.name@, model_type, c.nullable, e.declared_type@, e.not_null))
            } else {
                None
            }
        },
        None => None,
    }
}

/// The notes for changed columns.
pub open spec fn changed_r(k: DialectKind, cols: Seq<ColumnDef>, live: Seq<ExistingColumn>) -> Seq<
    Seq<char>,
>
    decreases cols.len(),
{
    if cols.len() == 0 {
        seq![]
    } else {
        let p = changed_r(k, cols.drop_last(), live);
        match change_note(k, cols.last(), live) {
            Some(n) => p.push(n),
            None => p,
        }
    }
}

/// Columns new to the model: added (with a note when the model wants
/// `NOT NULL`), and dropped on the way down.
pub open spec fn added_r(k: DialectKind, table: Seq<char>, cols: Seq<ColumnDef>, live: Seq<ExistingColumn>) -> (
    Seq<Seq<char>>,
    Seq<Seq<char>>,
)
    decreases cols.len(),
{
    if cols.len() == 0 {
        (seq![], seq![])
    } else {
        let p = added_r(k, table, cols.drop_last(), live);
        let c = cols.last();
        if live_column(live, c.name@) is None {
            let up = if !c.nullable {
                p.0.push(nullable_note(c.name@))
            } else {
                p.0
            };
            (up.push(add_column_text(k, table, c)), p.1.push(drop_column_text(k, table, c.name@)))
        } else {
            p
        }
    }
}

/// Indexes new to the model: created, and dropped on the way down; the first
/// one the backend cannot create is the error.
pub open spec fn new_indexes_r(k: DialectKind, table: Seq<char>, idx: Seq<IndexDef>, live: LiveTable) -> Result<
    (Seq<Seq<char>>, Seq<Seq<char>>),
    Seq<char>,
>
    decreases idx.len(),
{
    if idx.len() == 0 {
        Ok((seq![], seq![]))
    } else {
        match new_indexes_r(k, table, idx.drop_last(), live) {
            Err(m) => Err(m),
            Ok(p) => {
                let x = idx.last();
                if live_has_index(live, x.name@) {
                    Ok(p)
                } else {
                    match index_problem(k, x) {
                        Some(m) => Err(m),
                        None => Ok(
                            (
                                p.0.push(index_text(k, table, x, false)),
                                p.1.push(drop_index_text(k, x.name@, true)),
                            ),
                        ),
                    }
                }
            },
        }
    }
}

/// The `CREATE TABLE` statement of a model's table.
pub open spec fn schema_table_text(k: DialectKind, s: TableSchema) -> Seq<char> {
    table_text(k, choose|d: TableDef| def_of_schema(d, s))
}

/// The `CREATE INDEX` statements of indexes on `table`.
pub open spec fn index_texts(k: DialectKind, table: Seq<char>, idx: Seq<IndexDef>) -> Seq<Seq<char>>
    decreases idx.len(),
{
    if idx.len() == 0 {
        seq![]
    } else {
        index_texts(k, table, idx.drop_last()).push(index_text(k, table, idx.last(), false))
    }
}

/// The diff of one model against its live table.
pub open spec fn table_diff_r(k: DialectKind, s: TableSchema, l: LiveTable) -> Result<
    (Seq<Seq<char>>, Seq<Seq<char>>),
    Seq<char>,
> {
    if !l.exists {
        match first_problem(k, s.indexes@, 0) {
            Some(m) => Err(m),
            None => Ok(
                (
                    seq![schema_table_text(k, s)] + index_texts(k, s.table@, s.indexes@),
                    seq![drop_table_text(k, s.table@, true)],
                ),
            ),
        }
    } else {
        let a = stale_r(k, s, l.indexes@);
        let b = removed_r(k, s, l.columns@);
        let c = changed_r(k, s.columns@, l.columns@);
        let d = added_r(k, s.table@, s.columns@, l.columns@);
        match new_indexes_r(k, s.table@, s.indexes@, l) {
            Err(m) => Err(m),
            Ok(e) => Ok((a.0 + b.0 + c + d.0 + e.0, a.1 + b.1 + d.1 + e.1)),
        }
    }
}

/// The diff of the models against their live tables, in model order; the down
/// statements are in application order (the change reverses them).
pub open spec fn diff_r(k: DialectKind, models: Seq<TableSchema>, live: Seq<LiveTable>) -> Result<
    (Seq<Seq<char>>, Seq<Seq<char>>),
    Seq<char>,
>
    decreases models.len(),
{
    if models.len() == 0 {
        Ok((seq![], seq![]))
    } else {
        match diff_r(k, models.drop_last(), live) {
            Err(m) => Err(m),
            Ok(p) => match table_diff_r(k, models.last(), live[models.len() - 1]) {
                Err(m) => Err(m),
                Ok(t) => Ok((p.0 + t.0, p.1 + t.1)),
            },
        }
    }
}

/// Each live column that the model no longer declares is dealt with on the way
/// up: one that is not part of the primary key is dropped with
/// `ALTER TABLE <table> DROP COLUMN <column>` and re-added on the way down
/// (`ALTER TABLE <table> ADD COLUMN <column> ...`); a primary key column is only
/// noted.
pub proof fn lemma_removed_column_handled(
    k: DialectKind,
    s: TableSchema,
    cols: Seq<ExistingColumn>,
    i: int,
)
    requires
        0 <= i < cols.len(),
        !model_has_column(s, cols[i].name@),
    ensures
        !cols[i].is_pk ==> removed_r(k, s, cols).0.contains(
            "ALTER TABLE "@ + quoted_identifier(k, s.table@) + " DROP COLUMN "@ + quoted_identifier(
                k,
                cols[i].name@,
            ),
        ),
        !cols[i].is_pk ==> removed_r(k, s, cols).1.contains(restore_text(k, s.table@, cols[i])),
        has_prefix(
            restore_text(k, s.table@, cols[i]),
            "ALTER TABLE "@ + quoted_identifier(k, s.table@) + " ADD COLUMN "@ + quoted_identifier(
                k,
                cols[i].name@,
            ),
        ),
        cols[i].is_pk ==> removed_r(k, s, cols).0.contains(
            "-- NOTE: column \""@ + cols[i].name@
                + "\" was removed from the model but cannot be dropped automatically (primary key); rebuild the table manually"@,
        ),
    decreases cols.len(),
{
    let c = cols[i];
    let pre = "ALTER TABLE "@ + quoted_identifier(k, s.table@) + " ADD COLUMN "@
        + quoted_identifier(k, c.name@);
    let tail = " "@ + if c.declared_type@.len() == 0 {
        "TEXT"@
    } else {
        c.declared_type@
    };
    assert(restore_text(k, s.table@, c) == pre + tail);
    assert((pre + tail).subrange(0, pre.len() as int) =~= pre);
    let p = removed_r(k, s, cols.drop_last());
    let r = removed_r(k, s, cols);
    if i == cols.len() - 1 {
        assert(cols.last() == c);
        if c.is_pk {
            assert(r.0 == p.0.push(pk_column_note(c.name@)));
            assert(r.0[p.0.len() as int] == pk_column_note(c.name@));
        } else {
            assert(r.0[p.0.len() as int] == drop_column_text(k, s.table@, c.name@));
            assert(r.1[p.1.len() as int] == restore_text(k, s.table@, c));
        }
    } else {
        assert(cols.drop_last()[i] == c);
        lemma_removed_column_handled(k, s, cols.drop_last(), i);
        if c.is_pk {
            let j = choose|j: int| 0 <= j < p.0.len() && p.0[j] == pk_column_note(c.name@);
            assert(r.0[j] == p.0[j]);
        } else {
            let j = choose|j: int|
                0 <= j < p.0.len() && p.0[j] == drop_column_text(k, s.table@, c.name@);
            assert(r.0[j] == p.0[j]);
            let j2 = choose|j: int| 0 <= j < p.1.len() && p.1[j] == restore_text(k, s.table@, c);
            assert(r.1[j2] == p.1[j2]);
        }
    }
}

/// Only columns outside the primary key are ever dropped: a
/// `ALTER TABLE <table> DROP COLUMN <name>` statement among the removed-column
/// statements comes from a live column named `name` that the model no longer
/// declares and that is not a primary key column.
pub proof fn lemma_dropped_column_not_pk(
    k: DialectKind,
    s: TableSchema,
    cols: Seq<ExistingColumn>,
    name: Seq<char>,
)
    requires
        removed_r(k, s, cols).0.contains(
            "ALTER TABLE "@ + quoted_identifier(k, s.table@) + " DROP COLUMN "@ + quoted_identifier(
                k,
                name,
            ),
        ),
    ensures
        exists|i: int|
            0 <= i < cols.len() && (#[trigger] cols[i]).name@ == name && !cols[i].is_pk
                && !model_has_column(s, name),
    decreases cols.len(),
{
    reveal_strlit("ALTER TABLE ");
    reveal_strlit("-- NOTE: column \"");
    let target = drop_column_text(k, s.table@, name);
    let r = removed_r(k, s, cols);
    let p = removed_r(k, s, cols.drop_last());
    let j = choose|j: int| 0 <= j < r.0.len() && r.0[j] == target;
    let c = cols.last();
    if j < p.0.len() && r.0[j] == p.0[j] {
        lemma_dropped_column_not_pk(k, s, cols.drop_last(), name);
        let i = choose|i: int|
            0 <= i < cols.drop_last().len() && (#[trigger] cols.drop_last()[i]).name@ == name
                && !cols.drop_last()[i].is_pk && !model_has_column(s, name);
        assert(cols[i] == cols.drop_last()[i]);
    } else {
        assert(!model_has_column(s, c.name@));
        if c.is_pk {
            assert(r.0[j] == pk_column_note(c.name@));
            assert(pk_column_note(c.name@)[0] == '-');
            assert(target[0] == 'A');
        } else {
            assert(r.0[j] == drop_column_text(k, s.table@, c.name@));
            let pre = "ALTER TABLE "@ + quoted_identifier(k, s.table@) + " DROP COLUMN "@;
            let qa = quoted_identifier(k, c.name@);
            let qb = quoted_identifier(k, name);
            assert((pre + qa).skip(pre.len() as int) =~= qa);
            assert((pre + qb).skip(pre.len() as int) =~= qb);
            lemma_quoted_identifier_injective(k, c.name@, name);
            assert(cols[cols.len() - 1] == c);
        }
    }
}

/// For a table that exists, each live column the model no longer declares is
/// dropped on the way up (and re-added on the way down) unless it is a primary
/// key column, which is noted instead.
pub proof fn lemma_table_diff_removed_column(k: DialectKind, s: TableSchema, l: LiveTable, i: int)
    requires
        l.exists,
        table_diff_r(k, s, l) is Ok,
        0 <= i < l.columns@.len(),
        !model_has_column(s, l.columns@[i].name@),
    ensures
        !l.columns@[i].is_pk ==> table_diff_r(k, s, l)->Ok_0.0.contains(
            "ALTER TABLE "@ + quoted_identifier(k, s.table@) + " DROP COLUMN "@ + quoted_identifier(
                k,
                l.columns@[i].name@,
            ),
        ),
        !l.columns@[i].is_pk ==> table_diff_r(k, s, l)->Ok_0.1.contains(
            restore_text(k, s.table@, l.columns@[i]),
        ),
        l.columns@[i].is_pk ==> table_diff_r(k, s, l)->Ok_0.0.contains(
            "-- NOTE: column \""@ + l.columns@[i].name@
                + "\" was removed from the model but cannot be dropped automatically (primary key); rebuild the table manually"@,
        ),
{
    let cols = l.columns@;
    lemma_removed_column_handled(k, s, cols, i);
    let a = stale_r(k, s, l.indexes@);
    let b = removed_r(k, s, cols);
    let c = changed_r(k, s.columns@, cols);
    let d = added_r(k, s.table@, s.columns@, cols);
    let e = new_indexes_r(k, s.table@, s.indexes@, l)->Ok_0;
    let t = table_diff_r(k, s, l)->Ok_0;
    assert(t.0 == a.0 + b.0 + c + d.0 + e.0);
    assert(t.1 == a.1 + b.1 + d.1 + e.1);
    let x = if cols[i].is_pk {
        pk_column_note(cols[i].name@)
    } else {
        drop_column_text(k, s.table@, cols[i].name@)
    };
    let j = choose|j: int| 0 <= j < b.0.len() && b.0[j] == x;
    assert(t.0[a.0.len() + j] == b.0[j]);
    if !cols[i].is_pk {
        let j2 = choose|j: int| 0 <= j < b.1.len() && b.1[j] == restore_text(k, s.table@, cols[i]);
        assert(t.1[a.1.len() + j2] == b.1[j2]);
    }
}

/// An `ADD COLUMN` statement is never a `DROP COLUMN` statement.
proof fn lemma_add_is_not_drop(k: DialectKind, table: Seq<char>, c: ColumnDef, n: Seq<char>)
    ensures
        add_column_text(k, table, c) != drop_column_text(k, table, n),
{
    reveal_strlit(" ADD COLUMN ");
    reveal_strlit(" DROP COLUMN ");
    let pre = "ALTER TABLE "@ + quoted_identifier(k, table);
    let p = pre.len() as int;
    let x = add_column_text(k, table, c);
    let y = drop_column_text(k, table, n);
    let add_rest = quoted_identifier(k, c.name@) + " "@ + type_text(k, c.sql_type) + default_clause(
        k,
        c.default,
    ) + enum_check_text(k, c.name@, c.sql_type);
    assert(x =~= pre + (" ADD COLUMN "@ + add_rest));
    assert(y =~= pre + (" DROP COLUMN "@ + quoted_identifier(k, n)));
    assert(x[p + 1] == 'A');
    assert(y[p + 1] == 'D');
}

/// No stale-index statement is a `DROP COLUMN` statement.
proof fn lemma_stale_has_no_drop_column(
    k: DialectKind,
    s: TableSchema,
    idx: Seq<ExistingIndex>,
    n: Seq<char>,
)
    ensures
        !stale_r(k, s, idx).0.contains(drop_column_text(k, s.table@, n)),
    decreases idx.len(),
{
    reveal_strlit("ALTER TABLE ");
    reveal_strlit("DROP INDEX ");
    if idx.len() > 0 {
        lemma_stale_has_no_drop_column(k, s, idx.drop_last(), n);
        let name = idx.last().name@;
        assert(drop_index_text(k, name, true)[0] != drop_column_text(k, s.table@, n)[0]);
    }
}

/// No change note is a `DROP COLUMN` statement.
proof fn lemma_changed_has_no_drop_column(
    k: DialectKind,
    table: Seq<char>,
    cols: Seq<ColumnDef>,
    live: Seq<ExistingColumn>,
    n: Seq<char>,
)
    ensures
        !changed_r(k, cols, live).contains(drop_column_text(k, table, n)),
    decreases cols.len(),
{
    reveal_strlit("ALTER TABLE ");
    reveal_strlit("-- NOTE: column \"");
    if cols.len() > 0 {
        lemma_changed_has_no_drop_column(k, table, cols.drop_last(), live, n);
        match change_note(k, cols.last(), live) {
            Some(x) => {
                assert(x[0] != drop_column_text(k, table, n)[0]);
            },
            None => {},
        }
    }
}

/// No statement adding a column is a `DROP COLUMN` statement.
proof fn lemma_added_has_no_drop_column(
    k: DialectKind,
    table: Seq<char>,
    cols: Seq<ColumnDef>,
    live: Seq<ExistingColumn>,
    n: Seq<char>,
)
    ensures
        !added_r(k, table, cols, live).0.contains(drop_column_text(k, table, n)),
    decreases cols.len(),
{
    reveal_strlit("ALTER TABLE ");
    reveal_strlit("-- NOTE: column \"");
    if cols.len() > 0 {
        lemma_added_has_no_drop_column(k, table, cols.drop_last(), live, n);
        let c = cols.last();
        assert(nullable_note(c.name@)[0] != drop_column_text(k, table, n)[0]);
        lemma_add_is_not_drop(k, table, c, n);
    }
}

/// No statement creating an index is a `DROP COLUMN` statement.
proof fn lemma_new_indexes_have_no_drop_column(
    k: DialectKind,
    table: Seq<char>,
    idx: Seq<IndexDef>,
    l: LiveTable,
    n: Seq<char>,
)
    requires
        new_indexes_r(k, table, idx, l) is Ok,
    ensures
        !new_indexes_r(k, table, idx, l)->Ok_0.0.contains(drop_column_text(k, table, n)),
    decreases idx.len(),
{
    reveal_strlit("ALTER TABLE ");
    reveal_strlit("CREATE ");
    if idx.len() > 0 {
        lemma_new_indexes_have_no_drop_column(k, table, idx.drop_last(), l, n);
        let x = idx.last();
        assert(index_text(k, table, x, false)[0] != drop_column_text(k, table, n)[0]);
    }
}

/// A primary key column is never dropped: when every live column named `name`
/// is part of the primary key, no statement of an existing table's diff is
/// `ALTER TABLE <table> DROP COLUMN <name>`.
pub proof fn lemma_table_diff_keeps_pk_columns(
    k: DialectKind,
    s: TableSchema,
    l: LiveTable,
    name: Seq<char>,
)
    requires
        l.exists,
        table_diff_r(k, s, l) is Ok,
        forall|i: int| 0 <= i < l.columns@.len() && (#[trigger] l.columns@[i]).name@ == name
            ==> l.columns@[i].is_pk,
    ensures
        !table_diff_r(k, s, l)->Ok_0.0.contains(
            "ALTER TABLE "@ + quoted_identifier(k, s.table@) + " DROP COLUMN "@ + quoted_identifier(
                k,
                name,
            ),
        ),
{
    let cols = l.columns@;
    let x = drop_column_text(k, s.table@, name);
    let a = stale_r(k, s, l.indexes@).0;
    let b = removed_r(k, s, cols).0;
    let c = changed_r(k, s.columns@, cols);
    let d = added_r(k, s.table@, s.columns@, cols).0;
    let e = new_indexes_r(k, s.table@, s.indexes@, l)->Ok_0.0;
    let t = table_diff_r(k, s, l)->Ok_0.0;
    assert(t == a + b + c + d + e);
    lemma_stale_has_no_drop_column(k, s, l.indexes@, name);
    lemma_changed_has_no_drop_column(k, s.table@, s.columns@, cols, name);
    lemma_added_has_no_drop_column(k, s.table@, s.columns@, cols, name);
    lemma_new_indexes_have_no_drop_column(k, s.table@, s.indexes@, l, name);
    if b.contains(x) {
        lemma_dropped_column_not_pk(k, s, cols, name);
    }
    if t.contains(x) {
        let j = choose|j: int| 0 <= j < t.len() && t[j] == x;
        if j < a.len() {
            assert(a[j] == t[j]);
        } else if j < a.len() + b.len() {
            assert(b[j - a.len()] == t[j]);
        } else if j < a.len() + b.len() + c.len() {
            assert(c[j - a.len() - b.len()] == t[j]);
        } else if j < a.len() + b.len() + c.len() + d.len() {
            assert(d[j - a.len() - b.len() - c.len()] == t[j]);
        } else {
            assert(e[j - a.len() - b.len() - c.len() - d.len()] == t[j]);
        }
    }
}

/// Each table's statements are among the statements of the whole diff.
proof fn lemma_diff_has_table(
    k: DialectKind,
    models: Seq<TableSchema>,
    live: Seq<LiveTable>,
    j: int,
    x: Seq<char>,
)
    requires
        diff_r(k, models, live) is Ok,
        0 <= j < models.len(),
    ensures
        table_diff_r(k, models[j], live[j]) is Ok,
        table_diff_r(k, models[j], live[j])->Ok_0.0.contains(x) ==> diff_r(
            k,
            models,
            live,
        )->Ok_0.0.contains(x),
        table_diff_r(k, models[j], live[j])->Ok_0.1.contains(x) ==> diff_r(
            k,
            models,
            live,
        )->Ok_0.1.contains(x),
    decreases models.len(),
{
    let init = models.drop_last();
    let p = diff_r(k, init, live);
    let r = diff_r(k, models, live)->Ok_0;
    assert(p is Ok);
    let t = table_diff_r(k, models.last(), live[models.len() - 1]);
    assert(t is Ok);
    assert(r == (p->Ok_0.0 + t->Ok_0.0, p->Ok_0.1 + t->Ok_0.1));
    if j == models.len() - 1 {
        if t->Ok_0.0.contains(x) {
            let i = choose|i: int| 0 <= i < t->Ok_0.0.len() && t->Ok_0.0[i] == x;
            assert(r.0[p->Ok_0.0.len() + i] == x);
        }
        if t->Ok_0.1.contains(x) {
            let i = choose|i: int| 0 <= i < t->Ok_0.1.len() && t->Ok_0.1[i] == x;
            assert(r.1[p->Ok_0.1.len() + i] == x);
        }
    } else {
        assert(init[j] == models[j]);
        lemma_diff_has_table(k, init, live, j, x);
        if p->Ok_0.0.contains(x) {
            let i = choose|i: int| 0 <= i < p->Ok_0.0.len() && p->Ok_0.0[i] == x;
            assert(r.0[i] == x);
        }
        if p->Ok_0.1.contains(x) {
            let i = choose|i: int| 0 <= i < p->Ok_0.1.len() && p->Ok_0.1[i] == x;
            assert(r.1[i] == x);
        }
    }
}

/// In a generated migration, a column that the database has but the model
/// `j` no longer declares is dropped on the way up
/// (`ALTER TABLE <table> DROP COLUMN <column>`) and re-added on the way down,
/// unless it is a primary key column, which is noted instead.
pub proof fn lemma_diff_drops_removed_column(
    k: DialectKind,
    models: Seq<TableSchema>,
    live: Seq<LiveTable>,
    j: int,
    i: int,
)
    requires
        diff_r(k, models, live) is Ok,
        0 <= j < models.len(),
        live[j].exists,
        0 <= i < live[j].columns@.len(),
        !model_has_column(models[j], live[j].columns@[i].name@),
    ensures
        !live[j].columns@[i].is_pk ==> diff_r(k, models, live)->Ok_0.0.contains(
            "ALTER TABLE "@ + quoted_identifier(k, models[j].table@) + " DROP COLUMN "@
                + quoted_identifier(k, live[j].columns@[i].name@),
        ),
        !live[j].columns@[i].is_pk ==> diff_r(k, models, live)->Ok_0.1.contains(
            restore_text(k, models[j].table@, live[j].columns@[i]),
        ),
        live[j].columns@[i].is_pk ==> diff_r(k, models, live)->Ok_0.0.contains(
            "-- NOTE: column \""@ + live[j].columns@[i].name@
                + "\" was removed from the model but cannot be dropped automatically (primary key); rebuild the table manually"@,
        ),
{
    let s = models[j];
    let l = live[j];
    let c = l.columns@[i];
    lemma_diff_has_table(k, models, live, j, drop_column_text(k, s.table@, c.name@));
    lemma_table_diff_removed_column(k, s, l, i);
    lemma_diff_has_table(k, models, live, j, restore_text(k, s.table@, c));
    lemma_diff_has_table(k, models, live, j, pk_column_note(c.name@));
}

// ---------------------------------------------------------------------------
// Definitions built from a schema render alike
// ---------------------------------------------------------------------------

proof fn lemma_enum_check_eq(k: DialectKind, n: Seq<char>, a: SqlType, b: SqlType, m: SqlType)
    requires
        same_type(a, m),
        same_type(b, m),
    ensures
        enum_check_text(k, n, a) == enum_check_text(k, n, b),
{
}

proof fn lemma_column_text_eq(k: DialectKind, c1: ColumnSpec, c2: ColumnSpec, m: ColumnDef, auto: bool)
    requires
        spec_of_column(c1, m),
        spec_of_column(c2, m),
    ensures
        column_text(k, c1, auto) == column_text(k, c2, auto),
{
    lemma_same_type_text(k, c1.ty, m.sql_type);
    lemma_same_type_text(k, c2.ty, m.sql_type);
    lemma_enum_check_eq(k, c1.name@, c1.ty, c2.ty, m.sql_type);
    assert(c1.name@ == c2.name@);
    match (c1.default, c2.default) {
        (Some(d1), Some(d2)) => {
            assert(default_text(k, d1) == default_text(k, d2));
        },
        _ => {},
    }
}

proof fn lemma_columns_eq(k: DialectKind, a: Seq<ColumnSpec>, b: Seq<ColumnSpec>, m: Seq<ColumnDef>, auto: Option<Seq<char>>)
    requires
        a.len() == m.len(),
        b.len() == m.len(),
        forall|i: int| 0 <= i < m.len() ==> spec_of_column(#[trigger] a[i], m[i]),
        forall|i: int| 0 <= i < m.len() ==> spec_of_column(#[trigger] b[i], m[i]),
    ensures
        columns_text(k, a, auto) == columns_text(k, b, auto),
        auto_pk_names(a) == auto_pk_names(b),
        pk_names(a) == pk_names(b),
    decreases m.len(),
{
    if m.len() > 0 {
        let n = m.len() - 1;
        assert(spec_of_column(a[n], m[n]));
        assert(spec_of_column(b[n], m[n]));
        lemma_columns_eq(k, a.drop_last(), b.drop_last(), m.drop_last(), auto);
        lemma_column_text_eq(k, a.last(), b.last(), m.last(), auto == Some(a.last().name@));
    }
}

proof fn lemma_fks_eq(k: DialectKind, a: Seq<ForeignKeySpec>, b: Seq<ForeignKeySpec>, m: Seq<ColumnDef>)
    requires
        a.len() == m.len(),
        b.len() == m.len(),
        forall|i: int| 0 <= i < m.len() ==> fk_of_column(#[trigger] a[i], m[i]),
        forall|i: int| 0 <= i < m.len() ==> fk_of_column(#[trigger] b[i], m[i]),
    ensures
        fks_text(k, a) == fks_text(k, b),
    decreases m.len(),
{
    if m.len() > 0 {
        let n = m.len() - 1;
        assert(fk_of_column(a[n], m[n]));
        assert(fk_of_column(b[n], m[n]));
        lemma_fks_eq(k, a.drop_last(), b.drop_last(), m.drop_last());
    }
}

proof fn lemma_checks_eq(a: Seq<String>, b: Seq<String>)
    requires
        a.len() == b.len(),
        forall|i: int| 0 <= i < a.len() ==> (#[trigger] a[i])@ == b[i]@,
    ensures
        checks_text(a) == checks_text(b),
    decreases a.len(),
{
    if a.len() > 0 {
        lemma_checks_eq(a.drop_last(), b.drop_last());
        assert(a.last()@ == b.last()@);
    }
}

/// Two definitions built from one schema have the same `CREATE TABLE` text.
proof fn lemma_table_text_eq(k: DialectKind, d1: TableDef, d2: TableDef, s: TableSchema)
    requires
        def_of_schema(d1, s),
        def_of_schema(d2, s),
    ensures
        table_text(k, d1) == table_text(k, d2),
{
    lemma_columns_eq(k, d1.columns@, d2.columns@, s.columns@, auto_pk(d1));
    assert(auto_pk(d1) == auto_pk(d2));
    lemma_fks_eq(k, d1.foreign_keys@, d2.foreign_keys@, fk_columns(s.columns@));
    assert forall|i: int| 0 <= i < d1.checks@.len() implies (#[trigger] d1.checks@[i])@ == d2.checks@[i]@ by {
        assert(d1.checks@[i]@ == s.checks@[i]@);
        assert(d2.checks@[i]@ == s.checks@[i]@);
    }
    lemma_checks_eq(d1.checks@, d2.checks@);
    assert(primary_key_names(d1) == primary_key_names(d2));
}

/// A definition built from a schema renders as the schema's table text.
proof fn lemma_schema_table_text(k: DialectKind, d: TableDef, s: TableSchema)
    requires
        def_of_schema(d, s),
    ensures
        table_text(k, d) == schema_table_text(k, s),
{
    let c = choose|x: TableDef| def_of_schema(x, s);
    lemma_table_text_eq(k, d, c, s);
}

proof fn lemma_enum_check_same(k: DialectKind, n: Seq<char>, a: SqlType, m: SqlType)
    requires
        same_type(a, m),
    ensures
        enum_check_text(k, n, a) == enum_check_text(k, n, m),
{
}

/// The statement text of an added column.
proof fn lemma_added_column_text(k: DialectKind, table: Seq<char>, spec: ColumnSpec, c: ColumnDef)
    requires
        added_spec_of_column(spec, c),
    ensures
        alter_action_text(k, table, AlterAction::AddColumn(spec)) == add_column_text(k, table, c),
{
    lemma_same_type_text(k, spec.ty, c.sql_type);
    lemma_enum_check_same(k, spec.name@, spec.ty, c.sql_type);
    let body = column_body_text(k, spec);
    assert(body == type_text(k, c.sql_type) + default_clause(k, c.default) + enum_check_text(
        k,
        c.name@,
        c.sql_type,
    ));
}

/// Maps a model column's database-side default to a DDL default.
pub fn column_default_ddl(default: Option<ColumnDefault>) -> (r: Option<DefaultValue>)
    ensures
        ddl_default_matches(r, default),
{
    match default {
        None => None,
        Some(ColumnDefault::CurrentTimestamp) => Some(DefaultValue::CurrentTimestamp),
        Some(ColumnDefault::Uuid) => Some(DefaultValue::Uuid),
        Some(ColumnDefault::Raw(sql)) => Some(DefaultValue::Raw(owned(sql))),
    }
}

/// Builds the `CREATE TABLE` definition of a model's schema (its indexes are
/// rendered separately).
pub fn table_def_from_schema(schema: &TableSchema) -> (d: TableDef)
    ensures
        def_of_schema(d, *schema),
{
    let mut def = TableDef::new(owned(schema.table));
    let mut i: usize = 0;
    while i < schema.columns.len()
        invariant
            i <= schema.columns@.len(),
            def.name@ == schema.table@,
            !def.if_not_exists,
            def.columns@.len() == i,
            forall|j: int| 0 <= j < i ==> spec_of_column(#[trigger] def.columns@[j], schema.columns@[j]),
            def.primary_key@.len() == 0,
            def.foreign_keys@.len() == fk_columns(schema.columns@.take(i as int)).len(),
            forall|j: int|
                0 <= j < def.foreign_keys@.len() ==> fk_of_column(
                    #[trigger] def.foreign_keys@[j],
                    fk_columns(schema.columns@.take(i as int))[j],
                ),
            def.checks@.len() == 0,
            def.indexes@.len() == 0,
        decreases schema.columns@.len() - i,
    {
        assert(schema.columns@.take(i + 1).drop_last() == schema.columns@.take(i as int));
        let column = &schema.columns[i];
        let spec = ColumnSpec {
            name: owned(column.name),
            ty: column.sql_type.clone(),
            nullable: column.nullable,
            primary_key: column.primary_key,
            auto_increment: column.auto,
            unique: false,
            default: column_default_ddl(column.default),
        };
        def.columns.push(spec);
        match column.foreign_key {
            Some(reference) => {
                let mut columns: Vec<String> = Vec::new();
                columns.push(owned(column.name));
                let mut ref_columns: Vec<String> = Vec::new();
                ref_columns.push(owned(reference.column));
                let fk = ForeignKeySpec {
                    columns,
                    ref_table: owned(reference.table),
                    ref_columns,
                    on_delete: reference.on_delete,
                    on_update: reference.on_update,
                };
                assert(views(fk.columns@) =~= seq![column.name@]);
                assert(views(fk.ref_columns@) =~= seq![reference.column@]);
                def.foreign_keys.push(fk);
            },
            None => {},
        }
        i = i + 1;
    }
    assert(schema.columns@.take(i as int) == schema.columns@);
    let mut c: usize = 0;
    while c < schema.checks.len()
        invariant
            c <= schema.checks@.len(),
            def.name@ == schema.table@,
            !def.if_not_exists,
            def.columns@.len() == schema.columns@.len(),
            forall|j: int| 0 <= j < schema.columns@.len() ==> spec_of_column(#[trigger] def.columns@[j], schema.columns@[j]),
            def.primary_key@.len() == 0,
            def.foreign_keys@.len() == fk_columns(schema.columns@).len(),
            forall|j: int|
                0 <= j < def.foreign_keys@.len() ==> fk_of_column(
                    #[trigger] def.foreign_keys@[j],
                    fk_columns(schema.columns@)[j],
                ),
            def.checks@.len() == c,
            forall|j: int| 0 <= j < c ==> (#[trigger] def.checks@[j])@ == schema.checks@[j]@,
            def.indexes@.len() == 0,
        decreases schema.checks@.len() - c,
    {
        def.checks.push(owned(schema.checks[c]));
        c = c + 1;
    }
    def
}

/// Renders an `ALTER TABLE ... ADD COLUMN` that restores a dropped column:
/// always nullable, with the declared type, or `TEXT` when it is unknown.
pub fn restore_column_sql<D: Dialect>(dialect: &D, table: &str, column: &ExistingColumn) -> (s: String)
    ensures
        s@ == restore_text(dialect.spec_kind(), table@, *column),
{
    let mut sql = String::new();
    push_str(&mut sql, "ALTER TABLE ");
    dialect.quote_identifier(table, &mut sql);
    push_str(&mut sql, " ADD COLUMN ");
    dialect.quote_identifier(column.name.as_str(), &mut sql);
    push_str(&mut sql, " ");
    if column.declared_type.as_str().unicode_len() == 0 {
        push_str(&mut sql, "TEXT");
    } else {
        push_str(&mut sql, column.declared_type.as_str());
    }
    sql
}

fn model_index_exists(s: &TableSchema, name: &str) -> (b: bool)
    ensures
        b == model_has_index(*s, name@),
{
    let mut i: usize = 0;
    while i < s.indexes.len()
        invariant
            i <= s.indexes@.len(),
            forall|j: int| 0 <= j < i ==> (#[trigger] s.indexes@[j]).name@ != name@,
        decreases s.indexes@.len() - i,
    {
        if str_eq(s.indexes[i].name.as_str(), name) {
            return true;
        }
        i = i + 1;
    }
    false
}

fn live_index_exists(l: &LiveTable, name: &str) -> (b: bool)
    ensures
        b == live_has_index(*l, name@),
{
    let mut i: usize = 0;
    while i < l.indexes.len()
        invariant
            i <= l.indexes@.len(),
            forall|j: int| 0 <= j < i ==> (#[trigger] l.indexes@[j]).name@ != name@,
        decreases l.indexes@.len() - i,
    {
        if str_eq(l.indexes[i].name.as_str(), name) {
            return true;
        }
        i = i + 1;
    }
    false
}

fn model_column_exists(s: &TableSchema, name: &str) -> (b: bool)
    ensures
        b == model_has_column(*s, name@),
{
    let mut i: usize = 0;
    while i < s.columns.len()
        invariant
            i <= s.columns@.len(),
            forall|j: int| 0 <= j < i ==> (#[trigger] s.columns@[j]).name@ != name@,
        decreases s.columns@.len() - i,
    {
        if str_eq(s.columns[i].name, name) {
            return true;
        }
        i = i + 1;
    }
    false
}

/// The position of the last live column named `name`.
fn find_live_column(cols: &Vec<ExistingColumn>, name: &str) -> (r: Option<usize>)
    ensures
        match r {
            Some(i) => i < cols@.len() && live_column(cols@, name@) == Some(cols@[i as int]),
            None => live_column(cols@, name@) is None,
        },
{
    let mut i: usize = cols.len();
    assert(cols@.take(cols@.len() as int) == cols@);
    while i > 0
        invariant
            i <= cols@.len(),
            live_column(cols@, name@) == live_column(cols@.take(i as int), name@),
        decreases i,
    {
        assert(cols@.take(i as int).drop_last() == cols@.take(i - 1));
        assert(cols@.take(i as int).last() == cols@[i - 1]);
        if str_eq(cols[i - 1].name.as_str(), name) {
            return Some(i - 1);
        }
        i = i - 1;
    }
    None
}

/// `s` followed by `t` and `u`, as one string.
fn concat3(s: &str, t: &str, u: &str) -> (r: String)
    ensures
        r@ == s@ + t@ + u@,
{
    let mut r = String::new();
    push_str(&mut r, s);
    push_str(&mut r, t);
    push_str(&mut r, u);
    r
}

/// `s` followed by `t`, `u` and `v`, as one string.
fn concat4(s: &str, t: &str, u: &str, v: &str) -> (r: String)
    ensures
        r@ == s@ + t@ + u@ + v@,
{
    let mut r = String::new();
    push_str(&mut r, s);
    push_str(&mut r, t);
    push_str(&mut r, u);
    push_str(&mut r, v);
    r
}

/// The views of strings, element by element.
pub open spec fn lines(v: Seq<String>) -> Seq<Seq<char>> {
    views(v)
}

/// Appends the strings of `src` to `dst`.
fn append_lines(dst: &mut Vec<String>, src: Vec<String>)
    ensures
        views(final(dst)@) == views(old(dst)@) + views(src@),
{
    let ghost start = dst@;
    let mut i: usize = 0;
    while i < src.len()
        invariant
            i <= src@.len(),
            views(dst@) == views(start) + views(src@.take(i as int)),
        decreases src@.len() - i,
    {
        let ghost before = dst@;
        dst.push(src[i].clone());
        assert(views(dst@) =~= views(before).push(src@[i as int]@));
        assert(views(src@.take(i + 1)) =~= views(src@.take(i as int)).push(src@[i as int]@));
        assert(views(dst@) =~= views(start) + views(src@.take(i + 1)));
        i = i + 1;
    }
    assert(src@.take(i as int) == src@);
}

/// The lines for stale indexes.
fn stale_lines<D: Dialect>(dialect: &D, s: &TableSchema, l: &LiveTable) -> (r: (Vec<String>, Vec<String>))
    ensures
        views(r.0@) == stale_r(dialect.spec_kind(), *s, l.indexes@).0,
        views(r.1@) == stale_r(dialect.spec_kind(), *s, l.indexes@).1,
{
    let ghost k = dialect.spec_kind();
    let mut up: Vec<String> = Vec::new();
    let mut down: Vec<String> = Vec::new();
    let mut i: usize = 0;
    while i < l.indexes.len()
        invariant
            i <= l.indexes@.len(),
            k == dialect.spec_kind(),
            views(up@) == stale_r(k, *s, l.indexes@.take(i as int)).0,
            views(down@) == stale_r(k, *s, l.indexes@.take(i as int)).1,
        decreases l.indexes@.len() - i,
    {
        assert(l.indexes@.take(i + 1).drop_last() == l.indexes@.take(i as int));
        let name = l.indexes[i].name.as_str();
        if !model_index_exists(s, name) {
            up.push(drop_index(dialect, name, true));
            down.push(concat3("-- cannot recreate dropped index \"", name, "\" (its definition is unknown)"));
            assert(views(up@) =~= stale_r(k, *s, l.indexes@.take(i + 1)).0);
            assert(views(down@) =~= stale_r(k, *s, l.indexes@.take(i + 1)).1);
        }
        i = i + 1;
    }
    assert(l.indexes@.take(i as int) == l.indexes@);
    (up, down)
}

/// The lines for columns removed from the model.
fn removed_lines<D: Dialect>(dialect: &D, s: &TableSchema, l: &LiveTable) -> (r: (Vec<String>, Vec<String>))
    ensures
        views(r.0@) == removed_r(dialect.spec_kind(), *s, l.columns@).0,
        views(r.1@) == removed_r(dialect.spec_kind(), *s, l.columns@).1,
{
    let ghost k = dialect.spec_kind();
    let mut up: Vec<String> = Vec::new();
    let mut down: Vec<String> = Vec::new();
    let mut i: usize = 0;
    while i < l.columns.len()
        invariant
            i <= l.columns@.len(),
            k == dialect.spec_kind(),
            views(up@) == removed_r(k, *s, l.columns@.take(i as int)).0,
            views(down@) == removed_r(k, *s, l.columns@.take(i as int)).1,
        decreases l.columns@.len() - i,
    {
        assert(l.columns@.take(i + 1).drop_last() == l.columns@.take(i as int));
        let column = &l.columns[i];
        if !model_column_exists(s, column.name.as_str()) {
            if column.is_pk {
                up.push(concat3(
                    "-- NOTE: column \"",
                    column.name.as_str(),
                    "\" was removed from the model but cannot be dropped automatically (primary key); rebuild the table manually",
                ));
            } else {
                let mut actions: Vec<AlterAction> = Vec::new();
                actions.push(AlterAction::DropColumn(column.name.clone()));
                let alter = AlterTable { table: owned(s.table), actions };
                let statements = alter_table(dialect, &alter);
                assert(statements@[0]@ == drop_column_text(k, s.table@, column.name@));
                assert(views(statements@) =~= seq![drop_column_text(k, s.table@, column.name@)]);
                append_lines(&mut up, statements);
                down.push(restore_column_sql(dialect, s.table, column));
            }
            assert(views(up@) =~= removed_r(k, *s, l.columns@.take(i + 1)).0);
            assert(views(down@) =~= removed_r(k, *s, l.columns@.take(i + 1)).1);
        }
        i = i + 1;
    }
    assert(l.columns@.take(i as int) == l.columns@);
    (up, down)
}

/// The notes for columns whose definition changed.
fn changed_lines<D: Dialect>(dialect: &D, s: &TableSchema, l: &LiveTable) -> (r: Vec<String>)
    ensures
        views(r@) == changed_r(dialect.spec_kind(), s.columns@, l.columns@),
{
    let ghost k = dialect.spec_kind();
    let mut up: Vec<String> = Vec::new();
    let mut i: usize = 0;
    while i < s.columns.len()
        invariant
            i <= s.columns@.len(),
            k == dialect.spec_kind(),
            views(up@) == changed_r(k, s.columns@.take(i as int), l.columns@),
        decreases s.columns@.len() - i,
    {
        assert(s.columns@.take(i + 1).drop_last() == s.columns@.take(i as int));
        let column = &s.columns[i];
        match find_live_column(&l.columns, column.name) {
            Some(j) => {
                let existing = &l.columns[j];
                if !existing.is_pk {
                    let model_type = column_type_str(dialect, &column.sql_type);
                    let db_type = to_uppercase(trimmed(existing.declared_type.as_str()).as_str());
                    let model_upper = to_uppercase(model_type.as_str());
                    let type_changed = !str_eq(model_upper.as_str(), db_type.as_str()) && db_type.as_str().unicode_len() > 0;
                    let nullability_changed = column.nullable == existing.not_null;
                    if type_changed || nullability_changed {
                        let mut note = concat4("-- NOTE: column \"", column.name, "\" definition changed (model: ", model_type.as_str());
                        push_str(&mut note, " ");
                        push_str(&mut note, if column.nullable {
                            "nullable"
                        } else {
                            "not null"
                        });
                        push_str(&mut note, ", database: ");
                        push_str(&mut note, existing.declared_type.as_str());
                        push_str(&mut note, " ");
                        push_str(&mut note, if existing.not_null {
                            "not null"
                        } else {
                            "nullable"
                        });
                        push_str(&mut note, "); rebuild the table to apply the change");
                        assert(note@ =~= changed_note(column.name@, type_text(k, column.sql_type), column.nullable, existing.declared_type@, existing.not_null));
                        up.push(note);
                    }
                }
            },
            None => {},
        }
        assert(views(up@) =~= changed_r(k, s.columns@.take(i + 1), l.columns@));
        i = i + 1;
    }
    assert(s.columns@.take(i as int) == s.columns@);
    up
}

/// The lines for columns new to the model.
fn added_lines<D: Dialect>(dialect: &D, s: &TableSchema, l: &LiveTable) -> (r: (Vec<String>, Vec<String>))
    ensures
        views(r.0@) == added_r(dialect.spec_kind(), s.table@, s.columns@, l.columns@).0,
        views(r.1@) == added_r(dialect.spec_kind(), s.table@, s.columns@, l.columns@).1,
{
    let ghost k = dialect.spec_kind();
    let mut up: Vec<String> = Vec::new();
    let mut down: Vec<String> = Vec::new();
    let mut i: usize = 0;
    while i < s.columns.len()
        invariant
            i <= s.columns@.len(),
            k == dialect.spec_kind(),
            views(up@) == added_r(k, s.table@, s.columns@.take(i as int), l.columns@).0,
            views(down@) == added_r(k, s.table@, s.columns@.take(i as int), l.columns@).1,
        decreases s.columns@.len() - i,
    {
        assert(s.columns@.take(i + 1).drop_last() == s.columns@.take(i as int));
        let column = &s.columns[i];
        if find_live_column(&l.columns, column.name).is_none() {
            if !column.nullable {
                up.push(concat3(
                    "-- NOTE: column \"",
                    column.name,
                    "\" added as nullable; NOT NULL requires a default value for existing rows",
                ));
            }
            let spec = ColumnSpec {
                name: owned(column.name),
                ty: column.sql_type.clone(),
                nullable: true,
                primary_key: false,
                auto_increment: false,
                unique: false,
                default: column_default_ddl(column.default),
            };
            proof {
                lemma_added_column_text(k, s.table@, spec, *column);
            }
            let mut actions: Vec<AlterAction> = Vec::new();
            actions.push(AlterAction::AddColumn(spec));
            let alter = AlterTable { table: owned(s.table), actions };
            let statements = alter_table(dialect, &alter);
            assert(statements@[0]@ == add_column_text(k, s.table@, *column));
            assert(views(statements@) =~= seq![add_column_text(k, s.table@, *column)]);
            append_lines(&mut up, statements);
            let mut drops: Vec<AlterAction> = Vec::new();
            drops.push(AlterAction::DropColumn(owned(column.name)));
            let drop_alter = AlterTable { table: owned(s.table), actions: drops };
            let drop_statements = alter_table(dialect, &drop_alter);
            assert(drop_statements@[0]@ == drop_column_text(k, s.table@, column.name@));
            assert(views(drop_statements@) =~= seq![drop_column_text(k, s.table@, column.name@)]);
            append_lines(&mut down, drop_statements);
            assert(views(up@) =~= added_r(k, s.table@, s.columns@.take(i + 1), l.columns@).0);
            assert(views(down@) =~= added_r(k, s.table@, s.columns@.take(i + 1), l.columns@).1);
        }
        i = i + 1;
    }
    assert(s.columns@.take(i as int) == s.columns@);
    (up, down)
}

/// The lines for indexes new to the model.
fn new_index_lines<D: Dialect>(dialect: &D, s: &TableSchema, l: &LiveTable) -> (r: Result<(Vec<String>, Vec<String>), OrmError>)
    ensures
        match new_indexes_r(dialect.spec_kind(), s.table@, s.indexes@, *l) {
            Ok(t) => r matches Ok(v) && views(v.0@) == t.0 && views(v.1@) == t.1,
            Err(m) => r matches Err(e) && e.spec_kind() == ErrorKind::Configuration
                && e.spec_message() == m,
        },
{
    let ghost k = dialect.spec_kind();
    let mut up: Vec<String> = Vec::new();
    let mut down: Vec<String> = Vec::new();
    let mut i: usize = 0;
    while i < s.indexes.len()
        invariant
            i <= s.indexes@.len(),
            k == dialect.spec_kind(),
            new_indexes_r(k, s.table@, s.indexes@.take(i as int), *l) matches Ok(t) && views(up@)
                == t.0 && views(down@) == t.1,
        decreases s.indexes@.len() - i,
    {
        assert(s.indexes@.take(i + 1).drop_last() == s.indexes@.take(i as int));
        proof {
            lemma_new_indexes_prefix(k, s.table@, s.indexes@, *l, i as int);
        }
        let index = &s.indexes[i];
        if !live_index_exists(l, index.name.as_str()) {
            let statement = create_index(dialect, s.table, index, false)?;
            up.push(statement);
            down.push(drop_index(dialect, index.name.as_str(), true));
        }
        i = i + 1;
    }
    assert(s.indexes@.take(i as int) == s.indexes@);
    Ok((up, down))
}

/// An error in a prefix of the indexes is the error of the whole list.
proof fn lemma_new_indexes_prefix(k: DialectKind, table: Seq<char>, idx: Seq<IndexDef>, l: LiveTable, i: int)
    requires
        0 <= i < idx.len(),
    ensures
        new_indexes_r(k, table, idx.take(i + 1), l) is Err ==> new_indexes_r(k, table, idx, l)
            == new_indexes_r(k, table, idx.take(i + 1), l),
    decreases idx.len() - i,
{
    if i + 1 < idx.len() {
        lemma_new_indexes_prefix(k, table, idx, l, i + 1);
        assert(idx.take(i + 2).drop_last() == idx.take(i + 1));
    } else {
        assert(idx.take(i + 1) == idx);
    }
}

/// The index statements of a new table, the first one the backend cannot
/// create being the error.
fn new_table_index_lines<D: Dialect>(dialect: &D, s: &TableSchema) -> (r: Result<Vec<String>, OrmError>)
    ensures
        match first_problem(dialect.spec_kind(), s.indexes@, 0) {
            None => r matches Ok(v) && views(v@) == index_texts(dialect.spec_kind(), s.table@, s.indexes@),
            Some(m) => r matches Err(e) && e.spec_kind() == ErrorKind::Configuration
                && e.spec_message() == m,
        },
{
    let ghost k = dialect.spec_kind();
    let mut up: Vec<String> = Vec::new();
    let mut i: usize = 0;
    while i < s.indexes.len()
        invariant
            i <= s.indexes@.len(),
            k == dialect.spec_kind(),
            first_problem(k, s.indexes@, 0) == first_problem(k, s.indexes@, i as int),
            views(up@) == index_texts(k, s.table@, s.indexes@.take(i as int)),
        decreases s.indexes@.len() - i,
    {
        assert(s.indexes@.take(i + 1).drop_last() == s.indexes@.take(i as int));
        let statement = create_index(dialect, s.table, &s.indexes[i], false)?;
        up.push(statement);
        assert(views(up@) =~= index_texts(k, s.table@, s.indexes@.take(i + 1)));
        i = i + 1;
    }
    assert(s.indexes@.take(i as int) == s.indexes@);
    Ok(up)
}

/// The diff of one model against its live table.
pub fn diff_table<D: Dialect>(dialect: &D, s: &TableSchema, l: &LiveTable) -> (r: Result<(Vec<String>, Vec<String>), OrmError>)
    ensures
        match table_diff_r(dialect.spec_kind(), *s, *l) {
            Ok(t) => r matches Ok(v) && views(v.0@) == t.0 && views(v.1@) == t.1,
            Err(m) => r matches Err(e) && e.spec_kind() == ErrorKind::Configuration
                && e.spec_message() == m,
        },
{
    let ghost k = dialect.spec_kind();
    if !l.exists {
        let def = table_def_from_schema(s);
        let created = create_table(dialect, &def);
        let mut up: Vec<String> = match created {
            Ok(v) => v,
            Err(e) => {
                assert(first_problem(k, def.indexes@, 0) is None);
                return Err(e);
            },
        };
        proof {
            lemma_schema_table_text(k, def, *s);
            assert(views(up@) =~= seq![schema_table_text(k, *s)]);
        }
        let indexes = new_table_index_lines(dialect, s)?;
        append_lines(&mut up, indexes);
        let mut down: Vec<String> = Vec::new();
        down.push(drop_table(dialect, s.table, true));
        assert(views(down@) =~= seq![drop_table_text(k, s.table@, true)]);
        return Ok((up, down));
    }
    let a = stale_lines(dialect, s, l);
    let b = removed_lines(dialect, s, l);
    let c = changed_lines(dialect, s, l);
    let d = added_lines(dialect, s, l);
    let e = new_index_lines(dialect, s, l)?;
    let (a_up, a_down) = a;
    let (b_up, b_down) = b;
    let (d_up, d_down) = d;
    let (e_up, e_down) = e;
    let mut up = a_up;
    append_lines(&mut up, b_up);
    append_lines(&mut up, c);
    append_lines(&mut up, d_up);
    append_lines(&mut up, e_up);
    let mut down = a_down;
    append_lines(&mut down, b_down);
    append_lines(&mut down, d_down);
    append_lines(&mut down, e_down);
    Ok((up, down))
}

/// The strings of `v` in reverse order.
fn reversed(v: Vec<String>) -> (r: Vec<String>)
    ensures
        views(r@) == views(v@).reverse(),
{
    let mut r: Vec<String> = Vec::new();
    let mut i: usize = v.len();
    while i > 0
        invariant
            i <= v@.len(),
            r@.len() == v@.len() - i,
            forall|j: int| 0 <= j < r@.len() ==> (#[trigger] r@[j])@ == v@[v@.len() - 1 - j]@,
        decreases i,
    {
        r.push(v[i - 1].clone());
        i = i - 1;
    }
    assert(views(r@) =~= views(v@).reverse());
    r
}

/// Diffs the models against their live tables, returning the reconciling
/// statements; `live[i]` is what the database holds of `models[i]`'s table.
pub fn generate<D: Dialect>(dialect: &D, models: &Vec<TableSchema>, live: &Vec<LiveTable>) -> (r: Result<SchemaChange, OrmError>)
    requires
        live@.len() == models@.len(),
    ensures
        match diff_r(dialect.spec_kind(), models@, live@) {
            Ok(t) => r matches Ok(c) && views(c.up@) == t.0 && views(c.down@) == t.1.reverse(),
            Err(m) => r matches Err(e) && e.spec_kind() == ErrorKind::Configuration
                && e.spec_message() == m,
        },
{
    let ghost k = dialect.spec_kind();
    let mut up: Vec<String> = Vec::new();
    let mut down: Vec<String> = Vec::new();
    let mut i: usize = 0;
    while i < models.len()
        invariant
            i <= models@.len(),
            live@.len() == models@.len(),
            k == dialect.spec_kind(),
            diff_r(k, models@.take(i as int), live@) matches Ok(t) && views(up@) == t.0 && views(down@)
                == t.1,
        decreases models@.len() - i,
    {
        assert(models@.take(i + 1).drop_last() == models@.take(i as int));
        assert(models@.take(i + 1).last() == models@[i as int]);
        proof {
            lemma_diff_prefix(k, models@, live@, i as int);
        }
        let (t_up, t_down) = diff_table(dialect, &models[i], &live[i])?;
        append_lines(&mut up, t_up);
        append_lines(&mut down, t_down);
        i = i + 1;
    }
    assert(models@.take(i as int) == models@);
    Ok(SchemaChange { up, down: reversed(down) })
}

/// An error in a prefix of the models is the error of the whole diff.
proof fn lemma_diff_prefix(k: DialectKind, models: Seq<TableSchema>, live: Seq<LiveTable>, i: int)
    requires
        0 <= i < models.len(),
    ensures
        diff_r(k, models.take(i + 1), live) is Err ==> diff_r(k, models, live) == diff_r(
            k,
            models.take(i + 1),
            live,
        ),
    decreases models.len() - i,
{
    if i + 1 < models.len() {
        lemma_diff_prefix(k, models, live, i + 1);
        assert(models.take(i + 2).drop_last() == models.take(i + 1));
    } else {
        assert(models.take(i + 1) == models);
    }
}

// ---------------------------------------------------------------------------
// Migration files
// ---------------------------------------------------------------------------

/// A statement line: SQL is terminated with `;`, comments are left as they are.
pub open spec fn statement_line(s: Seq<char>) -> Seq<char> {
    s + (if is_comment(s) {
        seq![]
    } else {
        ";"@
    }) + "\n"@
}

/// Statement lines, in order.
pub open spec fn statement_lines(s: Seq<Seq<char>>) -> Seq<char>
    decreases s.len(),
{
    if s.len() == 0 {
        seq![]
    } else {
        statement_lines(s.drop_last()) + statement_line(s.last())
    }
}

/// The contents of a migration file.
pub open spec fn migration_file_text(
    revision: Seq<char>,
    down_revision: Option<Seq<char>>,
    name: Seq<char>,
    up: Seq<Seq<char>>,
    down: Seq<Seq<char>>,
) -> Seq<char> {
    "-- revision: "@ + revision + "\n"@ + "-- down_revision: "@ + match down_revision {
        Some(d) => d,
        None => seq![],
    } + "\n"@ + "-- name: "@ + name + "\n\n"@ + "-- migrate:up\n"@ + statement_lines(up)
        + "\n-- migrate:down\n"@ + statement_lines(down)
}

/// Appends a statement line.
fn push_statement(out: &mut String, statement: &str)
    ensures
        final(out)@ == old(out)@ + statement_line(statement@),
{
    push_str(out, statement);
    if !comment_line(statement) {
        push_str(out, ";");
    }
    push_str(out, "\n");
}

/// Renders the contents of a migration `.sql` file for `change`.
pub fn render_migration_file(revision: &str, down_revision: Option<&str>, name: &str, change: &SchemaChange) -> (s: String)
    ensures
        s@ == migration_file_text(
            revision@,
            match down_revision {
                Some(d) => Some(d@),
                None => None,
            },
            name@,
            views(change.up@),
            views(change.down@),
        ),
{
    let mut out = String::new();
    push_str(&mut out, "-- revision: ");
    push_str(&mut out, revision);
    push_str(&mut out, "\n");
    push_str(&mut out, "-- down_revision: ");
    match down_revision {
        Some(d) => push_str(&mut out, d),
        None => {},
    }
    push_str(&mut out, "\n");
    push_str(&mut out, "-- name: ");
    push_str(&mut out, name);
    push_str(&mut out, "\n\n");
    push_str(&mut out, "-- migrate:up\n");
    let ghost head = out@;
    let mut i: usize = 0;
    while i < change.up.len()
        invariant
            i <= change.up@.len(),
            out@ == head + statement_lines(views(change.up@.take(i as int))),
        decreases change.up@.len() - i,
    {
        assert(views(change.up@.take(i + 1)).drop_last() =~= views(change.up@.take(i as int)));
        push_statement(&mut out, change.up[i].as_str());
        i = i + 1;
    }
    assert(change.up@.take(i as int) == change.up@);
    push_str(&mut out, "\n-- migrate:down\n");
    let ghost mid = out@;
    let mut j: usize = 0;
    while j < change.down.len()
        invariant
            j <= change.down@.len(),
            out@ == mid + statement_lines(views(change.down@.take(j as int))),
        decreases change.down@.len() - j,
    {
        assert(views(change.down@.take(j + 1)).drop_last() =~= views(change.down@.take(j as int)));
        push_statement(&mut out, change.down[j].as_str());
        j = j + 1;
    }
    assert(change.down@.take(j as int) == change.down@);
    out
}

/// `h` is the head of the chain the migration `files` form: `None` for no
/// files, else the revision of the last file in chain order.
pub open spec fn head_of(files: Seq<MigrationFile>, h: Option<Seq<char>>) -> bool {
    &&& (h is None <==> files.len() == 0)
    &&& (h matches Some(x) ==> exists|order: Seq<int>|
        chain_order(files, order) && x == rev_of(files, order.last()))
}

/// Prepares the migration file for `change`, chained onto the head of the
/// existing migration `files`: its file name `<revision>_<snake name>.sql` and
/// its contents, under a fresh random 12-digit hex revision. Returns `None`
/// when the change has nothing executable.
pub fn prepare_migration(files: Vec<MigrationFile>, name: &str, change: &SchemaChange) -> (r: Result<Option<(String, String)>, OrmError>)
    ensures
        (forall|i: int| 0 <= i < change.up@.len() ==> is_comment(#[trigger] change.up@[i]@)) ==> r
            matches Ok(None),
        !(forall|i: int| 0 <= i < change.up@.len() ==> is_comment(#[trigger] change.up@[i]@)) ==> (r
            is Ok <==> forms_chain(files@)),
        r matches Err(e) ==> e.spec_kind() == ErrorKind::Configuration,
        r matches Ok(Some(p)) ==> {
            &&& p.0@.len() == 12 + snake(name@).len() + 5
            &&& forall|i: int| 0 <= i < 12 ==> is_lower_hex(#[trigger] p.0@[i])
            &&& p.0@ == p.0@.take(12) + "_"@ + snake(name@) + ".sql"@
            &&& exists|h: Option<Seq<char>>|
                #[trigger] head_of(files@, h) && p.1@ == migration_file_text(
                    p.0@.take(12),
                    h,
                    snake(name@),
                    views(change.up@),
                    views(change.down@),
                )
        },
{
    if change.is_empty() {
        return Ok(None);
    }
    let ghost fs = files@;
    let down_revision = head_revision(files)?;
    let revision = new_revision();
    let slug = snake_case(name);
    let contents = match &down_revision {
        Some(d) => render_migration_file(revision.as_str(), Some(d.as_str()), slug.as_str(), change),
        None => render_migration_file(revision.as_str(), None, slug.as_str(), change),
    };
    let mut file_name = String::new();
    push_str(&mut file_name, revision.as_str());
    push_str(&mut file_name, "_");
    push_str(&mut file_name, slug.as_str());
    push_str(&mut file_name, ".sql");
    proof {
        reveal_strlit("_");
        reveal_strlit(".sql");
        let head: Option<Seq<char>> = match &down_revision {
            Some(d) => Some(d@),
            None => None,
        };
        assert(file_name@.take(12) =~= revision@);
        assert(head_of(fs, head));
    }
    Ok(Some((file_name, contents)))
}

} // verus!
