//! The schema-change (DDL) AST.
//!
//! These backend-neutral structures describe a schema change; the
//! [`render`](crate::migration::render) layer turns them into SQL for a given
//! dialect.

use vstd::prelude::*;

use crate::dialect::SqlType;
use crate::index::IndexDef;

pub use crate::model::ForeignKeyAction;

verus! {

/// A column default value, rendered as a SQL literal (defaults cannot be bound
/// parameters).
#[derive(Debug)]
pub enum DefaultValue {
    /// A boolean, rendered as the dialect's boolean literal.
    Bool(bool),
    /// An integer literal.
    Int(i64),
    /// A floating point literal, as its decimal text.
    Real(String),
    /// A text literal (single-quoted, with embedded quotes doubled).
    Text(String),
    /// The `CURRENT_TIMESTAMP` keyword.
    CurrentTimestamp,
    /// A generated UUID.
    Uuid,
    /// The `NULL` keyword.
    Null,
    /// Verbatim SQL, an escape hatch the caller is responsible for.
    Raw(String),
}

/// The specification of a single column in a DDL statement.
#[derive(Debug)]
pub struct ColumnSpec {
    /// The column name.
    pub name: String,
    /// The abstract column type.
    pub ty: SqlType,
    /// Whether the column accepts `NULL`.
    pub nullable: bool,
    /// Whether the column is (part of) the primary key.
    pub primary_key: bool,
    /// Whether the database assigns the value automatically.
    pub auto_increment: bool,
    /// Whether the column has a `UNIQUE` constraint.
    pub unique: bool,
    /// An optional default value.
    pub default: Option<DefaultValue>,
}

impl ColumnSpec {
    /// Builds a non-null column spec of the given type with no constraints.
    pub fn new(name: String, ty: SqlType) -> (c: Self)
        ensures
            c == (ColumnSpec {
                name,
                ty,
                nullable: false,
                primary_key: false,
                auto_increment: false,
                unique: false,
                default: None,
            }),
    {
        ColumnSpec {
            name,
            ty,
            nullable: false,
            primary_key: false,
            auto_increment: false,
            unique: false,
            default: None,
        }
    }
}

/// A foreign key constraint.
#[derive(Debug)]
pub struct ForeignKeySpec {
    /// The local columns.
    pub columns: Vec<String>,
    /// The referenced table.
    pub ref_table: String,
    /// The referenced columns.
    pub ref_columns: Vec<String>,
    /// The `ON DELETE` action.
    pub on_delete: ForeignKeyAction,
    /// The `ON UPDATE` action.
    pub on_update: ForeignKeyAction,
}

/// A plain index description: a name, a table and its columns.
#[derive(Debug)]
pub struct IndexSpec {
    /// The index name.
    pub name: String,
    /// The table the index is on.
    pub table: String,
    /// The indexed columns.
    pub columns: Vec<String>,
    /// Whether the index is unique.
    pub unique: bool,
    /// Whether to use `IF NOT EXISTS`.
    pub if_not_exists: bool,
}

/// A `CREATE TABLE` definition.
#[derive(Debug)]
pub struct TableDef {
    /// The table name.
    pub name: String,
    /// Whether to use `IF NOT EXISTS`.
    pub if_not_exists: bool,
    /// The columns, in declaration order.
    pub columns: Vec<ColumnSpec>,
    /// Composite primary key columns (when not declared inline on a column).
    pub primary_key: Vec<String>,
    /// Foreign key constraints.
    pub foreign_keys: Vec<ForeignKeySpec>,
    /// Table-level `CHECK` expressions, rendered verbatim.
    pub checks: Vec<String>,
    /// Indexes created alongside the table.
    pub indexes: Vec<IndexDef>,
}

impl TableDef {
    /// Builds an empty table definition.
    pub fn new(name: String) -> (t: Self)
        ensures
            t.name == name,
            !t.if_not_exists,
            t.columns@.len() == 0,
            t.primary_key@.len() == 0,
            t.foreign_keys@.len() == 0,
            t.checks@.len() == 0,
            t.indexes@.len() == 0,
    {
        TableDef {
            name,
            if_not_exists: false,
            columns: Vec::new(),
            primary_key: Vec::new(),
            foreign_keys: Vec::new(),
            checks: Vec::new(),
            indexes: Vec::new(),
        }
    }
}

/// One change within an `ALTER TABLE`.
#[derive(Debug)]
pub enum AlterAction {
    /// Add a column.
    AddColumn(ColumnSpec),
    /// Drop a column by name.
    DropColumn(String),
    /// Rename a column.
    RenameColumn {
        /// The current name.
        from: String,
        /// The new name.
        to: String,
    },
}

/// An `ALTER TABLE` statement.
#[derive(Debug)]
pub struct AlterTable {
    /// The table being altered.
    pub table: String,
    /// The changes to apply, in order.
    pub actions: Vec<AlterAction>,
}

} // verus!
