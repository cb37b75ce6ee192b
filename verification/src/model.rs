//! The metadata a model declares about its table: columns, defaults and foreign
//! keys.

use vstd::prelude::*;

use crate::dialect::SqlType;

verus! {

/// The action a foreign key takes when the referenced row changes.
#[derive(Debug, Clone, Copy, PartialEq, Eq, Structural)]
pub enum ForeignKeyAction {
    /// `NO ACTION` (the default).
    NoAction,
    /// `RESTRICT`.
    Restrict,
    /// `CASCADE`.
    Cascade,
    /// `SET NULL`.
    SetNull,
    /// `SET DEFAULT`.
    SetDefault,
}

/// The SQL keyword of an action, or `None` for the default `NO ACTION`.
pub open spec fn fk_action_text(a: ForeignKeyAction) -> Option<Seq<char>> {
    match a {
        ForeignKeyAction::NoAction => None,
        ForeignKeyAction::Restrict => Some("RESTRICT"@),
        ForeignKeyAction::Cascade => Some("CASCADE"@),
        ForeignKeyAction::SetNull => Some("SET NULL"@),
        ForeignKeyAction::SetDefault => Some("SET DEFAULT"@),
    }
}

impl ForeignKeyAction {
    /// Returns the SQL keyword, or `None` for the default `NO ACTION`.
    pub fn as_sql(self) -> (r: Option<&'static str>)
        ensures
            match (r, fk_action_text(self)) {
                (Some(s), Some(t)) => s@ == t,
                (None, None) => true,
                _ => false,
            },
    {
        match self {
            ForeignKeyAction::NoAction => None,
            ForeignKeyAction::Restrict => Some("RESTRICT"),
            ForeignKeyAction::Cascade => Some("CASCADE"),
            ForeignKeyAction::SetNull => Some("SET NULL"),
            ForeignKeyAction::SetDefault => Some("SET DEFAULT"),
        }
    }
}

impl Default for ForeignKeyAction {
    fn default() -> (a: Self)
        ensures
            a == ForeignKeyAction::NoAction,
    {
        ForeignKeyAction::NoAction
    }
}

/// A foreign key reference recorded on a column.
#[derive(Debug, Clone, Copy, PartialEq, Eq)]
pub struct ForeignKeyDef {
    /// The referenced table.
    pub table: &'static str,
    /// The referenced column in that table.
    pub column: &'static str,
    /// The `ON DELETE` action.
    pub on_delete: ForeignKeyAction,
    /// The `ON UPDATE` action.
    pub on_update: ForeignKeyAction,
}

/// A database-side default value declared on a model column.
#[derive(Debug, Clone, Copy, PartialEq, Eq)]
pub enum ColumnDefault {
    /// `DEFAULT CURRENT_TIMESTAMP`: the database fills the insert time.
    CurrentTimestamp,
    /// A generated UUID (PostgreSQL `DEFAULT gen_random_uuid()`).
    Uuid,
    /// Verbatim SQL default, the caller's responsibility.
    Raw(&'static str),
}

/// The description of a single model column.
#[derive(Debug)]
pub struct ColumnDef {
    /// The column name in the database.
    pub name: &'static str,
    /// The abstract SQL type of the column.
    pub sql_type: SqlType,
    /// Whether the column is (part of) the primary key.
    pub primary_key: bool,
    /// Whether the database assigns the value automatically (auto-increment).
    pub auto: bool,
    /// Whether the column accepts `NULL`.
    pub nullable: bool,
    /// A foreign key reference, if the column points at another table.
    pub foreign_key: Option<ForeignKeyDef>,
    /// A database-side default; when set, the column is omitted from `INSERT`.
    pub default: Option<ColumnDefault>,
}

} // verus!
