//! Index metadata: the columns of an index, their ordering, and the index's
//! options. A partial index's predicate reuses the query [`Expr`].

use vstd::prelude::*;

use crate::query::expr::Expr;

verus! {

/// Where `NULL`s sort relative to other values in an index column.
#[derive(Debug, Clone, Copy, PartialEq, Eq, Structural)]
pub enum NullsOrder {
    /// `NULLS FIRST`.
    First,
    /// `NULLS LAST`.
    Last,
}

/// One entry of an index: either a plain column or an expression, with optional
/// ordering, null placement, collation, and operator class.
#[derive(Debug)]
pub struct IndexColumn {
    /// The column name. Empty when this entry is an expression.
    pub name: String,
    /// A functional-index expression; when set, it is indexed instead of `name`.
    pub expression: Option<Expr>,
    /// Whether the entry is indexed in descending order.
    pub descending: bool,
    /// Where `NULL`s sort, if specified.
    pub nulls: Option<NullsOrder>,
    /// A collation to index under (e.g. `NOCASE`).
    pub collation: Option<String>,
    /// A backend-specific operator class (e.g. `gin_trgm_ops`); PostgreSQL only.
    pub opclass: Option<String>,
}

impl IndexColumn {
    /// Builds an ascending index column over a named column.
    pub fn new(name: String) -> (c: Self)
        ensures
            c.name == name,
            c.expression is None,
            !c.descending,
            c.nulls is None,
            c.collation is None,
            c.opclass is None,
    {
        IndexColumn {
            name,
            expression: None,
            descending: false,
            nulls: None,
            collation: None,
            opclass: None,
        }
    }

    /// Builds a functional index entry over an expression, such as `lower(email)`.
    pub fn expression(expression: Expr) -> (c: Self)
        ensures
            c.name@.len() == 0,
            c.expression == Some(expression),
            !c.descending,
            c.nulls is None,
            c.collation is None,
            c.opclass is None,
    {
        IndexColumn {
            name: String::new(),
            expression: Some(expression),
            descending: false,
            nulls: None,
            collation: None,
            opclass: None,
        }
    }

    /// Marks the entry ascending (the default).
    pub fn asc(self) -> (c: Self)
        ensures
            c == (IndexColumn { descending: false, ..self }),
    {
        IndexColumn { descending: false, ..self }
    }

    /// Marks the entry descending.
    pub fn desc(self) -> (c: Self)
        ensures
            c == (IndexColumn { descending: true, ..self }),
    {
        IndexColumn { descending: true, ..self }
    }

    /// Sorts `NULL`s first.
    pub fn nulls_first(self) -> (c: Self)
        ensures
            c == (IndexColumn { nulls: Some(NullsOrder::First), ..self }),
    {
        IndexColumn { nulls: Some(NullsOrder::First), ..self }
    }

    /// Sorts `NULL`s last.
    pub fn nulls_last(self) -> (c: Self)
        ensures
            c == (IndexColumn { nulls: Some(NullsOrder::Last), ..self }),
    {
        IndexColumn { nulls: Some(NullsOrder::Last), ..self }
    }

    /// Sets the collation to index under.
    pub fn collate(self, collation: String) -> (c: Self)
        ensures
            c == (IndexColumn { collation: Some(collation), ..self }),
    {
        IndexColumn { collation: Some(collation), ..self }
    }

    /// Sets the column's operator class (PostgreSQL).
    pub fn opclass(self, opclass: String) -> (c: Self)
        ensures
            c == (IndexColumn { opclass: Some(opclass), ..self }),
    {
        IndexColumn { opclass: Some(opclass), ..self }
    }
}

/// The definition of an index: its columns, uniqueness, an optional partial
/// predicate, and the PostgreSQL-only method and covering columns.
#[derive(Debug)]
pub struct IndexDef {
    /// The index name.
    pub name: String,
    /// The indexed columns, in order.
    pub columns: Vec<IndexColumn>,
    /// Whether the index is unique.
    pub unique: bool,
    /// A partial-index predicate (`WHERE ...`).
    pub predicate: Option<Expr>,
    /// The index method (`USING ...`); PostgreSQL only.
    pub method: Option<String>,
    /// Covering columns (`INCLUDE (...)`); PostgreSQL only.
    pub covering: Vec<String>,
}

impl IndexDef {
    /// Builds an empty index definition with the given name.
    pub fn new(name: String) -> (d: Self)
        ensures
            d.name == name,
            d.columns@.len() == 0,
            !d.unique,
            d.predicate is None,
            d.method is None,
            d.covering@.len() == 0,
    {
        IndexDef {
            name,
            columns: Vec::new(),
            unique: false,
            predicate: None,
            method: None,
            covering: Vec::new(),
        }
    }
}

} // verus!
