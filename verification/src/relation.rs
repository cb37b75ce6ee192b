//! Relationship descriptors.
//!
//! A [`Relation`] describes how two models connect. It drives joins (for
//! filtering and aggregation) and preloading. A relation is a directed key pair:
//! a join is always `from_table.from_column = to_table.to_column`, and `to_table`
//! is the table brought into the query.

use std::marker::PhantomData;

use vstd::prelude::*;

use crate::query::ast::{Join, JoinKind, OrderItem};
use crate::query::expr::Expr;

verus! {

/// The kind of association between two models.
#[derive(Debug, Clone, Copy, PartialEq, Eq, Structural)]
pub enum RelationKind {
    /// The parent has many children that carry its key (one-to-many).
    HasMany,
    /// This model carries a key referencing one parent (many-to-one).
    BelongsTo,
}

/// Describes how a parent model `P` relates to a related model `C`.
pub struct Relation<P, C> {
    kind: RelationKind,
    from_table: &'static str,
    from_column: &'static str,
    to_table: &'static str,
    to_column: &'static str,
    filters: Vec<Expr>,
    order_by: Vec<OrderItem>,
    _marker: PhantomData<(P, C)>,
}

impl<P, C> Relation<P, C> {
    /// The kind of this relation.
    pub closed spec fn spec_kind(&self) -> RelationKind {
        self.kind
    }

    /// The owning side `(table, column)` of the join condition.
    pub closed spec fn spec_from(&self) -> (&'static str, &'static str) {
        (self.from_table, self.from_column)
    }

    /// The related side `(table, column)` of the join condition.
    pub closed spec fn spec_to(&self) -> (&'static str, &'static str) {
        (self.to_table, self.to_column)
    }

    /// The predicates applied when preloading.
    pub closed spec fn spec_filters(&self) -> Seq<Expr> {
        self.filters@
    }

    /// The ordering applied when preloading.
    pub closed spec fn spec_order_by(&self) -> Seq<OrderItem> {
        self.order_by@
    }

    /// Builds a `has_many` relation: `parent.parent_key = child.child_key`.
    pub fn has_many(
        parent_table: &'static str,
        parent_key: &'static str,
        child_table: &'static str,
        child_key: &'static str,
    ) -> (r: Self)
        ensures
            r.spec_kind() == RelationKind::HasMany,
            r.spec_from() == (parent_table, parent_key),
            r.spec_to() == (child_table, child_key),
            r.spec_filters().len() == 0,
            r.spec_order_by().len() == 0,
    {
        Relation {
            kind: RelationKind::HasMany,
            from_table: parent_table,
            from_column: parent_key,
            to_table: child_table,
            to_column: child_key,
            filters: Vec::new(),
            order_by: Vec::new(),
            _marker: PhantomData,
        }
    }

    /// Builds a `belongs_to` relation: `local.local_key = parent.parent_key`.
    pub fn belongs_to(
        local_table: &'static str,
        local_key: &'static str,
        parent_table: &'static str,
        parent_key: &'static str,
    ) -> (r: Self)
        ensures
            r.spec_kind() == RelationKind::BelongsTo,
            r.spec_from() == (local_table, local_key),
            r.spec_to() == (parent_table, parent_key),
            r.spec_filters().len() == 0,
            r.spec_order_by().len() == 0,
    {
        Relation {
            kind: RelationKind::BelongsTo,
            from_table: local_table,
            from_column: local_key,
            to_table: parent_table,
            to_column: parent_key,
            filters: Vec::new(),
            order_by: Vec::new(),
            _marker: PhantomData,
        }
    }

    /// Constrains the related rows loaded by a preload (no effect on a plain join).
    pub fn filter(self, predicate: Expr) -> (r: Self)
        ensures
            r.spec_kind() == self.spec_kind(),
            r.spec_from() == self.spec_from(),
            r.spec_to() == self.spec_to(),
            r.spec_filters() == self.spec_filters().push(predicate),
            r.spec_order_by() == self.spec_order_by(),
    {
        let mut r = self;
        r.filters.push(predicate);
        r
    }

    /// Orders the related rows loaded by a preload.
    pub fn order_by(self, term: OrderItem) -> (r: Self)
        ensures
            r.spec_kind() == self.spec_kind(),
            r.spec_from() == self.spec_from(),
            r.spec_to() == self.spec_to(),
            r.spec_filters() == self.spec_filters(),
            r.spec_order_by() == self.spec_order_by().push(term),
    {
        let mut r = self;
        r.order_by.push(term);
        r
    }

    /// The kind of this relation.
    pub fn kind(&self) -> (k: RelationKind)
        ensures
            k == self.spec_kind(),
    {
        self.kind
    }

    /// The table this relation brings into a query when joined.
    pub fn target_table(&self) -> (t: &'static str)
        ensures
            t == self.spec_to().0,
    {
        self.to_table
    }

    /// The owning side column of the join condition.
    pub fn from_column(&self) -> (c: &'static str)
        ensures
            c == self.spec_from().1,
    {
        self.from_column
    }

    /// The related side column of the join condition.
    pub fn to_column(&self) -> (c: &'static str)
        ensures
            c == self.spec_to().1,
    {
        self.to_column
    }

    /// The extra predicates applied when preloading.
    pub fn preload_filters(&self) -> (f: &[Expr])
        ensures
            f@ == self.spec_filters(),
    {
        self.filters.as_slice()
    }

    /// The ordering applied when preloading.
    pub fn preload_order_by(&self) -> (o: &[OrderItem])
        ensures
            o@ == self.spec_order_by(),
    {
        self.order_by.as_slice()
    }

    /// The inner join node for this relation.
    pub fn join_node(&self) -> (j: Join)
        ensures
            j == self.spec_join(JoinKind::Inner),
    {
        self.join_node_with_kind(JoinKind::Inner)
    }

    /// The join node for this relation, with the given kind of join.
    pub fn join_node_with_kind(&self, kind: JoinKind) -> (j: Join)
        ensures
            j == self.spec_join(kind),
    {
        Join {
            kind,
            table: self.to_table,
            alias: None,
            left_table: self.from_table,
            left_column: self.from_column,
            right_table: self.to_table,
            right_column: self.to_column,
        }
    }

    /// The join that brings the related table in: `from = to`.
    pub open spec fn spec_join(&self, kind: JoinKind) -> Join {
        Join {
            kind,
            table: self.spec_to().0,
            alias: None,
            left_table: self.spec_from().0,
            left_column: self.spec_from().1,
            right_table: self.spec_to().0,
            right_column: self.spec_to().1,
        }
    }
}

} // verus!
