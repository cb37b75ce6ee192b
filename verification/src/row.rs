//! A backend-agnostic, owned result row.
//!
//! Drivers read each result row into a [`Row`] before it leaves the worker that
//! produced it, so values never borrow from a driver-owned statement. Columns are
//! addressable by name or by index; the conversion functions of [`crate::value`]
//! read a value into a Rust type.

use vstd::prelude::*;

use crate::dialect::clone_strings;
use crate::error::{ErrorKind, OrmError};
use crate::text::{decimal, owned, push_decimal, push_str, str_eq};
use crate::value::{same_value, FromValue, Value};

verus! {

/// One row of a query result: column names and their values.
#[derive(Debug)]
pub struct Row {
    columns: Vec<String>,
    values: Vec<Value>,
}

/// The position of the first of `columns` named `name`, if any.
pub open spec fn first_named(columns: Seq<String>, name: Seq<char>) -> Option<nat>
    decreases columns.len(),
{
    if columns.len() == 0 {
        None
    } else if columns[0]@ == name {
        Some(0)
    } else {
        match first_named(columns.drop_first(), name) {
            Some(i) => Some(i + 1),
            None => None,
        }
    }
}

proof fn lemma_first_named_bound(columns: Seq<String>, name: Seq<char>)
    ensures
        first_named(columns, name) matches Some(k) ==> k < columns.len(),
    decreases columns.len(),
{
    if columns.len() > 0 {
        lemma_first_named_bound(columns.drop_first(), name);
    }
}

impl Row {
    /// The column names.
    pub closed spec fn spec_columns(&self) -> Seq<String> {
        self.columns@
    }

    /// The values, aligned with the columns.
    pub closed spec fn spec_values(&self) -> Seq<Value> {
        self.values@
    }

    /// Builds a row from column names and their values.
    pub fn new(columns: Vec<String>, values: Vec<Value>) -> (r: Self)
        ensures
            r.spec_columns() == columns@,
            r.spec_values() == values@,
    {
        Row { columns, values }
    }

    /// Builds a row reusing a result's shared column names.
    pub fn with_columns(columns: Vec<String>, values: Vec<Value>) -> (r: Self)
        ensures
            r.spec_columns() == columns@,
            r.spec_values() == values@,
    {
        Row { columns, values }
    }

    /// The column names, for reuse across sibling rows.
    pub fn columns(&self) -> (c: Vec<String>)
        ensures
            c@ == self.spec_columns(),
    {
        clone_strings(&self.columns)
    }

    /// The number of columns in this row.
    pub fn len(&self) -> (n: usize)
        ensures
            n == self.spec_values().len(),
    {
        self.values.len()
    }

    /// Whether the row has no columns.
    pub fn is_empty(&self) -> (b: bool)
        ensures
            b == (self.spec_values().len() == 0),
    {
        self.values.len() == 0
    }

    /// The raw value at a column index, without conversion.
    pub fn value_at(&self, index: usize) -> (v: Option<&Value>)
        ensures
            index < self.spec_values().len() ==> v == Some(&self.spec_values()[index as int]),
            index >= self.spec_values().len() ==> v is None,
    {
        if index < self.values.len() {
            Some(&self.values[index])
        } else {
            None
        }
    }

    /// The zero-based position of the first column named `name`, if present.
    pub fn index_of(&self, name: &str) -> (i: Option<usize>)
        ensures
            match first_named(self.spec_columns(), name@) {
                Some(k) => i == Some(k as usize),
                None => i is None,
            },
    {
        let mut i: usize = 0;
        assert(self.columns@.subrange(0, self.columns@.len() as int) == self.columns@);
        while i < self.columns.len()
            invariant
                i <= self.columns@.len(),
                first_named(self.columns@, name@) == match first_named(
                    self.columns@.subrange(i as int, self.columns@.len() as int),
                    name@,
                ) {
                    Some(k) => Some((k + i) as nat),
                    None => None,
                },
            decreases self.columns@.len() - i,
        {
            let ghost rest = self.columns@.subrange(i as int, self.columns@.len() as int);
            assert(rest.drop_first() == self.columns@.subrange(i + 1 as int, self.columns@.len() as int));
            assert(rest[0] == self.columns@[i as int]);
            if str_eq(self.columns[i].as_str(), name) {
                return Some(i);
            }
            i = i + 1;
        }
        None
    }

    /// Reads the value of the column named `name` into `T`.
    ///
    /// A conversion error when the row has no such column or its value cannot be
    /// read as `T`.
    pub fn get<T: FromValue>(&self, name: &str) -> (r: Result<T, OrmError>)
        ensures
            match first_named(self.spec_columns(), name@) {
                Some(k) => if k < self.spec_values().len() {
                    exists|v: Value| same_value(v, self.spec_values()[k as int]) && #[trigger] T::read_as(v, r)
                } else {
                    r matches Err(e) && e.spec_kind() == ErrorKind::Conversion && e.spec_message()
                        == "column index "@ + decimal(k) + " out of range"@
                },
                None => r matches Err(e) && e.spec_kind() == ErrorKind::Conversion && e.spec_message()
                    == "no column named `"@ + name@ + "` in row"@,
            },
    {
        proof {
            lemma_first_named_bound(self.columns@, name@);
        }
        assert(self.columns@.len() == self.columns.len());
        match self.index_of(name) {
            Some(index) => self.get_index(index),
            None => {
                let mut message = owned("no column named `");
                push_str(&mut message, name);
                push_str(&mut message, "` in row");
                Err(OrmError::conversion(message.as_str()))
            },
        }
    }

    /// Reads the value at a column index into `T`.
    ///
    /// A conversion error when the index is out of range or the value cannot be
    /// read as `T`.
    pub fn get_index<T: FromValue>(&self, index: usize) -> (r: Result<T, OrmError>)
        ensures
            index < self.spec_values().len() ==> exists|v: Value|
                same_value(v, self.spec_values()[index as int]) && #[trigger] T::read_as(v, r),
            index >= self.spec_values().len() ==> (r matches Err(e) && e.spec_kind()
                == ErrorKind::Conversion && e.spec_message() == "column index "@ + decimal(
                index as nat,
            ) + " out of range"@),
    {
        if index < self.values.len() {
            let v = self.values[index].duplicate();
            let ghost v0 = v;
            let r = T::from_value(v);
            assert(same_value(v0, self.values@[index as int]) && T::read_as(v0, r));
            r
        } else {
            let mut message = owned("column index ");
            push_decimal(&mut message, index as u64);
            push_str(&mut message, " out of range");
            Err(OrmError::conversion(message.as_str()))
        }
    }
}

} // verus!
