//! Database-backed enumerations.
//!
//! A [`DbEnum`] is a Rust enum stored in the database as one of a fixed set of
//! text values. The column is rendered as a native `ENUM(...)` on MySQL and as a
//! text column plus a `CHECK (... IN (...))` constraint on dialects without a
//! native enum type, so a bad value is rejected by the database on every backend.

use vstd::prelude::*;

use crate::dialect::SqlType;
use crate::error::OrmError;
use crate::text::owned;

verus! {

/// The column type of an enum named `name` whose stored values are `variants`,
/// in declaration order.
pub fn enum_sql_type(name: &str, variants: &[&str]) -> (t: SqlType)
    ensures
        t matches SqlType::Enum { name: n, variants: v } && n@ == name@ && v@.len()
            == variants@.len() && forall|i: int| 0 <= i < v@.len() ==> #[trigger] v@[i]@ == variants@[i]@,
{
    let mut stored: Vec<String> = Vec::new();
    let mut i: usize = 0;
    while i < variants.len()
        invariant
            i <= variants@.len(),
            stored@.len() == i,
            forall|j: int| 0 <= j < i ==> #[trigger] stored@[j]@ == variants@[j]@,
        decreases variants@.len() - i,
    {
        stored.push(owned(variants[i]));
        i = i + 1;
    }
    SqlType::Enum { name: owned(name), variants: stored }
}

/// A Rust enum mapped to a fixed set of stored text values.
pub trait DbEnum: Sized {
    /// The enum's name, used as the type/constraint name in generated DDL.
    const ENUM_NAME: &'static str;

    /// Every allowed stored value, in declaration order.
    const VARIANTS: &'static [&'static str];

    /// The abstract column type for this enum, including the variant list the
    /// DDL renderer constrains against.
    fn sql_type() -> SqlType {
        enum_sql_type(Self::ENUM_NAME, Self::VARIANTS)
    }

    /// Returns this value's stored text form.
    fn as_db_str(&self) -> &'static str;

    /// Parses a stored text value back into the enum; a conversion error when the
    /// value is not one of the variants.
    fn from_db_str(value: &str) -> Result<Self, OrmError>;
}

} // verus!
