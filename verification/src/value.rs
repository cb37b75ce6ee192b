//! The dialect-agnostic value type that crosses the database driver boundary.
//!
//! Every literal that appears in a query is carried as a [`Value`] and bound as a
//! parameter, never interpolated into SQL text. Floating-point numbers,
//! timestamps, JSON documents and UUIDs travel as their canonical text: the
//! shortest round-trip decimal of the float, RFC 3339, the serialized JSON, and
//! the hyphenated lower-case UUID. Drivers convert to and from their own types.

use vstd::prelude::*;

use crate::error::{ErrorKind, OrmError};
use crate::text::{owned, str_eq};

verus! {

/// A single database value, independent of any backend.
#[derive(Debug)]
pub enum Value {
    /// SQL `NULL`.
    Null,
    /// A boolean, stored as an integer `0` or `1` by backends without a native type.
    Bool(bool),
    /// A signed 64-bit integer.
    Int(i64),
    /// A 64-bit floating point number, as its shortest round-trip decimal text.
    Real(String),
    /// UTF-8 text.
    Text(String),
    /// Raw bytes.
    Blob(Vec<u8>),
    /// A timestamp, as RFC 3339 text.
    Timestamp(String),
    /// A JSON document, as its serialized text.
    Json(String),
    /// A UUID, in its hyphenated lower-case form.
    Uuid(String),
    /// An array of values.
    Array(Vec<Value>),
}

/// A copy of the bytes `v`.
pub fn clone_bytes(v: &Vec<u8>) -> (r: Vec<u8>)
    ensures
        r@ == v@,
{
    let mut r: Vec<u8> = Vec::new();
    let mut i: usize = 0;
    while i < v.len()
        invariant
            i <= v@.len(),
            r@ == v@.take(i as int),
        decreases v@.len() - i,
    {
        r.push(v[i]);
        i = i + 1;
    }
    assert(v@.take(i as int) == v@);
    r
}

/// Whether two values are the same value (byte and array contents compared by
/// their views).
pub open spec fn same_value(a: Value, b: Value) -> bool
    decreases a,
{
    match (a, b) {
        (Value::Blob(x), Value::Blob(y)) => x@ == y@,
        (Value::Array(x), Value::Array(y)) => x@.len() == y@.len() && forall|i: int|
            0 <= i < x@.len() ==> same_value(#[trigger] x@[i], y@[i]),
        (Value::Blob(_), _) => false,
        (Value::Array(_), _) => false,
        _ => a == b,
    }
}

impl Value {
    /// Returns `true` if this value is [`Value::Null`].
    pub fn is_null(&self) -> (b: bool)
        ensures
            b == (*self is Null),
    {
        match self {
            Value::Null => true,
            _ => false,
        }
    }

    /// A copy of this value.
    pub fn duplicate(&self) -> (r: Value)
        ensures
            same_value(r, *self),
        decreases self,
    {
        match self {
            Value::Null => Value::Null,
            Value::Bool(b) => Value::Bool(*b),
            Value::Int(i) => Value::Int(*i),
            Value::Real(t) => Value::Real(t.clone()),
            Value::Text(t) => Value::Text(t.clone()),
            Value::Blob(b) => Value::Blob(clone_bytes(b)),
            Value::Timestamp(t) => Value::Timestamp(t.clone()),
            Value::Json(t) => Value::Json(t.clone()),
            Value::Uuid(t) => Value::Uuid(t.clone()),
            Value::Array(items) => Value::Array(duplicate_values(items)),
        }
    }
}

/// Copies of the values `items`.
pub fn duplicate_values(items: &Vec<Value>) -> (out: Vec<Value>)
    ensures
        out@.len() == items@.len(),
        forall|k: int| 0 <= k < items@.len() ==> same_value(#[trigger] out@[k], items@[k]),
    decreases items,
{
    let mut out: Vec<Value> = Vec::new();
    let mut i: usize = 0;
    while i < items.len()
        invariant
            i <= items@.len(),
            out@.len() == i,
            forall|k: int| 0 <= k < i ==> same_value(#[trigger] out@[k], items@[k]),
        decreases items@.len() - i,
    {
        proof {
            vstd::std_specs::vec::axiom_vec_index_decreases(*items, i as int);
        }
        out.push(items[i].duplicate());
        i = i + 1;
    }
    out
}

/// Reads an `i64`: an integer as is, a boolean as `0`/`1`.
pub fn i64_from_value(value: Value) -> (r: Result<i64, OrmError>)
    ensures
        value matches Value::Int(i) ==> r == Ok::<i64, OrmError>(i),
        value matches Value::Bool(b) ==> r == Ok::<i64, OrmError>(if b { 1i64 } else { 0i64 }),
        !(value is Int || value is Bool) ==> (r matches Err(e) && e.spec_kind()
            == ErrorKind::Conversion),
{
    match value {
        Value::Int(i) => Ok(i),
        Value::Bool(b) => Ok(if b {
            1
        } else {
            0
        }),
        _ => Err(OrmError::conversion("cannot read i64 from value")),
    }
}

/// Reads a `bool`: a boolean as is, an integer as "not zero".
pub fn bool_from_value(value: Value) -> (r: Result<bool, OrmError>)
    ensures
        value matches Value::Bool(b) ==> r == Ok::<bool, OrmError>(b),
        value matches Value::Int(i) ==> r == Ok::<bool, OrmError>(i != 0),
        !(value is Int || value is Bool) ==> (r matches Err(e) && e.spec_kind()
            == ErrorKind::Conversion),
{
    match value {
        Value::Bool(b) => Ok(b),
        Value::Int(i) => Ok(i != 0),
        _ => Err(OrmError::conversion("cannot read bool from value")),
    }
}

/// Reads a `String`: only text converts.
pub fn string_from_value(value: Value) -> (r: Result<String, OrmError>)
    ensures
        value matches Value::Text(s) ==> (r matches Ok(t) && t@ == s@),
        !(value is Text) ==> (r matches Err(e) && e.spec_kind() == ErrorKind::Conversion),
{
    match value {
        Value::Text(s) => Ok(s),
        _ => Err(OrmError::conversion("cannot read String from value")),
    }
}

/// Whether two join-key values are the same key: the same kind of value with the
/// same contents (text compared by its characters).
pub open spec fn same_key(a: Value, b: Value) -> bool
    decreases a,
{
    match (a, b) {
        (Value::Null, Value::Null) => true,
        (Value::Bool(x), Value::Bool(y)) => x == y,
        (Value::Int(x), Value::Int(y)) => x == y,
        (Value::Real(x), Value::Real(y)) => x@ == y@,
        (Value::Text(x), Value::Text(y)) => x@ == y@,
        (Value::Blob(x), Value::Blob(y)) => x@ == y@,
        (Value::Timestamp(x), Value::Timestamp(y)) => x@ == y@,
        (Value::Json(x), Value::Json(y)) => x@ == y@,
        (Value::Uuid(x), Value::Uuid(y)) => x@ == y@,
        (Value::Array(x), Value::Array(y)) => x@.len() == y@.len() && forall|i: int|
            0 <= i < x@.len() ==> same_key(#[trigger] x@[i], y@[i]),
        _ => false,
    }
}

fn same_bytes(a: &Vec<u8>, b: &Vec<u8>) -> (r: bool)
    ensures
        r == (a@ == b@),
{
    if a.len() != b.len() {
        return false;
    }
    let mut i: usize = 0;
    while i < a.len()
        invariant
            i <= a@.len(),
            a@.len() == b@.len(),
            forall|j: int| 0 <= j < i ==> a@[j] == b@[j],
        decreases a@.len() - i,
    {
        if a[i] != b[i] {
            return false;
        }
        i = i + 1;
    }
    assert(a@ =~= b@);
    true
}

/// Whether two join-key values are the same key.
pub fn same_key_exec(a: &Value, b: &Value) -> (r: bool)
    ensures
        r == same_key(*a, *b),
    decreases a,
{
    match (a, b) {
        (Value::Null, Value::Null) => true,
        (Value::Bool(x), Value::Bool(y)) => *x == *y,
        (Value::Int(x), Value::Int(y)) => *x == *y,
        (Value::Real(x), Value::Real(y)) => str_eq(x.as_str(), y.as_str()),
        (Value::Text(x), Value::Text(y)) => str_eq(x.as_str(), y.as_str()),
        (Value::Blob(x), Value::Blob(y)) => same_bytes(x, y),
        (Value::Timestamp(x), Value::Timestamp(y)) => str_eq(x.as_str(), y.as_str()),
        (Value::Json(x), Value::Json(y)) => str_eq(x.as_str(), y.as_str()),
        (Value::Uuid(x), Value::Uuid(y)) => str_eq(x.as_str(), y.as_str()),
        (Value::Array(x), Value::Array(y)) => same_keys_exec(x, y),
        _ => false,
    }
}

/// Whether two lists of join-key values are the same keys, item by item.
fn same_keys_exec(x: &Vec<Value>, y: &Vec<Value>) -> (r: bool)
    ensures
        r == (x@.len() == y@.len() && forall|i: int| 0 <= i < x@.len() ==> same_key(#[trigger] x@[i], y@[i])),
    decreases x,
{
    if x.len() != y.len() {
        return false;
    }
    let mut i: usize = 0;
    while i < x.len()
        invariant
            i <= x@.len(),
            x@.len() == y@.len(),
            forall|j: int| 0 <= j < i ==> same_key(#[trigger] x@[j], y@[j]),
        decreases x@.len() - i,
    {
        proof {
            vstd::std_specs::vec::axiom_vec_index_decreases(*x, i as int);
        }
        if !same_key_exec(&x[i], &y[i]) {
            return false;
        }
        i = i + 1;
    }
    true
}

/// Same values are the same key.
pub proof fn lemma_same_value_same_key(a: Value, b: Value)
    requires
        same_value(a, b),
    ensures
        same_key(a, b),
    decreases a,
{
    match (a, b) {
        (Value::Array(x), Value::Array(y)) => {
            assert forall|i: int| 0 <= i < x@.len() implies same_key(#[trigger] x@[i], y@[i]) by {
                lemma_same_value_same_key(x@[i], y@[i]);
            }
        },
        _ => {},
    }
}

/// A Rust value that can be bound as a query parameter.
pub trait BindValue {
    /// Whether `v` is what this binds as.
    spec fn binds_as(&self, v: Value) -> bool;

    /// Lowers this into a bound value.
    fn to_value(&self) -> (v: Value)
        ensures
            self.binds_as(v),
    ;
}

impl BindValue for Value {
    open spec fn binds_as(&self, v: Value) -> bool {
        same_key(v, *self)
    }

    fn to_value(&self) -> (v: Value) {
        let v = self.duplicate();
        proof {
            lemma_same_value_same_key(v, *self);
        }
        v
    }
}

impl BindValue for bool {
    open spec fn binds_as(&self, v: Value) -> bool {
        v == Value::Bool(*self)
    }

    fn to_value(&self) -> (v: Value) {
        Value::Bool(*self)
    }
}

impl BindValue for i64 {
    open spec fn binds_as(&self, v: Value) -> bool {
        v == Value::Int(*self)
    }

    fn to_value(&self) -> (v: Value) {
        Value::Int(*self)
    }
}

impl BindValue for i32 {
    open spec fn binds_as(&self, v: Value) -> bool {
        v == Value::Int(*self as i64)
    }

    fn to_value(&self) -> (v: Value) {
        Value::Int(*self as i64)
    }
}

impl BindValue for i16 {
    open spec fn binds_as(&self, v: Value) -> bool {
        v == Value::Int(*self as i64)
    }

    fn to_value(&self) -> (v: Value) {
        Value::Int(*self as i64)
    }
}

impl BindValue for i8 {
    open spec fn binds_as(&self, v: Value) -> bool {
        v == Value::Int(*self as i64)
    }

    fn to_value(&self) -> (v: Value) {
        Value::Int(*self as i64)
    }
}

impl BindValue for u8 {
    open spec fn binds_as(&self, v: Value) -> bool {
        v == Value::Int(*self as i64)
    }

    fn to_value(&self) -> (v: Value) {
        Value::Int(*self as i64)
    }
}

impl BindValue for u16 {
    open spec fn binds_as(&self, v: Value) -> bool {
        v == Value::Int(*self as i64)
    }

    fn to_value(&self) -> (v: Value) {
        Value::Int(*self as i64)
    }
}

impl BindValue for u32 {
    open spec fn binds_as(&self, v: Value) -> bool {
        v == Value::Int(*self as i64)
    }

    fn to_value(&self) -> (v: Value) {
        Value::Int(*self as i64)
    }
}

/// A value above `i64::MAX` wraps into the negative range, as `as i64` does.
impl BindValue for u64 {
    open spec fn binds_as(&self, v: Value) -> bool {
        v == Value::Int(*self as i64)
    }

    fn to_value(&self) -> (v: Value) {
        Value::Int(*self as i64)
    }
}

/// A value above `i64::MAX` wraps into the negative range, as `as i64` does.
impl BindValue for usize {
    open spec fn binds_as(&self, v: Value) -> bool {
        v == Value::Int(*self as i64)
    }

    fn to_value(&self) -> (v: Value) {
        Value::Int(*self as i64)
    }
}

impl BindValue for String {
    open spec fn binds_as(&self, v: Value) -> bool {
        is_text_value(v, self@)
    }

    fn to_value(&self) -> (v: Value) {
        Value::Text(self.clone())
    }
}

impl BindValue for &str {
    open spec fn binds_as(&self, v: Value) -> bool {
        is_text_value(v, self@)
    }

    fn to_value(&self) -> (v: Value) {
        Value::Text(owned(*self))
    }
}

impl BindValue for Vec<u8> {
    open spec fn binds_as(&self, v: Value) -> bool {
        v matches Value::Blob(b) && b@ == self@
    }

    fn to_value(&self) -> (v: Value) {
        Value::Blob(clone_bytes(self))
    }
}

impl<T: BindValue> BindValue for Option<T> {
    open spec fn binds_as(&self, v: Value) -> bool {
        match self {
            Some(inner) => inner.binds_as(v),
            None => v is Null,
        }
    }

    fn to_value(&self) -> (v: Value) {
        match self {
            Some(inner) => inner.to_value(),
            None => Value::Null,
        }
    }
}

/// The bound text `t`.
pub open spec fn is_text_value(v: Value, t: Seq<char>) -> bool {
    v matches Value::Text(s) && s@ == t
}


/// Reads a Rust value out of a [`Value`] read from a result row; a conversion
/// error when the value cannot be read as the type (for example a `NULL` read
/// into a non-optional field).
pub trait FromValue: Sized {
    /// Whether `r` is what reading `value` gives.
    spec fn read_as(value: Value, r: Result<Self, OrmError>) -> bool;

    /// Reads this type from a database value.
    fn from_value(value: Value) -> (r: Result<Self, OrmError>)
        ensures
            Self::read_as(value, r),
    ;
}

/// Whether `r` is a conversion error.
pub open spec fn conversion_error<T>(r: Result<T, OrmError>) -> bool {
    r matches Err(e) && e.spec_kind() == ErrorKind::Conversion
}

impl FromValue for Value {
    open spec fn read_as(value: Value, r: Result<Self, OrmError>) -> bool {
        r == Ok::<Value, OrmError>(value)
    }

    fn from_value(value: Value) -> (r: Result<Self, OrmError>) {
        Ok(value)
    }
}

impl FromValue for bool {
    open spec fn read_as(value: Value, r: Result<Self, OrmError>) -> bool {
        match value {
            Value::Bool(b) => r == Ok::<bool, OrmError>(b),
            Value::Int(i) => r == Ok::<bool, OrmError>(i != 0),
            _ => conversion_error(r),
        }
    }

    fn from_value(value: Value) -> (r: Result<Self, OrmError>) {
        bool_from_value(value)
    }
}

/// The integer a value reads as: an integer as is, a boolean as `0` or `1`.
pub open spec fn wide_int(value: Value) -> Option<i64> {
    match value {
        Value::Int(i) => Some(i),
        Value::Bool(b) => Some(
            if b {
                1i64
            } else {
                0i64
            },
        ),
        _ => None,
    }
}

impl FromValue for i64 {
    open spec fn read_as(value: Value, r: Result<Self, OrmError>) -> bool {
        match wide_int(value) {
            Some(i) => r == Ok::<i64, OrmError>(i),
            None => conversion_error(r),
        }
    }

    fn from_value(value: Value) -> (r: Result<Self, OrmError>) {
        i64_from_value(value)
    }
}

/// Whether `r` reads `value` as an integer in `[lo, hi]`: the integer where it is
/// in range, an "integer out of range for `name`" conversion error where not, and a
/// conversion error for a value that is no integer.
pub open spec fn reads_ranged(value: Value, r: Result<i64, OrmError>, lo: int, hi: int, name: Seq<char>) -> bool {
    match wide_int(value) {
        Some(i) => if lo <= i <= hi {
            r == Ok::<i64, OrmError>(i)
        } else {
            r matches Err(e) && e.spec_kind() == ErrorKind::Conversion && e.spec_message()
                == "integer out of range for "@ + name
        },
        None => conversion_error(r),
    }
}

/// Reads an integer that must lie in `[lo, hi]`; `name` names the target type in
/// the out-of-range message.
fn narrow(value: Value, lo: i64, hi: i64, name: &str) -> (r: Result<i64, OrmError>)
    ensures
        reads_ranged(value, r, lo as int, hi as int, name@),
{
    let wide = i64_from_value(value)?;
    if lo <= wide && wide <= hi {
        Ok(wide)
    } else {
        let mut message = owned("integer out of range for ");
        crate::text::push_str(&mut message, name);
        Err(OrmError::conversion(message.as_str()))
    }
}

/// Whether `r` is `n` read in range and narrowed to the target type by `cast`.
pub open spec fn narrowed<T>(n: Result<i64, OrmError>, r: Result<T, OrmError>, cast: spec_fn(i64) -> T) -> bool {
    match n {
        Ok(i) => r == Ok::<T, OrmError>(cast(i)),
        Err(e) => r == Err::<T, OrmError>(e),
    }
}

impl FromValue for i32 {
    open spec fn read_as(value: Value, r: Result<Self, OrmError>) -> bool {
        exists|n: Result<i64, OrmError>|
            reads_ranged(value, n, i32::MIN as int, i32::MAX as int, "i32"@) && narrowed(n, r, |i: i64| i as i32)
    }

    fn from_value(value: Value) -> (r: Result<Self, OrmError>) {
        let ghost v0 = value;
        let n = narrow(value, i32::MIN as i64, i32::MAX as i64, "i32");
        let r = match n {
            Ok(i) => Ok(i as i32),
            Err(e) => Err(e),
        };
        assert(narrowed(n, r, |i: i64| i as i32));
        r
    }
}

impl FromValue for i16 {
    open spec fn read_as(value: Value, r: Result<Self, OrmError>) -> bool {
        exists|n: Result<i64, OrmError>|
            reads_ranged(value, n, i16::MIN as int, i16::MAX as int, "i16"@) && narrowed(n, r, |i: i64| i as i16)
    }

    fn from_value(value: Value) -> (r: Result<Self, OrmError>) {
        let ghost v0 = value;
        let n = narrow(value, i16::MIN as i64, i16::MAX as i64, "i16");
        let r = match n {
            Ok(i) => Ok(i as i16),
            Err(e) => Err(e),
        };
        assert(narrowed(n, r, |i: i64| i as i16));
        r
    }
}

impl FromValue for i8 {
    open spec fn read_as(value: Value, r: Result<Self, OrmError>) -> bool {
        exists|n: Result<i64, OrmError>|
            reads_ranged(value, n, i8::MIN as int, i8::MAX as int, "i8"@) && narrowed(n, r, |i: i64| i as i8)
    }

    fn from_value(value: Value) -> (r: Result<Self, OrmError>) {
        let ghost v0 = value;
        let n = narrow(value, i8::MIN as i64, i8::MAX as i64, "i8");
        let r = match n {
            Ok(i) => Ok(i as i8),
            Err(e) => Err(e),
        };
        assert(narrowed(n, r, |i: i64| i as i8));
        r
    }
}

impl FromValue for u8 {
    open spec fn read_as(value: Value, r: Result<Self, OrmError>) -> bool {
        exists|n: Result<i64, OrmError>|
            reads_ranged(value, n, 0, u8::MAX as int, "u8"@) && narrowed(n, r, |i: i64| i as u8)
    }

    fn from_value(value: Value) -> (r: Result<Self, OrmError>) {
        let ghost v0 = value;
        let n = narrow(value, 0, u8::MAX as i64, "u8");
        let r = match n {
            Ok(i) => Ok(i as u8),
            Err(e) => Err(e),
        };
        assert(narrowed(n, r, |i: i64| i as u8));
        r
    }
}

impl FromValue for u16 {
    open spec fn read_as(value: Value, r: Result<Self, OrmError>) -> bool {
        exists|n: Result<i64, OrmError>|
            reads_ranged(value, n, 0, u16::MAX as int, "u16"@) && narrowed(n, r, |i: i64| i as u16)
    }

    fn from_value(value: Value) -> (r: Result<Self, OrmError>) {
        let ghost v0 = value;
        let n = narrow(value, 0, u16::MAX as i64, "u16");
        let r = match n {
            Ok(i) => Ok(i as u16),
            Err(e) => Err(e),
        };
        assert(narrowed(n, r, |i: i64| i as u16));
        r
    }
}

impl FromValue for u32 {
    open spec fn read_as(value: Value, r: Result<Self, OrmError>) -> bool {
        exists|n: Result<i64, OrmError>|
            reads_ranged(value, n, 0, u32::MAX as int, "u32"@) && narrowed(n, r, |i: i64| i as u32)
    }

    fn from_value(value: Value) -> (r: Result<Self, OrmError>) {
        let ghost v0 = value;
        let n = narrow(value, 0, u32::MAX as i64, "u32");
        let r = match n {
            Ok(i) => Ok(i as u32),
            Err(e) => Err(e),
        };
        assert(narrowed(n, r, |i: i64| i as u32));
        r
    }
}

impl FromValue for u64 {
    open spec fn read_as(value: Value, r: Result<Self, OrmError>) -> bool {
        exists|n: Result<i64, OrmError>|
            reads_ranged(value, n, 0, i64::MAX as int, "u64"@) && narrowed(n, r, |i: i64| i as u64)
    }

    fn from_value(value: Value) -> (r: Result<Self, OrmError>) {
        let ghost v0 = value;
        let n = narrow(value, 0, i64::MAX, "u64");
        let r = match n {
            Ok(i) => Ok(i as u64),
            Err(e) => Err(e),
        };
        assert(narrowed(n, r, |i: i64| i as u64));
        r
    }
}

/// The largest integer a `usize` reads: `usize::MAX`, or `i64::MAX` where that
/// is smaller.
pub open spec fn usize_cap() -> int {
    if usize::MAX < i64::MAX {
        usize::MAX as int
    } else {
        i64::MAX as int
    }
}

/// A `usize` reads any non-negative integer that fits the platform's `usize`.
impl FromValue for usize {
    open spec fn read_as(value: Value, r: Result<Self, OrmError>) -> bool {
        exists|n: Result<i64, OrmError>|
            reads_ranged(value, n, 0, usize_cap(), "usize"@)
                && narrowed(n, r, |i: i64| i as usize)
    }

    fn from_value(value: Value) -> (r: Result<Self, OrmError>) {
        let hi: i64 = if (usize::MAX as u64) < (i64::MAX as u64) {
            usize::MAX as i64
        } else {
            i64::MAX
        };
        let ghost v0 = value;
        let n = narrow(value, 0, hi, "usize");
        let r = match n {
            Ok(i) => Ok(i as usize),
            Err(e) => Err(e),
        };
        assert(hi as int == usize_cap());
        assert(reads_ranged(v0, n, 0, usize_cap(), "usize"@));
        assert(narrowed(n, r, |i: i64| i as usize));
        r
    }
}

impl FromValue for String {
    open spec fn read_as(value: Value, r: Result<Self, OrmError>) -> bool {
        match value {
            Value::Text(s) => r matches Ok(t) && t@ == s@,
            _ => conversion_error(r),
        }
    }

    fn from_value(value: Value) -> (r: Result<Self, OrmError>) {
        string_from_value(value)
    }
}

impl FromValue for Vec<u8> {
    open spec fn read_as(value: Value, r: Result<Self, OrmError>) -> bool {
        match value {
            Value::Blob(b) => r matches Ok(x) && x@ == b@,
            Value::Text(s) => r matches Ok(x) && x@ == vstd::utf8::encode_utf8(s@),
            _ => conversion_error(r),
        }
    }

    fn from_value(value: Value) -> (r: Result<Self, OrmError>) {
        match value {
            Value::Blob(b) => Ok(b),
            Value::Text(s) => Ok(s.as_str().as_bytes_vec()),
            _ => Err(OrmError::conversion("cannot read Vec<u8> from value")),
        }
    }
}

impl<T: FromValue> FromValue for Option<T> {
    open spec fn read_as(value: Value, r: Result<Self, OrmError>) -> bool {
        if value is Null {
            r == Ok::<Option<T>, OrmError>(None)
        } else {
            match r {
                Ok(Some(x)) => T::read_as(value, Ok(x)),
                Ok(None) => false,
                Err(e) => T::read_as(value, Err(e)),
            }
        }
    }

    fn from_value(value: Value) -> (r: Result<Self, OrmError>) {
        match value {
            Value::Null => Ok(None),
            other => match T::from_value(other) {
                Ok(x) => Ok(Some(x)),
                Err(e) => Err(e),
            },
        }
    }
}

/// A value bound as a parameter reads back as itself: an `i64`, an `i32`, a
/// `u32`, a `bool`, a `String` (by its text) and an optional `i64`.
pub proof fn lemma_bound_values_read_back(
    a: i64,
    b: i32,
    c: u32,
    d: bool,
    e: String,
    f: Option<i64>,
    va: Value,
    vb: Value,
    vc: Value,
    vd: Value,
    ve: Value,
    vf: Value,
)
    requires
        a.binds_as(va),
        b.binds_as(vb),
        c.binds_as(vc),
        d.binds_as(vd),
        e.binds_as(ve),
        f.binds_as(vf),
    ensures
        <i64 as FromValue>::read_as(va, Ok(a)),
        <i32 as FromValue>::read_as(vb, Ok(b)),
        <u32 as FromValue>::read_as(vc, Ok(c)),
        <bool as FromValue>::read_as(vd, Ok(d)),
        forall|r: Result<String, OrmError>| <String as FromValue>::read_as(ve, r) ==> (r matches Ok(t) && t@ == e@),
        <Option<i64> as FromValue>::read_as(vf, Ok(f)),
{
    let nb: Result<i64, OrmError> = Ok(b as i64);
    assert(reads_ranged(vb, nb, i32::MIN as int, i32::MAX as int, "i32"@));
    assert(narrowed(nb, Ok::<i32, OrmError>(b), |i: i64| i as i32));
    let nc: Result<i64, OrmError> = Ok(c as i64);
    assert(reads_ranged(vc, nc, 0, u32::MAX as int, "u32"@));
    assert(narrowed(nc, Ok::<u32, OrmError>(c), |i: i64| i as u32));
}

} // verus!
