//! The ORM error type.
//!
//! [`OrmError`] is the single error returned across the ORM surface: a kind, a
//! human-readable message, and the messages of an underlying source error chain.

use vstd::prelude::*;

use crate::text::{chars_of, contains, contains_chars, owned, push_char, push_str};

verus! {

/// The category of an [`OrmError`].
#[derive(Debug, Clone, Copy, PartialEq, Eq, Structural)]
pub enum ErrorKind {
    /// Establishing or acquiring a database connection failed.
    Connection,
    /// Executing or preparing a statement failed.
    Query,
    /// A value could not be converted between a Rust type and a database value.
    Conversion,
    /// A query that required exactly one row found none.
    NotFound,
    /// A query that required exactly one row found more than one.
    MultipleFound,
    /// The configuration or database URL was invalid.
    Configuration,
    /// A concurrent modification was detected (optimistic-lock version mismatch).
    Conflict,
}

/// The short, stable label of a kind.
pub open spec fn kind_label(kind: ErrorKind) -> Seq<char> {
    match kind {
        ErrorKind::Connection => "connection"@,
        ErrorKind::Query => "query"@,
        ErrorKind::Conversion => "conversion"@,
        ErrorKind::NotFound => "not_found"@,
        ErrorKind::MultipleFound => "multiple_found"@,
        ErrorKind::Configuration => "configuration"@,
        ErrorKind::Conflict => "conflict"@,
    }
}

impl ErrorKind {
    /// Returns a short, stable label for this kind.
    pub fn as_str(self) -> (s: &'static str)
        ensures
            s@ == kind_label(self),
    {
        match self {
            ErrorKind::Connection => "connection",
            ErrorKind::Query => "query",
            ErrorKind::Conversion => "conversion",
            ErrorKind::NotFound => "not_found",
            ErrorKind::MultipleFound => "multiple_found",
            ErrorKind::Configuration => "configuration",
            ErrorKind::Conflict => "conflict",
        }
    }
}

/// The lower-case form of `s` as `str::to_lowercase` computes it (full Unicode
/// case mapping).
pub uninterp spec fn lowercase(s: Seq<char>) -> Seq<char>;

/// `str::to_lowercase`: the Unicode lower-case mapping of `s`.
#[verifier::external_body]
fn to_lowercase(s: &str) -> (r: String)
    ensures
        r@ == lowercase(s@),
{
    s.to_lowercase()
}

/// The lower-cased source messages, each preceded by a space.
pub open spec fn lowered_sources(sources: Seq<String>) -> Seq<char>
    decreases sources.len(),
{
    if sources.len() == 0 {
        seq![]
    } else {
        lowered_sources(sources.drop_last()) + seq![' '] + lowercase(sources.last()@)
    }
}

/// The text a retry decision looks at: the lower-cased message followed by each
/// lower-cased source message, space separated.
pub open spec fn retry_text(message: Seq<char>, sources: Seq<String>) -> Seq<char> {
    lowercase(message) + lowered_sources(sources)
}

/// The markers of a transient conflict: lock timeouts, deadlocks, and
/// serialization failures as the backends report them.
pub open spec fn retry_markers() -> Seq<Seq<char>> {
    seq![
        "database is locked"@,
        "deadlock"@,
        "serialization"@,
        "could not serialize"@,
        "lock wait timeout"@,
        "sqlite_busy"@,
        "40001"@,
        "40p01"@,
    ]
}

/// Whether one of the [`retry_markers`] occurs in `text` (the lower-cased text
/// of an error and its sources).
pub fn has_retry_marker(text: &str) -> (b: bool)
    ensures
        b == exists|i: int| 0 <= i < retry_markers().len() && contains(text@, #[trigger] retry_markers()[i]),
{
    let hay = chars_of(text);
    let markers: [&str; 8] = [
        "database is locked",
        "deadlock",
        "serialization",
        "could not serialize",
        "lock wait timeout",
        "sqlite_busy",
        "40001",
        "40p01",
    ];
    assert(markers@.len() == 8);
    let mut k: usize = 0;
    while k < 8
        invariant
            k <= 8,
            hay@ == text@,
            markers@.len() == 8,
            forall|j: int| 0 <= j < 8 ==> #[trigger] markers@[j]@ == retry_markers()[j],
            forall|j: int| 0 <= j < k ==> !contains(hay@, #[trigger] retry_markers()[j]),
        decreases 8 - k,
    {
        let marker = chars_of(markers[k]);
        if contains_chars(&hay, &marker) {
            return true;
        }
        k = k + 1;
    }
    false
}

/// An error produced by the ORM.
#[derive(Debug)]
pub struct OrmError {
    kind: ErrorKind,
    message: String,
    sources: Vec<String>,
}

impl OrmError {
    /// The kind of this error.
    pub closed spec fn spec_kind(&self) -> ErrorKind {
        self.kind
    }

    /// The message of this error.
    pub closed spec fn spec_message(&self) -> Seq<char> {
        self.message@
    }

    /// The messages of the source error chain, outermost first.
    pub closed spec fn spec_sources(&self) -> Seq<String> {
        self.sources@
    }

    /// Builds an error of the given kind with a message.
    pub fn new(kind: ErrorKind, message: &str) -> (e: Self)
        ensures
            e.spec_kind() == kind,
            e.spec_message() == message@,
            e.spec_sources().len() == 0,
    {
        OrmError { kind, message: owned(message), sources: Vec::new() }
    }

    /// Attaches an underlying source error, given as the messages of the source
    /// and of each error it was caused by, outermost first.
    pub fn with_source(self, source_chain: Vec<String>) -> (e: Self)
        ensures
            e.spec_kind() == self.spec_kind(),
            e.spec_message() == self.spec_message(),
            e.spec_sources() == source_chain@,
    {
        OrmError { kind: self.kind, message: self.message, sources: source_chain }
    }

    /// Returns the kind of this error.
    pub fn kind(&self) -> (k: ErrorKind)
        ensures
            k == self.spec_kind(),
    {
        self.kind
    }

    /// Returns the human-readable message.
    pub fn message(&self) -> (m: &str)
        ensures
            m@ == self.spec_message(),
    {
        self.message.as_str()
    }

    /// The `kind: message` line an error displays as.
    pub fn to_display_string(&self) -> (s: String)
        ensures
            s@ == kind_label(self.spec_kind()) + ": "@ + self.spec_message(),
    {
        let mut s = owned(self.kind.as_str());
        push_str(&mut s, ": ");
        push_str(&mut s, self.message.as_str());
        s
    }

    /// Returns `true` if this looks like a transient conflict worth retrying — a
    /// lock timeout, deadlock, or serialization failure — across backends: one of
    /// the [`retry_markers`] occurs in the lower-cased message or source chain.
    pub fn is_retryable(&self) -> (b: bool)
        ensures
            b == exists|i: int|
                0 <= i < retry_markers().len() && contains(
                    retry_text(self.spec_message(), self.spec_sources()),
                    #[trigger] retry_markers()[i],
                ),
    {
        let mut text = to_lowercase(self.message.as_str());
        let mut i: usize = 0;
        while i < self.sources.len()
            invariant
                i <= self.sources@.len(),
                text@ == lowercase(self.message@) + lowered_sources(self.sources@.take(i as int)),
            decreases self.sources@.len() - i,
        {
            assert(self.sources@.take(i + 1).drop_last() == self.sources@.take(i as int));
            push_char(&mut text, ' ');
            let lowered = to_lowercase(self.sources[i].as_str());
            push_str(&mut text, lowered.as_str());
            i = i + 1;
        }
        assert(self.sources@.take(i as int) == self.sources@);
        has_retry_marker(text.as_str())
    }

    /// Builds a [`ErrorKind::Connection`] error.
    pub fn connection(message: &str) -> (e: Self)
        ensures
            e.spec_kind() == ErrorKind::Connection,
            e.spec_message() == message@,
            e.spec_sources().len() == 0,
    {
        Self::new(ErrorKind::Connection, message)
    }

    /// Builds a [`ErrorKind::Query`] error.
    pub fn query(message: &str) -> (e: Self)
        ensures
            e.spec_kind() == ErrorKind::Query,
            e.spec_message() == message@,
            e.spec_sources().len() == 0,
    {
        Self::new(ErrorKind::Query, message)
    }

    /// Builds a [`ErrorKind::Conversion`] error.
    pub fn conversion(message: &str) -> (e: Self)
        ensures
            e.spec_kind() == ErrorKind::Conversion,
            e.spec_message() == message@,
            e.spec_sources().len() == 0,
    {
        Self::new(ErrorKind::Conversion, message)
    }

    /// Builds a [`ErrorKind::NotFound`] error.
    pub fn not_found(message: &str) -> (e: Self)
        ensures
            e.spec_kind() == ErrorKind::NotFound,
            e.spec_message() == message@,
            e.spec_sources().len() == 0,
    {
        Self::new(ErrorKind::NotFound, message)
    }

    /// Builds a [`ErrorKind::MultipleFound`] error.
    pub fn multiple_found(message: &str) -> (e: Self)
        ensures
            e.spec_kind() == ErrorKind::MultipleFound,
            e.spec_message() == message@,
            e.spec_sources().len() == 0,
    {
        Self::new(ErrorKind::MultipleFound, message)
    }

    /// Builds a [`ErrorKind::Conflict`] error (optimistic-lock mismatch).
    pub fn conflict(message: &str) -> (e: Self)
        ensures
            e.spec_kind() == ErrorKind::Conflict,
            e.spec_message() == message@,
            e.spec_sources().len() == 0,
    {
        Self::new(ErrorKind::Conflict, message)
    }

    /// Builds a [`ErrorKind::Configuration`] error.
    pub fn configuration(message: &str) -> (e: Self)
        ensures
            e.spec_kind() == ErrorKind::Configuration,
            e.spec_message() == message@,
            e.spec_sources().len() == 0,
    {
        Self::new(ErrorKind::Configuration, message)
    }
}

} // verus!
