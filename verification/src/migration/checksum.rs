//! A stable checksum over a migration's SQL.
//!
//! Applying a migration records a checksum of its SQL; on a later run the checksum
//! is recomputed and compared, so an already-applied migration whose definition
//! changed can be detected. FNV-1a is used: a small, stable, dependency-free
//! hash. This is change detection, not tamper resistance.

use vstd::prelude::*;

use crate::text::{hex_fixed, push_hex_fixed, push_str};

verus! {

/// FNV-1a 64-bit offset basis.
pub const OFFSET_BASIS: u64 = 0xcbf2_9ce4_8422_2325;

/// FNV-1a 64-bit prime.
pub const PRIME: u64 = 0x0000_0100_0000_01b3;

/// One FNV-1a step: mix in `byte`, then multiply by the prime modulo 2^64.
pub open spec fn fnv_step(hash: u64, byte: u8) -> u64 {
    ((((hash ^ (byte as u64)) as nat) * (PRIME as nat)) % 0x1_0000_0000_0000_0000) as u64
}

/// The FNV-1a 64-bit hash of `bytes`.
pub open spec fn fnv_hash(bytes: Seq<u8>) -> u64
    decreases bytes.len(),
{
    if bytes.len() == 0 {
        OFFSET_BASIS
    } else {
        fnv_step(fnv_hash(bytes.drop_last()), bytes.last())
    }
}

/// `items` joined with `sep` between consecutive items.
pub open spec fn joined(items: Seq<Seq<char>>, sep: Seq<char>) -> Seq<char>
    decreases items.len(),
{
    if items.len() == 0 {
        seq![]
    } else if items.len() == 1 {
        items[0]
    } else {
        joined(items.drop_last(), sep) + sep + items.last()
    }
}

/// The views of a list of strings.
pub open spec fn string_views(items: Seq<String>) -> Seq<Seq<char>> {
    items.map_values(|s: String| s@)
}

/// The checksum of a list of statements: the 16-digit lower-case hex FNV-1a hash
/// of the UTF-8 bytes of the statements joined by newlines.
pub open spec fn checksum_text(statements: Seq<Seq<char>>) -> Seq<char> {
    hex_fixed(fnv_hash(vstd::utf8::encode_utf8(joined(statements, seq!['\n']))) as nat, 16)
}

/// One FNV-1a step.
fn fnv_step_exec(hash: u64, byte: u8) -> (r: u64)
    ensures
        r == fnv_step(hash, byte),
{
    let mixed: u64 = hash ^ (byte as u64);
    let product: u128 = (mixed as u128) * (PRIME as u128);
    (product % 0x1_0000_0000_0000_0000u128) as u64
}

/// Computes the FNV-1a 64-bit hash of `bytes`.
pub fn fnv1a64(bytes: &[u8]) -> (h: u64)
    ensures
        h == fnv_hash(bytes@),
{
    let mut hash = OFFSET_BASIS;
    let mut i: usize = 0;
    while i < bytes.len()
        invariant
            i <= bytes@.len(),
            hash == fnv_hash(bytes@.take(i as int)),
        decreases bytes@.len() - i,
    {
        assert(bytes@.take(i + 1).drop_last() == bytes@.take(i as int));
        hash = fnv_step_exec(hash, bytes[i]);
        i = i + 1;
    }
    assert(bytes@.take(i as int) == bytes@);
    hash
}

/// `items` joined with newlines.
pub fn join_lines(items: &[String]) -> (s: String)
    ensures
        s@ == joined(string_views(items@), seq!['\n']),
{
    let mut s = String::new();
    let mut i: usize = 0;
    while i < items.len()
        invariant
            i <= items@.len(),
            s@ == joined(string_views(items@.take(i as int)), seq!['\n']),
        decreases items@.len() - i,
    {
        assert(string_views(items@.take(i + 1)).drop_last() == string_views(items@.take(i as int)));
        if i > 0 {
            crate::text::push_char(&mut s, '\n');
        }
        push_str(&mut s, items[i].as_str());
        i = i + 1;
    }
    assert(items@.take(i as int) == items@);
    s
}

/// Returns a stable hex checksum of the rendered statements.
pub fn checksum_of(statements: &[String]) -> (c: String)
    ensures
        c@ == checksum_text(string_views(statements@)),
{
    let joined_text = join_lines(statements);
    let bytes = joined_text.as_str().as_bytes();
    let hash = fnv1a64(bytes);
    let mut out = String::new();
    push_hex_fixed(&mut out, hash, 16);
    out
}

/// The checksum of a single text (the list of that one statement).
pub fn checksum_of_text(text: &str) -> (c: String)
    ensures
        c@ == checksum_text(seq![text@]),
{
    let bytes = text.as_bytes();
    let hash = fnv1a64(bytes);
    let mut out = String::new();
    push_hex_fixed(&mut out, hash, 16);
    assert(joined(seq![text@], seq!['\n']) == text@);
    out
}

} // verus!
