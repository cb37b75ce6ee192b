//! Symbols used across the command-line output.

use vstd::prelude::*;

verus! {

/// Success marker.
pub const CHECK: &'static str = "✔";
/// Failure marker.
pub const CROSS: &'static str = "✖";
/// Applied-migration dot.
pub const APPLIED: &'static str = "●";
/// Pending-migration dot.
pub const PENDING: &'static str = "○";
/// Warning / checksum-changed marker.
pub const WARN: &'static str = "⚠";
/// List arrow.
pub const ARROW: &'static str = "→";

} // verus!
