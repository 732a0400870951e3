//! Row identifiers: 128-bit primary keys, increasing with wall-clock time,
//! unique within a table.
//!
//! A raw 128-bit draw combines a millisecond timestamp in the high bits with
//! random low bits, so draws are time-sortable and collisions are already
//! unlikely.  Uniqueness is nevertheless enforced, not assumed: the table
//! remembers the last identifier it issued, and a draw that does not exceed
//! it is replaced by its successor, so issued identifiers are strictly
//! increasing within a table instance.

use vstd::prelude::*;

verus! {

/// Exclusive upper bound on the bits a raw draw may contribute directly.
/// A draw's high bit is always clear (the millisecond timestamp occupies the
/// top 48 bits and stays far below `2^47` for any realistic clock), so
/// rejecting draws at or above `2^127` loses nothing, and it leaves the
/// successor rule room to issue one identifier per row without ever
/// overflowing 128 bits.
pub const RAW_IDENTIFIER_BOUND: u128 = 0x8000_0000_0000_0000_0000_0000_0000_0000;

/// A generated primary key for one row.  Immutable and never reused.
#[derive(Clone, Copy, Debug, PartialEq, Eq, PartialOrd, Ord, Hash, Structural)]
pub struct RowIdentifier {
    pub bits: u128,
}

/// Relies on `ulid::Ulid::generate`: a fresh 128-bit ULID drawn from the
/// wall clock (high bits) and a thread-local random source (low bits).
/// Nothing is assumed of the value.
#[verifier::external_body]
fn raw_identifier_bits() -> u128 {
    ulid::Ulid::generate().0
}

/// The identifier issued after `last` given the raw draw `raw`: the draw
/// itself when it is strictly above `last` and inside the raw range, and the
/// successor of `last` otherwise.
pub open spec fn spec_next_identifier(last: u128, raw: u128) -> int {
    if last < raw && raw < RAW_IDENTIFIER_BOUND {
        raw as int
    } else {
        last as int + 1
    }
}

/// Turns the raw draw `raw` into the identifier issued after `last`.
pub fn next_identifier(last: RowIdentifier, raw: u128) -> (id: RowIdentifier)
    requires
        last.bits < u128::MAX,
    ensures
        id.bits == spec_next_identifier(last.bits, raw),
        last.bits < id.bits,
{
    if last.bits < raw && raw < RAW_IDENTIFIER_BOUND {
        RowIdentifier { bits: raw }
    } else {
        RowIdentifier { bits: last.bits + 1 }
    }
}

/// Draws a fresh identifier strictly above `last`.  The result is either a
/// raw draw below [`RAW_IDENTIFIER_BOUND`] or the immediate successor of
/// `last`, so a caller that issues one identifier per stored row can bound
/// its identifiers away from `u128::MAX`.
pub fn generate_identifier(last: RowIdentifier) -> (id: RowIdentifier)
    requires
        last.bits < u128::MAX,
    ensures
        last.bits < id.bits,
        id.bits < RAW_IDENTIFIER_BOUND || id.bits == last.bits + 1,
{
    let raw = raw_identifier_bits();
    next_identifier(last, raw)
}

} // verus!
