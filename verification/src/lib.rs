//! Conversion between fixed-width integer representations by way of a
//! byte-level model of padded, alignment-raised storage.
//!
//! A value of a narrow type is laid out in a region sized and aligned for
//! either of two types; the region can then be read back through the other
//! type's window. On a least-significant-byte-first layout this demotes
//! (truncates modulo the target width) or promotes (zero-extends) the value.

use vstd::prelude::*;

pub mod convert;
pub mod layout;
pub mod le_bytes;
pub mod overlay;
pub mod padded;

pub use crate::convert::AsPrimitiveTyPair;
pub use crate::layout::padding;

verus! {

/// The larger of two layout quantities (sizes or alignments).
pub fn max(a: usize, b: usize) -> (r: usize)
    ensures
        r == (if a > b {
            a
        } else {
            b
        }),
{
    if a > b {
        a
    } else {
        b
    }
}

/// Absolute difference of two offsets.
pub fn abs_diff(a: usize, b: usize) -> (r: usize)
    ensures
        a >= b ==> r == a - b,
        a < b ==> r == b - a,
{
    if a > b {
        a - b
    } else {
        b - a
    }
}

} // verus!
