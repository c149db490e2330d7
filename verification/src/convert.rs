//! The public conversion capability: write a value through one type's
//! window, read it back through the other's.
//!
//! On the least-significant-byte-first layout the overlay models, the read
//! window always holds the written value reduced modulo the target type's
//! range: truncation when narrowing, the value itself (zero-extended) when
//! widening or converting to the same width.

use crate::layout::lemma_padded_size_covers;
use crate::layout::spec_padded_size;
use crate::layout::PrimLayout;
use crate::le_bytes::le_bytes_of_u128;
use crate::le_bytes::le_val;
use crate::le_bytes::lemma_le_val_bound;
use crate::le_bytes::lemma_le_val_window;
use crate::le_bytes::u128_of_le_bytes;
use crate::le_bytes::zero_bytes;
use vstd::arithmetic::div_mod::lemma_small_mod;
use vstd::arithmetic::power2::lemma2_to64;
use vstd::arithmetic::power2::lemma_pow2_pos;
use vstd::arithmetic::power2::lemma_pow2_strictly_increases;
use vstd::arithmetic::power2::pow2;
use vstd::prelude::*;

verus! {

/// Converts a value's little-endian bytes from the left type to the right
/// type by one padded write and one overlaid read. Total: every input
/// window of the left type's width yields exactly one window of the right
/// type's width, holding the value modulo the right type's range.
pub fn convert_bytes(value: Vec<u8>, l_layout: PrimLayout, r_layout: PrimLayout) -> (r: Vec<u8>)
    requires
        l_layout.wf(),
        r_layout.wf(),
        value@.len() == l_layout.size,
    ensures
        r@.len() == r_layout.size,
        r@ == (value@ + zero_bytes(
            (spec_padded_size(l_layout, r_layout) - l_layout.size) as nat,
        )).take(r_layout.size as int),
        le_val(r@) == le_val(value@) % pow2(8 * r_layout.size as nat),
{
    let ghost v = value@;
    let union_ = crate::overlay::ZeroEndianPaddedUnion::new_l(value, l_layout, r_layout);
    let padded_r = union_.r();
    let out = padded_r.to_value();
    proof {
        lemma_padded_size_covers(l_layout, r_layout);
        lemma_le_val_window(
            v,
            (spec_padded_size(l_layout, r_layout) - l_layout.size) as nat,
            r_layout.size as nat,
        );
    }
    out
}

/// Converts a number that fits the left layout into the right layout's
/// range, by serializing it, overlaying the padded region, and reading the
/// right window back.
pub fn convert_u128(v: u128, l_layout: PrimLayout, r_layout: PrimLayout) -> (r: u128)
    requires
        l_layout.wf(),
        r_layout.wf(),
        v < pow2(8 * l_layout.size as nat),
    ensures
        r as nat == v as nat % pow2(8 * r_layout.size as nat),
        r < pow2(8 * r_layout.size as nat),
{
    let bytes = le_bytes_of_u128(v, l_layout.size);
    let out = convert_bytes(bytes, l_layout, r_layout);
    proof {
        lemma_le_val_bound(out@);
    }
    u128_of_le_bytes(&out)
}

/// The primitive-integer capability: a fixed-width scalar type whose
/// values denote numbers below `2^(8 * width)` and pass to and from a
/// sixteen-byte carrier without loss. Implementations fix the width, the
/// layout the arithmetic uses for the type, and what each value denotes.
pub trait PrimInt: Sized {
    /// The type's width in bytes.
    spec fn width() -> nat;

    /// The number a value denotes.
    spec fn as_nat(self) -> nat;

    /// The type's size and alignment.
    fn layout() -> (r: PrimLayout)
        ensures
            r.wf(),
            r.size as nat == Self::width(),
    ;

    /// A value's number, carried in the widest type offered here.
    fn to_u128(self) -> (r: u128)
        ensures
            r as nat == self.as_nat(),
            r < pow2(8 * Self::width()),
    ;

    /// The value denoting a number within the type's range.
    fn of_u128(v: u128) -> (r: Self)
        requires
            v < pow2(8 * Self::width()),
        ensures
            r.as_nat() == v as nat,
    ;
}

impl PrimInt for u8 {
    open spec fn width() -> nat {
        1
    }

    open spec fn as_nat(self) -> nat {
        self as nat
    }

    fn layout() -> (r: PrimLayout) {
        PrimLayout::of_u8()
    }

    fn to_u128(self) -> (r: u128) {
        proof {
            lemma2_to64();
        }
        self as u128
    }

    fn of_u128(v: u128) -> (r: u8) {
        proof {
            lemma2_to64();
        }
        v as u8
    }
}

impl PrimInt for u16 {
    open spec fn width() -> nat {
        2
    }

    open spec fn as_nat(self) -> nat {
        self as nat
    }

    fn layout() -> (r: PrimLayout) {
        PrimLayout::of_u16()
    }

    fn to_u128(self) -> (r: u128) {
        proof {
            lemma2_to64();
        }
        self as u128
    }

    fn of_u128(v: u128) -> (r: u16) {
        proof {
            lemma2_to64();
        }
        v as u16
    }
}

impl PrimInt for u32 {
    open spec fn width() -> nat {
        4
    }

    open spec fn as_nat(self) -> nat {
        self as nat
    }

    fn layout() -> (r: PrimLayout) {
        PrimLayout::of_u32()
    }

    fn to_u128(self) -> (r: u128) {
        proof {
            lemma2_to64();
        }
        self as u128
    }

    fn of_u128(v: u128) -> (r: u32) {
        proof {
            lemma2_to64();
        }
        v as u32
    }
}

impl PrimInt for u64 {
    open spec fn width() -> nat {
        8
    }

    open spec fn as_nat(self) -> nat {
        self as nat
    }

    fn layout() -> (r: PrimLayout) {
        PrimLayout::of_u64()
    }

    fn to_u128(self) -> (r: u128) {
        proof {
            lemma2_to64();
        }
        self as u128
    }

    fn of_u128(v: u128) -> (r: u64) {
        proof {
            lemma2_to64();
        }
        v as u64
    }
}

impl PrimInt for u128 {
    open spec fn width() -> nat {
        16
    }

    open spec fn as_nat(self) -> nat {
        self as nat
    }

    fn layout() -> (r: PrimLayout) {
        PrimLayout::of_u128()
    }

    fn to_u128(self) -> (r: u128) {
        proof {
            lemma2_to64();
            vstd::arithmetic::power2::lemma2_to64_rest();
            vstd::arithmetic::power2::lemma_pow2_adds(64, 64);
        }
        self
    }

    fn of_u128(v: u128) -> (r: u128) {
        v
    }
}

/// An ordered pair of primitive integer types exposing one total
/// conversion from the first to the second.
///
/// An implementation fixes the two types, says what number each side's
/// values denote, and inherits the one conversion law: the result denotes
/// the operand's number modulo the right type's range.
pub trait AsPrimitiveTyPair {
    type L;

    type R;

    /// The number a left-type value denotes.
    spec fn l_as_nat(l: Self::L) -> nat;

    /// The number a right-type value denotes.
    spec fn r_as_nat(r: Self::R) -> nat;

    /// The right type's width in bytes.
    spec fn r_width() -> nat;

    /// The conversion: the left value reinterpreted through the right
    /// type's byte window.
    fn as_(l: Self::L) -> (r: Self::R)
        ensures
            Self::r_as_nat(r) == Self::l_as_nat(l) % pow2(8 * Self::r_width()),
    ;
}

impl<L: PrimInt, R: PrimInt> AsPrimitiveTyPair for (L, R) {
    type L = L;

    type R = R;

    open spec fn l_as_nat(l: L) -> nat {
        l.as_nat()
    }

    open spec fn r_as_nat(r: R) -> nat {
        r.as_nat()
    }

    open spec fn r_width() -> nat {
        R::width()
    }

    /// One write through the left window, one read through the right.
    /// Narrowing truncates modulo the right type's range; widening and
    /// equal width return the value unchanged, zero-extended.
    fn as_(l: L) -> (r: R)
        ensures
            L::width() <= R::width() ==> R::as_nat(r) == L::as_nat(l),
    {
        let v = l.to_u128();
        let out = convert_u128(v, L::layout(), R::layout());
        proof {
            if L::width() <= R::width() {
                if L::width() < R::width() {
                    lemma_pow2_strictly_increases(8 * L::width(), 8 * R::width());
                }
                lemma_pow2_pos(8 * R::width());
                lemma_small_mod(v as nat, pow2(8 * R::width()));
            }
        }
        R::of_u128(out)
    }
}

/// Converting a value to its own width returns it unchanged: any value a
/// window of `width` bytes can hold is below `2^(8 * width)`, so reducing
/// it modulo that range does nothing.
pub proof fn lemma_identity_conversion(v: nat, width: nat)
    requires
        v < pow2(8 * width),
    ensures
        v % pow2(8 * width) == v,
{
    lemma_pow2_pos(8 * width);
    lemma_small_mod(v, pow2(8 * width));
}

/// Promotion then demotion is a round trip: a value that fits the narrow
/// width passes through the wide window unchanged and the narrowing read
/// then returns exactly it.
pub proof fn lemma_promotion_demotion_round_trip(v: nat, narrow: nat, wide: nat)
    requires
        v < pow2(8 * narrow),
        narrow <= wide,
    ensures
        (v % pow2(8 * wide)) % pow2(8 * narrow) == v,
{
    if narrow < wide {
        lemma_pow2_strictly_increases(8 * narrow, 8 * wide);
    }
    lemma_pow2_pos(8 * wide);
    lemma_pow2_pos(8 * narrow);
    lemma_small_mod(v, pow2(8 * wide));
    lemma_small_mod(v, pow2(8 * narrow));
}

/// Demotion loses information: some sixteen-bit value is not recovered by
/// demoting it to eight bits and promoting the result back.
pub proof fn lemma_demotion_loses_information()
    ensures
        exists|v: u16| (#[trigger] (v as nat % pow2(8)) % pow2(16)) != v as nat,
{
    lemma2_to64();
    let w: u16 = 300;
    assert(w as nat % pow2(8) == 44);
    lemma_small_mod(44, pow2(16));
    assert(((w as nat % pow2(8)) % pow2(16)) != w as nat);
}

} // verus!
