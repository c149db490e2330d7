//! A primitive integer value stored with its padding: the value's bytes at
//! offset zero, raised to the joint alignment of a type pair and padded to
//! the pair's shared footprint size.

use crate::layout::lemma_padded_size_covers;
use crate::layout::padded_align;
use crate::layout::padded_size;
use crate::layout::spec_padded_align;
use crate::layout::spec_padded_size;
use crate::layout::PrimLayout;
use crate::le_bytes::le_val;
use crate::le_bytes::zero_bytes;
use vstd::prelude::*;

verus! {

/// The little-endian bytes of a value of the primary type, followed by
/// zero or more bytes up to the footprint that the primary type shares
/// with the archetype type.
pub struct PaddedPrimInt {
    pub bytes: Vec<u8>,
    pub primary: PrimLayout,
    pub archetype: PrimLayout,
}

impl PaddedPrimInt {
    /// The layout of the type whose value the region carries.
    pub open spec fn primary_layout(self) -> PrimLayout {
        self.primary
    }

    /// The layout of the type the footprint is shared with.
    pub open spec fn archetype_layout(self) -> PrimLayout {
        self.archetype
    }

    /// Every byte of the region, value window first.
    pub open spec fn region(self) -> Seq<u8> {
        self.bytes@
    }

    /// The region fills exactly the pair's shared footprint.
    pub open spec fn wf(self) -> bool {
        &&& self.primary.wf()
        &&& self.archetype.wf()
        &&& self.bytes@.len() == spec_padded_size(self.primary, self.archetype)
    }

    /// The value's own bytes: the window at offset zero, as wide as the
    /// primary type.
    pub open spec fn value_bytes(self) -> Seq<u8> {
        self.bytes@.take(self.primary.size as int)
    }

    /// The number the value window denotes.
    pub open spec fn value_nat(self) -> nat {
        le_val(self.value_bytes())
    }

    /// Stores a value: its bytes at offset zero, every byte after them
    /// zero-filled. The zero fill is what later makes a wider read of this
    /// region a zero-extension.
    pub fn new(value: Vec<u8>, primary: PrimLayout, archetype: PrimLayout) -> (r: Self)
        requires
            primary.wf(),
            archetype.wf(),
            value@.len() == primary.size,
        ensures
            r.wf(),
            r.primary_layout() == primary,
            r.archetype_layout() == archetype,
            r.region() == value@ + zero_bytes(
                (spec_padded_size(primary, archetype) - primary.size) as nat,
            ),
            r.value_bytes() == value@,
            r.value_nat() == le_val(value@),
    {
        let total = padded_size(primary, archetype);
        let ghost orig = value@;
        let mut bytes = value;
        proof {
            assert(bytes@ =~= orig + zero_bytes(0));
        }
        while bytes.len() < total
            invariant
                orig.len() <= bytes@.len() <= total,
                bytes@ == orig + zero_bytes((bytes@.len() - orig.len()) as nat),
            decreases total - bytes@.len(),
        {
            bytes.push(0);
            proof {
                assert(bytes@ =~= orig + zero_bytes((bytes@.len() - orig.len()) as nat));
            }
        }
        let r = PaddedPrimInt { bytes, primary, archetype };
        proof {
            assert(r.value_bytes() =~= orig);
        }
        r
    }

    /// Takes a whole region as it stands for a padded value of the given
    /// primary type. This is the reinterpretation step: the bytes are not
    /// inspected or rewritten, only read through the other window.
    pub(crate) fn from_region(bytes: Vec<u8>, primary: PrimLayout, archetype: PrimLayout) -> (r:
        Self)
        requires
            primary.wf(),
            archetype.wf(),
            bytes@.len() == spec_padded_size(primary, archetype),
        ensures
            r.wf(),
            r.primary_layout() == primary,
            r.archetype_layout() == archetype,
            r.region() == bytes@,
    {
        PaddedPrimInt { bytes, primary, archetype }
    }

    /// The stored value's bytes, without the padding.
    pub fn to_value(&self) -> (r: Vec<u8>)
        requires
            self.wf(),
        ensures
            r@ == self.value_bytes(),
            r@.len() == self.primary_layout().size,
            le_val(r@) == self.value_nat(),
    {
        proof {
            lemma_padded_size_covers(self.primary, self.archetype);
        }
        let n = self.primary.size;
        let mut r: Vec<u8> = Vec::new();
        let mut i: usize = 0;
        proof {
            assert(r@ =~= self.bytes@.take(0));
        }
        while i < n
            invariant
                i <= n <= self.bytes@.len(),
                n == self.primary.size,
                r@ == self.bytes@.take(i as int),
            decreases n - i,
        {
            let b = self.bytes[i];
            r.push(b);
            i = i + 1;
            proof {
                assert(r@ =~= self.bytes@.take(i as int));
            }
        }
        r
    }

    /// A copy of the whole region, padding included.
    pub fn to_region(&self) -> (r: Vec<u8>)
        ensures
            r@ == self.region(),
    {
        let n = self.bytes.len();
        let mut r: Vec<u8> = Vec::new();
        let mut i: usize = 0;
        proof {
            assert(r@ =~= self.bytes@.take(0));
        }
        while i < n
            invariant
                i <= n == self.bytes@.len(),
                r@ == self.bytes@.take(i as int),
            decreases n - i,
        {
            let b = self.bytes[i];
            r.push(b);
            i = i + 1;
            proof {
                assert(r@ =~= self.bytes@.take(i as int));
            }
        }
        proof {
            assert(self.bytes@.take(n as int) =~= self.bytes@);
        }
        r
    }

    /// The primary type's layout.
    pub fn primary(&self) -> (r: PrimLayout)
        ensures
            r == self.primary_layout(),
    {
        self.primary
    }

    /// The archetype type's layout.
    pub fn archetype(&self) -> (r: PrimLayout)
        ensures
            r == self.archetype_layout(),
    {
        self.archetype
    }

    /// The footprint's total size: the same for both orderings of the
    /// pair.
    pub fn size(&self) -> (r: usize)
        requires
            self.wf(),
        ensures
            r == spec_padded_size(self.primary_layout(), self.archetype_layout()),
            r == spec_padded_size(self.archetype_layout(), self.primary_layout()),
    {
        self.bytes.len()
    }

    /// The footprint's alignment: the same for both orderings of the
    /// pair.
    pub fn align(&self) -> (r: usize)
        requires
            self.wf(),
        ensures
            r == spec_padded_align(self.primary_layout(), self.archetype_layout()),
            r == spec_padded_align(self.archetype_layout(), self.primary_layout()),
    {
        padded_align(self.primary, self.archetype)
    }
}

} // verus!
