//! One region, two interpretations.
//!
//! The region is built once, by writing a left-type value padded against
//! the right type. Because the padded footprint is symmetric in the two
//! types, the very same bytes also fill a padded value whose primary type
//! is the right one; both interpretations begin at offset zero of the
//! region. Reading the region back through the right window is the
//! byte-level reinterpretation this crate is about.

use crate::layout::lemma_padded_footprint_symmetric;
use crate::layout::spec_padded_size;
use crate::layout::PrimLayout;
use crate::le_bytes::zero_bytes;
use crate::padded::PaddedPrimInt;
use vstd::prelude::*;

verus! {

/// A padded region holding a left-type value, viewable as either ordering
/// of the pair. The name records the byte-order assumption: the window
/// semantics below hold for a least-significant-byte-first layout.
pub struct ZeroEndianPaddedUnion {
    pub l: PaddedPrimInt,
}

impl ZeroEndianPaddedUnion {
    /// The layout written into the region.
    pub open spec fn l_layout(self) -> PrimLayout {
        self.l.primary_layout()
    }

    /// The layout the region is read back through.
    pub open spec fn r_layout(self) -> PrimLayout {
        self.l.archetype_layout()
    }

    /// The shared bytes.
    pub open spec fn region(self) -> Seq<u8> {
        self.l.region()
    }

    pub open spec fn wf(self) -> bool {
        self.l.wf()
    }

    /// Builds the region from a left-type value: the one write the
    /// mechanism performs. The value's bytes land at offset zero and all
    /// remaining bytes of the footprint are zero-filled.
    pub fn new_l(value: Vec<u8>, l_layout: PrimLayout, r_layout: PrimLayout) -> (r: Self)
        requires
            l_layout.wf(),
            r_layout.wf(),
            value@.len() == l_layout.size,
        ensures
            r.wf(),
            r.l_layout() == l_layout,
            r.r_layout() == r_layout,
            r.region() == value@ + zero_bytes(
                (spec_padded_size(l_layout, r_layout) - l_layout.size) as nat,
            ),
    {
        ZeroEndianPaddedUnion { l: PaddedPrimInt::new(value, l_layout, r_layout) }
    }

    /// The left interpretation: the region as the padded value that was
    /// written.
    pub fn l(&self) -> (r: PaddedPrimInt)
        requires
            self.wf(),
        ensures
            r.wf(),
            r.primary_layout() == self.l_layout(),
            r.archetype_layout() == self.r_layout(),
            r.region() == self.region(),
    {
        PaddedPrimInt::from_region(self.l.to_region(), self.l.primary(), self.l.archetype())
    }

    /// The right interpretation: the same bytes, starting at the same
    /// offset, taken as a padded value of the right type. The footprint
    /// symmetry is what makes the region's length fit this reading too.
    pub fn r(&self) -> (r: PaddedPrimInt)
        requires
            self.wf(),
        ensures
            r.wf(),
            r.primary_layout() == self.r_layout(),
            r.archetype_layout() == self.l_layout(),
            r.region() == self.region(),
    {
        proof {
            lemma_padded_footprint_symmetric(self.l_layout(), self.r_layout());
        }
        PaddedPrimInt::from_region(self.l.to_region(), self.l.archetype(), self.l.primary())
    }

    /// The region's own offset within itself: the zero point the two
    /// interpretations are measured from.
    pub fn addr(&self) -> (r: usize)
        ensures
            r == 0,
    {
        0
    }

    /// Offset of the left interpretation within the region: it begins at
    /// the region's own start.
    pub fn l_addr(&self) -> (r: usize)
        ensures
            r == 0,
    {
        0
    }

    /// Offset of the right interpretation within the region: it also
    /// begins at the region's own start, with no shift between the two
    /// variants.
    pub fn r_addr(&self) -> (r: usize)
        ensures
            r == 0,
    {
        0
    }
}

} // verus!
