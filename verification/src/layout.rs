//! Layout arithmetic for padded, alignment-raised storage of one primitive
//! integer type sized against another.
//!
//! For a pair of layouts (T, U), storage for T is raised to the joint
//! alignment `max(align(T), align(U))`, its size rounded up to that
//! alignment, and then padded to the larger of the two rounded sizes. The
//! resulting footprint is the same whichever of the two types is primary;
//! that symmetry is what lets one region carry either interpretation.

use vstd::arithmetic::div_mod::lemma_fundamental_div_mod;
use vstd::arithmetic::div_mod::lemma_mod_bound;
use vstd::prelude::*;

verus! {

/// Size and alignment, in bytes, of one fixed-width primitive integer type.
#[derive(Clone, Copy, PartialEq, Eq, Structural)]
pub struct PrimLayout {
    pub size: usize,
    pub align: usize,
}

impl PrimLayout {
    /// A primitive integer layout: one to sixteen bytes, aligned to a small
    /// power of two.
    pub open spec fn wf(self) -> bool {
        &&& 1 <= self.size <= 16
        &&& (self.align == 1 || self.align == 2 || self.align == 4 || self.align == 8
            || self.align == 16)
    }

    /// The layout of a one-byte integer type.
    pub fn of_u8() -> (r: PrimLayout)
        ensures
            r == (PrimLayout { size: 1, align: 1 }),
            r.wf(),
    {
        PrimLayout { size: 1, align: 1 }
    }

    /// The layout of a two-byte integer type.
    pub fn of_u16() -> (r: PrimLayout)
        ensures
            r == (PrimLayout { size: 2, align: 2 }),
            r.wf(),
    {
        PrimLayout { size: 2, align: 2 }
    }

    /// The layout of a four-byte integer type.
    pub fn of_u32() -> (r: PrimLayout)
        ensures
            r == (PrimLayout { size: 4, align: 4 }),
            r.wf(),
    {
        PrimLayout { size: 4, align: 4 }
    }

    /// The layout of an eight-byte integer type.
    pub fn of_u64() -> (r: PrimLayout)
        ensures
            r == (PrimLayout { size: 8, align: 8 }),
            r.wf(),
    {
        PrimLayout { size: 8, align: 8 }
    }

    /// The layout of a sixteen-byte integer type.
    pub fn of_u128() -> (r: PrimLayout)
        ensures
            r == (PrimLayout { size: 16, align: 16 }),
            r.wf(),
    {
        PrimLayout { size: 16, align: 16 }
    }
}

/// The larger of two layout quantities.
pub open spec fn spec_max(a: nat, b: nat) -> nat {
    if a > b {
        a
    } else {
        b
    }
}

/// `n` rounded up to the next multiple of `a`.
pub open spec fn spec_align_up(n: nat, a: nat) -> nat
    recommends
        a >= 1,
{
    (((n + a - 1) as nat / a) * a) as nat
}

/// Rounding up stays within one alignment unit of `n`.
pub proof fn lemma_align_up_bounds(n: nat, a: nat)
    requires
        a >= 1,
    ensures
        n <= spec_align_up(n, a) <= n + a - 1,
{
    let x = (n + a - 1) as int;
    let a = a as int;
    lemma_fundamental_div_mod(x, a);
    lemma_mod_bound(x, a);
    assert((x / a) * a == a * (x / a)) by (nonlinear_arith);
}

/// The joint alignment of a pair: the stricter of the two.
pub open spec fn spec_joint_align(t: PrimLayout, u: PrimLayout) -> nat {
    spec_max(t.align as nat, u.align as nat)
}

/// The size of T's storage once raised to the pair's joint alignment.
pub open spec fn spec_constrained_size(t: PrimLayout, u: PrimLayout) -> nat {
    spec_align_up(t.size as nat, spec_joint_align(t, u))
}

/// The footprint size shared by both orderings of the pair.
pub open spec fn spec_padded_size(t: PrimLayout, u: PrimLayout) -> nat {
    spec_max(spec_constrained_size(t, u), spec_constrained_size(u, t))
}

/// The footprint alignment shared by both orderings of the pair.
pub open spec fn spec_padded_align(t: PrimLayout, u: PrimLayout) -> nat {
    spec_joint_align(t, u)
}

/// The trailing padding after T's alignment-raised storage.
pub open spec fn spec_padding(t: PrimLayout, u: PrimLayout) -> nat {
    (spec_padded_size(t, u) - spec_constrained_size(t, u)) as nat
}

/// The padded footprint of a pair does not depend on which type is primary:
/// both orderings give one size and one alignment.
pub proof fn lemma_padded_footprint_symmetric(t: PrimLayout, u: PrimLayout)
    ensures
        spec_padded_size(t, u) == spec_padded_size(u, t),
        spec_padded_align(t, u) == spec_padded_align(u, t),
{
}

/// The shared footprint is large enough to hold either type's value bytes.
pub proof fn lemma_padded_size_covers(t: PrimLayout, u: PrimLayout)
    requires
        t.wf(),
        u.wf(),
    ensures
        t.size <= spec_padded_size(t, u) <= 31,
        u.size <= spec_padded_size(t, u),
{
    lemma_align_up_bounds(t.size as nat, spec_joint_align(t, u));
    lemma_align_up_bounds(u.size as nat, spec_joint_align(u, t));
}

/// The size of T's storage raised to the joint alignment of the pair.
pub fn constrained_size(t: PrimLayout, u: PrimLayout) -> (r: usize)
    requires
        t.wf(),
        u.wf(),
    ensures
        r == spec_constrained_size(t, u),
        t.size <= r <= 31,
{
    let a = crate::max(t.align, u.align);
    proof {
        lemma_align_up_bounds(t.size as nat, a as nat);
    }
    ((t.size + a - 1) / a) * a
}

/// The total size of the padded footprint of the pair, the same for both
/// orderings.
pub fn padded_size(t: PrimLayout, u: PrimLayout) -> (r: usize)
    requires
        t.wf(),
        u.wf(),
    ensures
        r == spec_padded_size(t, u),
        r == spec_padded_size(u, t),
        t.size <= r <= 31,
        u.size <= r,
{
    proof {
        lemma_padded_size_covers(t, u);
    }
    crate::max(constrained_size(t, u), constrained_size(u, t))
}

/// The alignment of the padded footprint of the pair, the same for both
/// orderings.
pub fn padded_align(t: PrimLayout, u: PrimLayout) -> (r: usize)
    requires
        t.wf(),
        u.wf(),
    ensures
        r == spec_padded_align(t, u),
        r == spec_padded_align(u, t),
{
    crate::max(t.align, u.align)
}

/// The smallest padding after T's alignment-raised storage that brings it to
/// the shared footprint size. Zero when the two layouts agree in size and
/// alignment.
pub fn padding(t: PrimLayout, u: PrimLayout) -> (r: usize)
    requires
        t.wf(),
        u.wf(),
    ensures
        r == spec_padding(t, u),
        spec_constrained_size(t, u) + r == spec_padded_size(t, u),
        t == u ==> r == 0,
{
    padded_size(t, u) - constrained_size(t, u)
}

} // verus!
