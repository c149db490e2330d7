//! Little-endian byte windows and their numeric value.
//!
//! A sequence of bytes read least-significant-first denotes the natural
//! number `le_val`. The lemmas here say how that value behaves under the
//! operations the overlay performs on a region: splitting it at an offset,
//! extending it with zero padding, and reading back a prefix window.

use vstd::arithmetic::div_mod::lemma_fundamental_div_mod;
use vstd::arithmetic::div_mod::lemma_fundamental_div_mod_converse;
use vstd::arithmetic::div_mod::lemma_small_mod;
use vstd::arithmetic::mul::lemma_mul_inequality;
use vstd::arithmetic::mul::lemma_mul_is_associative;
use vstd::arithmetic::mul::lemma_mul_is_commutative;
use vstd::arithmetic::mul::lemma_mul_is_distributive_add;
use vstd::arithmetic::power2::lemma2_to64;
use vstd::arithmetic::power2::lemma_pow2_adds;
use vstd::arithmetic::power2::lemma_pow2_pos;
use vstd::arithmetic::power2::lemma_pow2_strictly_increases;
use vstd::arithmetic::power2::pow2;
use vstd::prelude::*;

verus! {

/// The natural number denoted by a byte sequence read least-significant
/// byte first.
pub open spec fn le_val(s: Seq<u8>) -> nat
    decreases s.len(),
{
    if s.len() == 0 {
        0
    } else {
        s[0] as nat + 256 * le_val(s.subrange(1, s.len() as int))
    }
}

/// `n` zero bytes.
pub open spec fn zero_bytes(n: nat) -> Seq<u8> {
    Seq::new(n, |i: int| 0u8)
}

/// A window of `n` bytes can denote at most `2^(8n) - 1`.
pub proof fn lemma_le_val_bound(s: Seq<u8>)
    ensures
        le_val(s) < pow2(8 * s.len()),
    decreases s.len(),
{
    lemma2_to64();
    if s.len() == 0 {
    } else {
        let t = s.subrange(1, s.len() as int);
        lemma_le_val_bound(t);
        lemma_mul_inequality(le_val(t) as int, pow2(8 * t.len()) as int - 1, 256);
        lemma_mul_is_commutative(256, le_val(t) as int);
        lemma_mul_is_commutative(256, pow2(8 * t.len()) as int - 1);
        lemma_pow2_adds(8, 8 * t.len());
    }
}

/// A region of zero bytes denotes zero.
pub proof fn lemma_le_val_zeros(n: nat)
    ensures
        le_val(zero_bytes(n)) == 0,
    decreases n,
{
    if n > 0 {
        assert(zero_bytes(n).subrange(1, n as int) =~= zero_bytes((n - 1) as nat));
        lemma_le_val_zeros((n - 1) as nat);
    }
}

/// Appending one byte adds its value at the next power-of-256 place.
pub proof fn lemma_le_val_push(s: Seq<u8>, b: u8)
    ensures
        le_val(s.push(b)) == le_val(s) + pow2(8 * s.len()) * b,
    decreases s.len(),
{
    lemma2_to64();
    if s.len() == 0 {
        assert(s.push(b).subrange(1, 1) =~= Seq::<u8>::empty());
        assert(le_val(Seq::<u8>::empty()) == 0);
        assert(s.push(b)[0] == b);
        assert(le_val(s.push(b)) == b);
        assert(pow2(0) * b == b);
    } else {
        let t = s.subrange(1, s.len() as int);
        let p = s.push(b);
        assert(p.len() == s.len() + 1);
        assert(p.subrange(1, p.len() as int) =~= t.push(b));
        lemma_le_val_push(t, b);
        assert(le_val(p) == p[0] as nat + 256 * le_val(p.subrange(1, p.len() as int)));
        assert(p[0] == s[0]);
        assert(le_val(p) == s[0] as nat + 256 * (le_val(t) + pow2(8 * t.len()) * b));
        lemma_mul_is_distributive_add(256, le_val(t) as int, pow2(8 * t.len()) as int * b);
        assert(256 * (le_val(t) + pow2(8 * t.len()) * b) == 256 * le_val(t) + 256 * (pow2(
            8 * t.len(),
        ) * b));
        lemma_mul_is_associative(256, pow2(8 * t.len()) as int, b as int);
        assert(256 * (pow2(8 * t.len()) * b) == (256 * pow2(8 * t.len())) * b);
        lemma_pow2_adds(8, 8 * t.len());
        assert(256 * pow2(8 * t.len()) == pow2(8 * s.len()));
        assert(le_val(p) == s[0] as nat + 256 * le_val(t) + pow2(8 * s.len()) * b);
    }
}

/// A byte sequence splits at any offset `k` into its low window and its
/// remaining bytes scaled by `2^(8k)`.
pub proof fn lemma_le_val_split(s: Seq<u8>, k: nat)
    requires
        k <= s.len(),
    ensures
        le_val(s) == le_val(s.take(k as int)) + pow2(8 * k) * le_val(s.skip(k as int)),
    decreases k,
{
    lemma2_to64();
    if k == 0 {
        assert(s.take(0) =~= Seq::<u8>::empty());
        assert(s.skip(0) =~= s);
        assert(le_val(Seq::<u8>::empty()) == 0);
        assert(pow2(0) * le_val(s) == le_val(s));
    } else {
        let t = s.subrange(1, s.len() as int);
        lemma_le_val_split(t, (k - 1) as nat);
        assert(s.take(k as int).subrange(1, k as int) =~= t.take(k - 1));
        assert(s.take(k as int).len() == k);
        assert(s.take(k as int)[0] == s[0]);
        assert(t.skip(k - 1) =~= s.skip(k as int));
        let lo = le_val(t.take(k - 1)) as int;
        let hi = le_val(s.skip(k as int)) as int;
        let p = pow2(8 * (k - 1) as nat) as int;
        assert(le_val(t) == lo + p * hi);
        lemma_mul_is_distributive_add(256, lo, p * hi);
        lemma_mul_is_associative(256, p, hi);
        lemma_pow2_adds(8, 8 * (k - 1) as nat);
        assert(le_val(s) == s[0] + 256 * le_val(t));
        assert(le_val(s.take(k as int)) == s[0] + 256 * lo);
        assert(256 * (lo + p * hi) == 256 * lo + (256 * p) * hi);
        assert(256 * p == pow2(8 * k));
        assert((256 * p) * hi == pow2(8 * k) * hi);
        assert(le_val(s) == le_val(s.take(k as int)) + pow2(8 * k) * hi);
    }
}

/// The low `k`-byte window of a sequence denotes the sequence's value
/// reduced modulo `2^(8k)`.
pub proof fn lemma_le_val_take_mod(s: Seq<u8>, k: nat)
    requires
        k <= s.len(),
    ensures
        le_val(s.take(k as int)) == le_val(s) % pow2(8 * k),
{
    lemma_le_val_split(s, k);
    lemma_le_val_bound(s.take(k as int));
    assert(s.take(k as int).len() == k);
    lemma_pow2_pos(8 * k);
    lemma_mul_is_commutative(pow2(8 * k) as int, le_val(s.skip(k as int)) as int);
    lemma_fundamental_div_mod_converse(
        le_val(s) as int,
        pow2(8 * k) as int,
        le_val(s.skip(k as int)) as int,
        le_val(s.take(k as int)) as int,
    );
}

/// Zero padding after a byte window leaves its value unchanged.
pub proof fn lemma_le_val_zero_extend(s: Seq<u8>, n: nat)
    ensures
        le_val(s + zero_bytes(n)) == le_val(s),
{
    let e = s + zero_bytes(n);
    lemma_le_val_split(e, s.len());
    assert(e.take(s.len() as int) =~= s);
    assert(e.skip(s.len() as int) =~= zero_bytes(n));
    lemma_le_val_zeros(n);
}

/// Reading a `k`-byte window from a zero-padded region yields the stored
/// value modulo `2^(8k)`: truncation when the window is narrower than the
/// value, the value itself when it is at least as wide.
pub proof fn lemma_le_val_window(s: Seq<u8>, n: nat, k: nat)
    requires
        k <= s.len() + n,
    ensures
        le_val((s + zero_bytes(n)).take(k as int)) == le_val(s) % pow2(8 * k),
{
    let e = s + zero_bytes(n);
    if k <= s.len() {
        assert(e.take(k as int) =~= s.take(k as int));
        lemma_le_val_take_mod(s, k);
    } else {
        assert(e.take(k as int) =~= s + zero_bytes((k - s.len()) as nat));
        lemma_le_val_zero_extend(s, (k - s.len()) as nat);
        lemma_le_val_bound(s);
        if s.len() < k {
            lemma_pow2_strictly_increases(8 * s.len(), 8 * k);
        }
        lemma_pow2_pos(8 * k);
        lemma_small_mod(le_val(s), pow2(8 * k));
    }
}

/// Serializes up to sixteen value bytes, least-significant first.
pub fn le_bytes_of_u128(v: u128, width: usize) -> (r: Vec<u8>)
    requires
        width <= 16,
        v < pow2(8 * width as nat),
    ensures
        r@.len() == width,
        le_val(r@) == v,
{
    let mut r: Vec<u8> = Vec::new();
    let mut x: u128 = v;
    let mut i: usize = 0;
    proof {
        lemma2_to64();
        assert(le_val(r@) == 0);
        assert(pow2(0) * x == x);
    }
    while i < width
        invariant
            i <= width <= 16,
            r@.len() == i,
            x < pow2(8 * (width - i) as nat),
            le_val(r@) + pow2(8 * i as nat) * x == v,
        decreases width - i,
    {
        let b: u8 = (x % 256) as u8;
        proof {
            lemma2_to64();
            let old_r = r@;
            let old_x = x as int;
            let e = (8 * i) as nat;
            lemma_le_val_push(old_r, b);
            lemma_fundamental_div_mod(old_x, 256);
            assert(b == old_x % 256);
            // value kept: le_val grows by the byte, x sheds it
            lemma_mul_is_distributive_add(pow2(e) as int, b as int, 256 * (old_x / 256));
            lemma_mul_is_associative(pow2(e) as int, 256, old_x / 256);
            lemma_mul_is_commutative(pow2(e) as int, 256);
            lemma_pow2_adds(e, 8);
            assert(pow2(e) * old_x == pow2(e) * b + pow2(e + 8) * (old_x / 256));
            assert(le_val(old_r.push(b)) + pow2(e + 8) * (old_x / 256) == v);
            // the shrunk x stays under the shrunk bound
            let f = (8 * (width - i - 1)) as nat;
            lemma_pow2_adds(f, 8);
            assert(old_x < pow2(f) * 256 ==> old_x / 256 < pow2(f)) by (nonlinear_arith);
            assert(old_x / 256 < pow2(f));
        }
        r.push(b);
        x = x / 256;
        i = i + 1;
    }
    proof {
        assert(pow2(8 * width as nat) * 0 == 0);
    }
    r
}

/// Reads back the value a little-endian byte window of up to sixteen bytes
/// denotes.
pub fn u128_of_le_bytes(b: &Vec<u8>) -> (r: u128)
    requires
        b@.len() <= 16,
    ensures
        r == le_val(b@),
{
    let mut r: u128 = 0;
    let mut i: usize = b.len();
    proof {
        assert(b@.skip(b@.len() as int) =~= Seq::<u8>::empty());
        assert(le_val(Seq::<u8>::empty()) == 0);
    }
    while i > 0
        invariant
            i <= b@.len() <= 16,
            r == le_val(b@.skip(i as int)),
        decreases i,
    {
        let ghost pre = b@.skip(i as int);
        i = i - 1;
        proof {
            lemma2_to64();
            vstd::arithmetic::power2::lemma2_to64_rest();
            lemma_pow2_adds(64, 64);
            let s = b@.skip(i as int);
            assert(s.subrange(1, s.len() as int) =~= pre);
            assert(s[0] == b@[i as int]);
            assert(le_val(s) == s[0] + 256 * le_val(pre));
            // the running value fits: it is bounded by 2^(8 * bytes read)
            lemma_le_val_bound(pre);
            let e = (8 * pre.len()) as nat;
            lemma_mul_inequality(le_val(pre) as int, pow2(e) as int - 1, 256);
            lemma_mul_is_commutative(le_val(pre) as int, 256);
            lemma_mul_is_commutative(pow2(e) as int - 1, 256);
            lemma_pow2_adds(e, 8);
            assert(256 * le_val(pre) <= 256 * pow2(e) - 256);
            if e + 8 < 128 {
                lemma_pow2_strictly_increases(e + 8, 128);
            }
            assert(pow2(128) == 0x100000000000000000000000000000000);
            assert(256 * le_val(pre) + 255 < pow2(128));
        }
        r = r * 256 + (b[i] as u128);
    }
    proof {
        assert(b@.skip(0) =~= b@);
    }
    r
}

} // verus!
