//! The stratified sampler's parameters, and the permutation of its strata.
use vstd::prelude::*;

use crate::math::vector::Vec2;
use vstd::arithmetic::power2::{lemma2_to64, lemma_pow2_pos, pow2};
use vstd::relations::injective_on;
use vstd::set_lib::{lemma_int_range, lemma_len_subset, lemma_map_size, set_int_range};
use vstd::bits::{lemma_u32_low_bits_mask_is_mod, lemma_u32_pow2_no_overflow};
use vstd::arithmetic::div_mod::{
    lemma_fundamental_div_mod, lemma_mod_mod, lemma_mod_multiples_vanish, lemma_mul_mod_noop_left,
};

verus! {

/// Parameters of the stratified sampler.
#[derive(Copy, Clone)]
pub struct Params {
    /// Strata along each image axis in each pixel.
    pub pixel_samples: Vec2<u16>,
    /// Whether the strata are the same in each dimension.
    pub symmetric_dimensions: bool,
    /// Whether samples are jittered within their strata.
    pub jitter_samples: bool,
}

impl Default for Params {
    fn default() -> (r: Self)
        ensures
            r.pixel_samples.x == 1,
            r.pixel_samples.y == 1,
            r.symmetric_dimensions,
            r.jitter_samples,
    {
        Self {
            pixel_samples: Vec2 { x: 1, y: 1 },
            symmetric_dimensions: true,
            jitter_samples: true,
        }
    }
}

// ---------------------------------------------------------------------------
// Permuting sample indices
// ---------------------------------------------------------------------------

/// `w` is a mask of low bits: all ones below its highest set bit.
pub open spec fn is_low_mask(w: u32) -> bool {
    w & (w >> 1u32) == w >> 1u32
}

/// The smallest mask of low bits that covers `l - 1`.
pub open spec fn mask_of(l: u32) -> u32 {
    let w0 = (l - 1) as u32;
    let w1 = w0 | (w0 >> 1u32);
    let w2 = w1 | (w1 >> 2u32);
    let w3 = w2 | (w2 >> 4u32);
    let w4 = w3 | (w3 >> 8u32);
    w4 | (w4 >> 16u32)
}

proof fn lemma_mask_of(l: u32)
    requires
        l >= 1,
    ensures
        is_low_mask(mask_of(l)),
        (l - 1) as u32 <= mask_of(l),
{
    let x = (l - 1) as u32;
    assert({
        let w1 = x | (x >> 1u32);
        let w2 = w1 | (w1 >> 2u32);
        let w3 = w2 | (w2 >> 4u32);
        let w4 = w3 | (w3 >> 8u32);
        let w = w4 | (w4 >> 16u32);
        w & (w >> 1u32) == w >> 1u32 && x <= w
    }) by (bit_vector);
}

proof fn lemma_mask_case(w: u32, x: u32, n: nat)
    requires
        n < 32,
        w as int == pow2(n) - 1,
    ensures
        (x & w) as int == (x as int) % (w as int + 1),
{
    lemma_u32_low_bits_mask_is_mod(x, n);
    lemma_pow2_pos(n);
    lemma_u32_pow2_no_overflow(n);
}

/// Masking with a mask of low bits is taking the remainder by the next power of two.
proof fn lemma_mask_is_mod(w: u32, x: u32)
    requires
        is_low_mask(w),
    ensures
        (x & w) as int == (x as int) % (w as int + 1),
        0x1_0000_0000int % (w as int + 1) == 0,
{
    assert(w & (w >> 1u32) == w >> 1u32 ==> (w == 0x0u32 || w == 0x1u32 || w == 0x3u32 || w == 0x7u32 || w == 0xfu32 || w == 0x1fu32 || w == 0x3fu32 || w == 0x7fu32 || w == 0xffu32 || w == 0x1ffu32 || w == 0x3ffu32 || w == 0x7ffu32 || w == 0xfffu32 || w == 0x1fffu32 || w == 0x3fffu32 || w == 0x7fffu32 || w == 0xffffu32 || w == 0x1ffffu32 || w == 0x3ffffu32 || w == 0x7ffffu32 || w == 0xfffffu32 || w == 0x1fffffu32 || w == 0x3fffffu32 || w == 0x7fffffu32 || w == 0xffffffu32 || w == 0x1ffffffu32 || w == 0x3ffffffu32 || w == 0x7ffffffu32 || w == 0xfffffffu32 || w == 0x1fffffffu32 || w == 0x3fffffffu32 || w == 0x7fffffffu32 || w == 0xffffffffu32)) by (bit_vector);
    lemma2_to64();
    if w == 0x0u32 {
        lemma_mask_case(w, x, 0);
    } else if w == 0x1u32 {
        lemma_mask_case(w, x, 1);
    } else if w == 0x3u32 {
        lemma_mask_case(w, x, 2);
    } else if w == 0x7u32 {
        lemma_mask_case(w, x, 3);
    } else if w == 0xfu32 {
        lemma_mask_case(w, x, 4);
    } else if w == 0x1fu32 {
        lemma_mask_case(w, x, 5);
    } else if w == 0x3fu32 {
        lemma_mask_case(w, x, 6);
    } else if w == 0x7fu32 {
        lemma_mask_case(w, x, 7);
    } else if w == 0xffu32 {
        lemma_mask_case(w, x, 8);
    } else if w == 0x1ffu32 {
        lemma_mask_case(w, x, 9);
    } else if w == 0x3ffu32 {
        lemma_mask_case(w, x, 10);
    } else if w == 0x7ffu32 {
        lemma_mask_case(w, x, 11);
    } else if w == 0xfffu32 {
        lemma_mask_case(w, x, 12);
    } else if w == 0x1fffu32 {
        lemma_mask_case(w, x, 13);
    } else if w == 0x3fffu32 {
        lemma_mask_case(w, x, 14);
    } else if w == 0x7fffu32 {
        lemma_mask_case(w, x, 15);
    } else if w == 0xffffu32 {
        lemma_mask_case(w, x, 16);
    } else if w == 0x1ffffu32 {
        lemma_mask_case(w, x, 17);
    } else if w == 0x3ffffu32 {
        lemma_mask_case(w, x, 18);
    } else if w == 0x7ffffu32 {
        lemma_mask_case(w, x, 19);
    } else if w == 0xfffffu32 {
        lemma_mask_case(w, x, 20);
    } else if w == 0x1fffffu32 {
        lemma_mask_case(w, x, 21);
    } else if w == 0x3fffffu32 {
        lemma_mask_case(w, x, 22);
    } else if w == 0x7fffffu32 {
        lemma_mask_case(w, x, 23);
    } else if w == 0xffffffu32 {
        lemma_mask_case(w, x, 24);
    } else if w == 0x1ffffffu32 {
        lemma_mask_case(w, x, 25);
    } else if w == 0x3ffffffu32 {
        lemma_mask_case(w, x, 26);
    } else if w == 0x7ffffffu32 {
        lemma_mask_case(w, x, 27);
    } else if w == 0xfffffffu32 {
        lemma_mask_case(w, x, 28);
    } else if w == 0x1fffffffu32 {
        lemma_mask_case(w, x, 29);
    } else if w == 0x3fffffffu32 {
        lemma_mask_case(w, x, 30);
    } else if w == 0x7fffffffu32 {
        lemma_mask_case(w, x, 31);
    } else {
        assert(w == 0xffff_ffffu32);
        assert(x & 0xffff_ffffu32 == x) by (bit_vector);
    }
}

proof fn lemma_xor_shift_injective(a: u32, b: u32, w: u32, k: u32)
    requires
        is_low_mask(w),
        1 <= k < 32,
        (a ^ ((a & w) >> k)) & w == (b ^ ((b & w) >> k)) & w,
    ensures
        a & w == b & w,
{
    assert(w & (w >> 1u32) == w >> 1u32 && 1 <= k < 32 && (a ^ ((a & w) >> k)) & w == (b ^ ((b & w) >> k)) & w ==> a & w == b & w) by (bit_vector);
}

/// `x` multiplied by `c`, as a `u32` multiplication wraps it.
pub open spec fn wrapped_product(x: u32, c: u32) -> int {
    (x as int * c as int) % 0x1_0000_0000
}

proof fn lemma_wrapping_mul(x: u32, c: u32)
    ensures
        x.wrapping_mul(c) as int == wrapped_product(x, c),
{
    let p = (x as nat * c as nat) % (0x1_0000_0000 as nat);
    assert(0 <= p < 0x1_0000_0000);
}

/// Multiplying by a number that has an inverse modulo 2^32 keeps low bits
/// apart: products that agree in the bits of `w` come from factors that do.
proof fn lemma_mul_cancel(a: u32, b: u32, c: u32, c_inv: int, w: u32)
    requires
        is_low_mask(w),
        c_inv >= 0,
        (c as int * c_inv) % 0x1_0000_0000 == 1,
        a.wrapping_mul(c) & w == b.wrapping_mul(c) & w,
    ensures
        a & w == b & w,
{
    let k: int = 0x1_0000_0000;
    let m: int = w as int + 1;
    lemma_wrapping_mul(a, c);
    lemma_wrapping_mul(b, c);
    lemma_mask_is_mod(w, a.wrapping_mul(c));
    lemma_mask_is_mod(w, b.wrapping_mul(c));
    lemma_mask_is_mod(w, a);
    lemma_mask_is_mod(w, b);
    let q = k / m;
    lemma_fundamental_div_mod(k, m);
    assert(k == m * q);
    assert(q > 0) by (nonlinear_arith)
        requires
            k == m * q,
            m > 0,
            k > 0,
    ;
    let ac = a as int * c as int;
    let bc = b as int * c as int;
    lemma_mod_mod(ac, m, q);
    lemma_mod_mod(bc, m, q);
    assert(ac % m == bc % m);
    lemma_mul_mod_noop_left(ac, c_inv, m);
    lemma_mul_mod_noop_left(bc, c_inv, m);
    assert((ac * c_inv) % m == (bc * c_inv) % m);
    let e = c as int * c_inv;
    let t = e / k;
    lemma_fundamental_div_mod(e, k);
    assert(e == k * t + 1);
    assert(ac * c_inv == m * (a as int * t * q) + a as int) by (nonlinear_arith)
        requires
            ac == a as int * c as int,
            e == c as int * c_inv,
            e == k * t + 1,
            k == m * q,
    ;
    assert(bc * c_inv == m * (b as int * t * q) + b as int) by (nonlinear_arith)
        requires
            bc == b as int * c as int,
            e == c as int * c_inv,
            e == k * t + 1,
            k == m * q,
    ;
    lemma_mod_multiples_vanish(a as int * t * q, a as int, m);
    lemma_mod_multiples_vanish(b as int * t * q, b as int, m);
}

proof fn lemma_mul_cancel_small(a: u32, b: u32, p: u32, w: u32)
    requires
        is_low_mask(w),
        a.wrapping_mul(1u32 | (p >> 27u32)) & w == b.wrapping_mul(1u32 | (p >> 27u32)) & w,
    ensures
        a & w == b & w,
{
    let m = 1u32 | (p >> 27u32);
    assert((1u32 | (p >> 27u32)) == 1u32 || (1u32 | (p >> 27u32)) == 3u32 || (1u32 | (p >> 27u32)) == 5u32 || (1u32 | (p >> 27u32)) == 7u32 || (1u32 | (p >> 27u32)) == 9u32 || (1u32 | (p >> 27u32)) == 11u32 || (1u32 | (p >> 27u32)) == 13u32 || (1u32 | (p >> 27u32)) == 15u32 || (1u32 | (p >> 27u32)) == 17u32 || (1u32 | (p >> 27u32)) == 19u32 || (1u32 | (p >> 27u32)) == 21u32 || (1u32 | (p >> 27u32)) == 23u32 || (1u32 | (p >> 27u32)) == 25u32 || (1u32 | (p >> 27u32)) == 27u32 || (1u32 | (p >> 27u32)) == 29u32 || (1u32 | (p >> 27u32)) == 31u32) by (bit_vector);
    if m == 1u32 {
        lemma_mul_cancel(a, b, m, 0x1, w);
    } else if m == 3u32 {
        lemma_mul_cancel(a, b, m, 0xaaaaaaab, w);
    } else if m == 5u32 {
        lemma_mul_cancel(a, b, m, 0xcccccccd, w);
    } else if m == 7u32 {
        lemma_mul_cancel(a, b, m, 0xb6db6db7, w);
    } else if m == 9u32 {
        lemma_mul_cancel(a, b, m, 0x38e38e39, w);
    } else if m == 11u32 {
        lemma_mul_cancel(a, b, m, 0xba2e8ba3, w);
    } else if m == 13u32 {
        lemma_mul_cancel(a, b, m, 0xc4ec4ec5, w);
    } else if m == 15u32 {
        lemma_mul_cancel(a, b, m, 0xeeeeeeef, w);
    } else if m == 17u32 {
        lemma_mul_cancel(a, b, m, 0xf0f0f0f1, w);
    } else if m == 19u32 {
        lemma_mul_cancel(a, b, m, 0x286bca1b, w);
    } else if m == 21u32 {
        lemma_mul_cancel(a, b, m, 0x3cf3cf3d, w);
    } else if m == 23u32 {
        lemma_mul_cancel(a, b, m, 0xe9bd37a7, w);
    } else if m == 25u32 {
        lemma_mul_cancel(a, b, m, 0xc28f5c29, w);
    } else if m == 27u32 {
        lemma_mul_cancel(a, b, m, 0x684bda13, w);
    } else if m == 29u32 {
        lemma_mul_cancel(a, b, m, 0x4f72c235, w);
    } else if m == 31u32 {
        lemma_mul_cancel(a, b, m, 0xbdef7bdf, w);
    }
}

proof fn lemma_xor_const_injective(a: u32, b: u32, c: u32, w: u32)
    requires
        (a ^ c) & w == (b ^ c) & w,
    ensures
        a & w == b & w,
{
    assert((a ^ c) & w == (b ^ c) & w ==> a & w == b & w) by (bit_vector);
}

proof fn lemma_fold_injective(a: u32, b: u32, w: u32)
    requires
        (a & w) ^ ((a & w) >> 5u32) == (b & w) ^ ((b & w) >> 5u32),
    ensures
        a & w == b & w,
{
    assert((a & w) ^ ((a & w) >> 5u32) == (b & w) ^ ((b & w) >> 5u32) ==> a & w == b & w) by (bit_vector);
}

proof fn lemma_low_bits_equal(a: u32, b: u32, w: u32)
    requires
        is_low_mask(w),
        a <= w,
        b <= w,
        a & w == b & w,
    ensures
        a == b,
{
    assert(w & (w >> 1u32) == w >> 1u32 && a <= w && b <= w && a & w == b & w ==> a == b) by (bit_vector);
}

/// The mixing steps of one round of the hash that permutes sample indices
/// within the mask `w`, seeded by `p`.
pub open spec fn scramble(i: u32, w: u32, p: u32) -> u32 {
    let i = i ^ p;
    let i = i.wrapping_mul(0xe170893d);
    let i = i ^ (p >> 16u32);
    let i = i ^ ((i & w) >> 4u32);
    let i = i ^ (p >> 8u32);
    let i = i.wrapping_mul(0x929eb3f);
    let i = i ^ (p >> 23u32);
    let i = i ^ ((i & w) >> 1u32);
    let i = i.wrapping_mul(1u32 | (p >> 27u32));
    let i = i.wrapping_mul(0x6935fa69);
    let i = i ^ ((i & w) >> 11u32);
    let i = i.wrapping_mul(0x74dcb303);
    let i = i ^ ((i & w) >> 2u32);
    let i = i.wrapping_mul(0x9e501cc3);
    let i = i ^ ((i & w) >> 2u32);
    i.wrapping_mul(0xc860a3df)
}

/// One round of the hash: the mixing steps, cut down to the mask, and folded.
pub open spec fn permute_round(i: u32, w: u32, p: u32) -> u32 {
    let x = scramble(i, w, p) & w;
    x ^ (x >> 5u32)
}

/// A round stays within the mask.
pub proof fn lemma_round_in_mask(i: u32, w: u32, p: u32)
    requires
        is_low_mask(w),
    ensures
        permute_round(i, w, p) <= w,
{
    let y = scramble(i, w, p);
    assert(w & (w >> 1u32) == w >> 1u32 ==> (y & w) ^ ((y & w) >> 5u32) <= w) by (bit_vector);
}

/// A round is one to one on the values within the mask.
pub proof fn lemma_round_injective(a: u32, b: u32, w: u32, p: u32)
    requires
        is_low_mask(w),
        a <= w,
        b <= w,
        permute_round(a, w, p) == permute_round(b, w, p),
    ensures
        a == b,
{
    let a0 = a ^ p;
    let b0 = b ^ p;
    let a1 = a0.wrapping_mul(0xe170893d);
    let b1 = b0.wrapping_mul(0xe170893d);
    let a2 = a1 ^ (p >> 16u32);
    let b2 = b1 ^ (p >> 16u32);
    let a3 = a2 ^ ((a2 & w) >> 4u32);
    let b3 = b2 ^ ((b2 & w) >> 4u32);
    let a4 = a3 ^ (p >> 8u32);
    let b4 = b3 ^ (p >> 8u32);
    let a5 = a4.wrapping_mul(0x929eb3f);
    let b5 = b4.wrapping_mul(0x929eb3f);
    let a6 = a5 ^ (p >> 23u32);
    let b6 = b5 ^ (p >> 23u32);
    let a7 = a6 ^ ((a6 & w) >> 1u32);
    let b7 = b6 ^ ((b6 & w) >> 1u32);
    let a8 = a7.wrapping_mul(1u32 | (p >> 27u32));
    let b8 = b7.wrapping_mul(1u32 | (p >> 27u32));
    let a9 = a8.wrapping_mul(0x6935fa69);
    let b9 = b8.wrapping_mul(0x6935fa69);
    let a10 = a9 ^ ((a9 & w) >> 11u32);
    let b10 = b9 ^ ((b9 & w) >> 11u32);
    let a11 = a10.wrapping_mul(0x74dcb303);
    let b11 = b10.wrapping_mul(0x74dcb303);
    let a12 = a11 ^ ((a11 & w) >> 2u32);
    let b12 = b11 ^ ((b11 & w) >> 2u32);
    let a13 = a12.wrapping_mul(0x9e501cc3);
    let b13 = b12.wrapping_mul(0x9e501cc3);
    let a14 = a13 ^ ((a13 & w) >> 2u32);
    let b14 = b13 ^ ((b13 & w) >> 2u32);
    let a15 = a14.wrapping_mul(0xc860a3df);
    let b15 = b14.wrapping_mul(0xc860a3df);
    assert(scramble(a, w, p) == a15);
    assert(scramble(b, w, p) == b15);
    lemma_fold_injective(a15, b15, w);
    lemma_mul_cancel(a14, b14, 0xc860a3df, 0xcef8d81f, w);
    lemma_xor_shift_injective(a13, b13, w, 2);
    lemma_mul_cancel(a12, b12, 0x9e501cc3, 0x21ae73eb, w);
    lemma_xor_shift_injective(a11, b11, w, 2);
    lemma_mul_cancel(a10, b10, 0x74dcb303, 0xf247cfab, w);
    lemma_xor_shift_injective(a9, b9, w, 11);
    lemma_mul_cancel(a8, b8, 0x6935fa69, 0xae4f35d9, w);
    lemma_mul_cancel_small(a7, b7, p, w);
    lemma_xor_shift_injective(a6, b6, w, 1);
    lemma_xor_const_injective(a5, b5, p >> 23u32, w);
    lemma_mul_cancel(a4, b4, 0x929eb3f, 0xf95384bf, w);
    lemma_xor_const_injective(a3, b3, p >> 8u32, w);
    lemma_xor_shift_injective(a2, b2, w, 4);
    lemma_xor_const_injective(a1, b1, p >> 16u32, w);
    lemma_mul_cancel(a0, b0, 0xe170893d, 0x3e779615, w);
    lemma_xor_const_injective(a, b, p, w);
    lemma_low_bits_equal(a, b, w);
}

/// `i` after `n` rounds.
pub open spec fn orbit(i: u32, w: u32, p: u32, n: nat) -> u32
    decreases n,
{
    if n == 0 {
        i
    } else {
        permute_round(orbit(i, w, p, (n - 1) as nat), w, p)
    }
}

proof fn lemma_orbit_in_mask(i: u32, w: u32, p: u32, n: nat)
    requires
        is_low_mask(w),
        i <= w,
    ensures
        orbit(i, w, p, n) <= w,
    decreases n,
{
    if n > 0 {
        lemma_orbit_in_mask(i, w, p, (n - 1) as nat);
        lemma_round_in_mask(orbit(i, w, p, (n - 1) as nat), w, p);
    }
}

proof fn lemma_orbit_shift(i: u32, w: u32, p: u32, a: nat, b: nat)
    requires
        is_low_mask(w),
        i <= w,
        a <= b,
        orbit(i, w, p, a) == orbit(i, w, p, b),
    ensures
        orbit(i, w, p, 0) == orbit(i, w, p, (b - a) as nat),
    decreases a,
{
    if a > 0 {
        lemma_orbit_in_mask(i, w, p, (a - 1) as nat);
        lemma_orbit_in_mask(i, w, p, (b - 1) as nat);
        lemma_round_injective(orbit(i, w, p, (a - 1) as nat), orbit(i, w, p, (b - 1) as nat), w, p);
        lemma_orbit_shift(i, w, p, (a - 1) as nat, (b - 1) as nat);
    }
}

/// Rounds of the hash permute the values within the mask, so a value within
/// the mask comes back to itself after at most as many rounds as there are
/// such values.
pub proof fn lemma_orbit_returns(i: u32, w: u32, p: u32)
    requires
        is_low_mask(w),
        i <= w,
    ensures
        exists|n: nat| 1 <= n <= w as int + 1 && #[trigger] orbit(i, w, p, n) == i,
{
    let count = w as int + 2;
    let steps = set_int_range(0, count);
    let f = |k: int| orbit(i, w, p, k as nat) as int;
    let values = set_int_range(0, w as int + 1);
    lemma_int_range(0, count);
    lemma_int_range(0, w as int + 1);
    assert(steps.map(f).subset_of(values)) by {
        assert forall|v: int| steps.map(f).contains(v) implies values.contains(v) by {
            let k = choose|k: int| steps.contains(k) && f(k) == v;
            lemma_orbit_in_mask(i, w, p, k as nat);
        }
    }
    lemma_len_subset(steps.map(f), values);
    if injective_on(f, steps) {
        lemma_map_size(steps, steps.map(f), f);
        assert(false);
    }
    let (a, b) = choose|a: int, b: int| steps.contains(a) && steps.contains(b) && f(a) == f(b) && a != b;
    let (lo, hi) = if a < b {
        (a, b)
    } else {
        (b, a)
    };
    lemma_orbit_shift(i, w, p, lo as nat, hi as nat);
    assert(orbit(i, w, p, (hi - lo) as nat) == i);
}

/// After `n` rounds from `i`, the value is below `l` for the first time.
pub open spec fn lands_at(i: u32, w: u32, p: u32, l: u32, n: nat) -> bool {
    &&& n >= 1
    &&& orbit(i, w, p, n) < l
    &&& forall|k: nat| 1 <= k < n ==> #[trigger] orbit(i, w, p, k) >= l
}

/// The element at `i` of the permutation of `0..l` seeded by `p`: the hash is
/// applied to `i` until it gives a value below `l`, which is then offset by
/// `p` (wrapping) and reduced modulo `l`.
pub open spec fn permutation_of(i: u32, l: u32, p: u32) -> u32 {
    let w = mask_of(l);
    let n = choose|n: nat| lands_at(i, w, p, l, n);
    (orbit(i, w, p, n).wrapping_add(p)) % l
}

/// Returns the element at `i` of the permutation of `0..l` seeded by `p`.
#[verifier::rlimit(40)]
pub fn permutation_element(i: u32, l: u32, p: u32) -> (r: u32)
    requires
        i < l,
    ensures
        r == permutation_of(i, l, p),
        r < l,
{
    let ghost i0 = i;
    let mut i = i;
    let mut w = l - 1;
    w |= w >> 1;
    w |= w >> 2;
    w |= w >> 4;
    w |= w >> 8;
    w |= w >> 16;
    proof {
        lemma_mask_of(l);
        assert(w == mask_of(l));
        lemma_orbit_returns(i0, w, p);
    }
    let ghost n0: nat = choose|n: nat| 1 <= n <= w as int + 1 && #[trigger] orbit(i0, w, p, n) == i0;
    let ghost mut k: nat = 0;
    loop
        invariant_except_break
            k <= n0,
            k >= 1 ==> i >= l,
        invariant
            is_low_mask(w),
            w == mask_of(l),
            i0 < l,
            1 <= n0,
            orbit(i0, w, p, n0) == i0,
            i == orbit(i0, w, p, k),
            forall|j: nat| 1 <= j < k ==> #[trigger] orbit(i0, w, p, j) >= l,
        ensures
            lands_at(i0, w, p, l, k),
        decreases n0 - k,
    {
        let ghost before = i;
        i ^= p;
        i = i.wrapping_mul(0xe170893d);
        i ^= p >> 16;
        i ^= (i & w) >> 4;
        i ^= p >> 8;
        i = i.wrapping_mul(0x929eb3f);
        i ^= p >> 23;
        i ^= (i & w) >> 1;
        i = i.wrapping_mul(1 | p >> 27);
        i = i.wrapping_mul(0x6935fa69);
        i ^= (i & w) >> 11;
        i = i.wrapping_mul(0x74dcb303);
        i ^= (i & w) >> 2;
        i = i.wrapping_mul(0x9e501cc3);
        i ^= (i & w) >> 2;
        i = i.wrapping_mul(0xc860a3df);
        i &= w;
        i ^= i >> 5;
        proof {
            assert(i == permute_round(before, w, p));
            k = k + 1;
        }
        if i < l {
            break;
        }
    }
    proof {
        assert forall|n: nat| lands_at(i0, w, p, l, n) implies n == k by {
            if n < k {
                assert(orbit(i0, w, p, n) >= l);
            } else if n > k {
                assert(orbit(i0, w, p, k) >= l);
            }
        }
    }
    i.wrapping_add(p) % l
}

proof fn lemma_orbits_meet(a: u32, b: u32, w: u32, p: u32, x: nat, y: nat)
    requires
        is_low_mask(w),
        a <= w,
        b <= w,
        x <= y,
        orbit(a, w, p, x) == orbit(b, w, p, y),
    ensures
        a == orbit(b, w, p, (y - x) as nat),
    decreases x,
{
    if x > 0 {
        lemma_orbit_in_mask(a, w, p, (x - 1) as nat);
        lemma_orbit_in_mask(b, w, p, (y - 1) as nat);
        lemma_round_injective(orbit(a, w, p, (x - 1) as nat), orbit(b, w, p, (y - 1) as nat), w, p);
        lemma_orbits_meet(a, b, w, p, (x - 1) as nat, (y - 1) as nat);
    }
}

proof fn lemma_first_landing(i: u32, w: u32, p: u32, l: u32, k: nat, n0: nat)
    requires
        1 <= k <= n0,
        orbit(i, w, p, n0) < l,
        forall|j: nat| 1 <= j < k ==> #[trigger] orbit(i, w, p, j) >= l,
    ensures
        exists|n: nat| lands_at(i, w, p, l, n),
    decreases n0 - k,
{
    if orbit(i, w, p, k) < l {
        assert(lands_at(i, w, p, l, k));
    } else {
        lemma_first_landing(i, w, p, l, k + 1, n0);
    }
}

proof fn lemma_landing_exists(i: u32, l: u32, p: u32)
    requires
        i < l,
    ensures
        exists|n: nat| lands_at(i, mask_of(l), p, l, n),
{
    let w = mask_of(l);
    lemma_mask_of(l);
    lemma_orbit_returns(i, w, p);
    let n0 = choose|n: nat| 1 <= n <= w as int + 1 && #[trigger] orbit(i, w, p, n) == i;
    lemma_first_landing(i, w, p, l, 1, n0);
}

proof fn lemma_cycle_walk_injective(a: u32, b: u32, w: u32, p: u32, l: u32, na: nat, nb: nat)
    requires
        is_low_mask(w),
        a < l,
        b < l,
        (l - 1) as u32 <= w,
        lands_at(a, w, p, l, na),
        lands_at(b, w, p, l, nb),
        orbit(a, w, p, na) == orbit(b, w, p, nb),
    ensures
        a == b,
{
    if na <= nb {
        lemma_orbits_meet(a, b, w, p, na, nb);
        let d = (nb - na) as nat;
        if d > 0 {
            assert(orbit(b, w, p, d) >= l);
        }
    } else {
        lemma_orbits_meet(b, a, w, p, nb, na);
        let d = (na - nb) as nat;
        assert(orbit(a, w, p, d) >= l);
    }
}

/// Distinct indices get distinct elements: for each seed whose offset cannot
/// wrap, `permutation_element` permutes `0..l`.
pub proof fn lemma_permutation_injective(a: u32, b: u32, l: u32, p: u32)
    requires
        a < l,
        b < l,
        a != b,
        p as int + l as int <= u32::MAX as int + 1,
    ensures
        permutation_of(a, l, p) != permutation_of(b, l, p),
        permutation_of(a, l, p) < l,
{
    let w = mask_of(l);
    lemma_mask_of(l);
    lemma_landing_exists(a, l, p);
    lemma_landing_exists(b, l, p);
    let na = choose|n: nat| lands_at(a, w, p, l, n);
    let nb = choose|n: nat| lands_at(b, w, p, l, n);
    let ya = orbit(a, w, p, na);
    let yb = orbit(b, w, p, nb);
    assert(ya.wrapping_add(p) == ya + p);
    assert(yb.wrapping_add(p) == yb + p);
    if (ya + p) as int % (l as int) == (yb + p) as int % (l as int) {
        let xa = ya + p;
        let xb = yb + p;
        lemma_fundamental_div_mod(xa as int, l as int);
        lemma_fundamental_div_mod(xb as int, l as int);
        let qa = xa as int / l as int;
        let qb = xb as int / l as int;
        let r = xa as int % l as int;
        assert(ya as int - yb as int == l as int * (qa - qb)) by (nonlinear_arith)
            requires
                xa == ya + p,
                xb == yb + p,
                xa as int == l as int * qa + r,
                xb as int == l as int * qb + r,
        ;
        assert(qa == qb) by (nonlinear_arith)
            requires
                ya as int - yb as int == l as int * (qa - qb),
                0 <= ya < l,
                0 <= yb < l,
        ;
        lemma_cycle_walk_injective(a, b, w, p, l, na, nb);
    }
}

/// The cell, as (column, row), of stratum `s` of a pixel's `nx` by `ny`
/// strata, which are numbered row after row.
pub fn stratum_cell(s: u32, nx: u16, ny: u16) -> (r: (u32, u32))
    requires
        nx > 0,
        s < nx * ny,
    ensures
        r.0 == (s as int) % (nx as int),
        r.1 == (s as int) / (nx as int),
        r.0 < nx,
        r.1 < ny,
{
    let w = nx as u32;
    proof {
        let si = s as int;
        let n = nx as int;
        assert(si / n < ny) by (nonlinear_arith)
            requires
                n > 0,
                si < n * ny,
                0 <= si,
        {
            assert(si / n * n <= si);
        }
    }
    (s % w, s / w)
}

/// Each cell of the grid holds exactly one stratum: the one in column `x` of
/// row `y` is stratum `y * nx + x`, and two strata never share a cell.
pub proof fn lemma_stratum_cells(nx: int, ny: int, x: int, y: int, s1: int, s2: int)
    requires
        nx > 0,
        0 <= x < nx,
        0 <= y < ny,
        0 <= s1 < nx * ny,
        0 <= s2 < nx * ny,
    ensures
        0 <= y * nx + x < nx * ny,
        (y * nx + x) % nx == x,
        (y * nx + x) / nx == y,
        s1 != s2 ==> (s1 % nx != s2 % nx || s1 / nx != s2 / nx),
{
    assert(0 <= y * nx + x < nx * ny) by (nonlinear_arith)
        requires
            nx > 0,
            0 <= x < nx,
            0 <= y < ny,
    ;
    vstd::arithmetic::div_mod::lemma_fundamental_div_mod_converse(y * nx + x, nx, y, x);
    vstd::arithmetic::div_mod::lemma_fundamental_div_mod(s1, nx);
    vstd::arithmetic::div_mod::lemma_fundamental_div_mod(s2, nx);
}

} // verus!
