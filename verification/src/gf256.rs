//! Arithmetic in the field GF(2^8) used by the sharing engine.
//!
//! Addition is bitwise XOR; multiplication is carry-less multiplication
//! reduced by the polynomial `x^8 + x^4 + x^3 + x + 1` (0x11b). Inversion is
//! exponentiation to 254, by Fermat's little theorem for the 255-element
//! multiplicative group.

use vstd::prelude::*;

verus! {

/// Sum in GF(2^8): bitwise XOR. Subtraction is the same operation.
pub open spec fn spec_gf_add(a: u8, b: u8) -> u8 {
    a ^ b
}

/// One shift-and-xor round per bit of `b`: after `rounds` more rounds the
/// accumulator holds the reduced carry-less product.
pub open spec fn spec_gf_mul_rounds(a: u8, b: u8, acc: u8, rounds: nat) -> u8
    decreases rounds,
{
    if rounds == 0 {
        acc
    } else {
        let acc2 = if b & 1 == 1 {
            acc ^ a
        } else {
            acc
        };
        let a2 = if a & 0x80 == 0x80 {
            (a << 1) ^ 0x1b
        } else {
            a << 1
        };
        spec_gf_mul_rounds(a2, b >> 1, acc2, (rounds - 1) as nat)
    }
}

/// Product in GF(2^8).
pub open spec fn spec_gf_mul(a: u8, b: u8) -> u8 {
    spec_gf_mul_rounds(a, b, 0, 8)
}

/// `a` raised to the `e`-th power in GF(2^8).
pub open spec fn spec_gf_pow(a: u8, e: nat) -> u8
    decreases e,
{
    if e == 0 {
        1
    } else {
        spec_gf_mul(a, spec_gf_pow(a, (e - 1) as nat))
    }
}

/// Multiplicative inverse as `a^254`; maps 0 to 0.
pub open spec fn spec_gf_inv(a: u8) -> u8 {
    spec_gf_pow(a, 254)
}

/// Multiplying by 0 leaves the accumulator untouched in every round.
pub proof fn lemma_gf_mul_rounds_zero(a: u8, acc: u8, rounds: nat)
    ensures
        spec_gf_mul_rounds(a, 0, acc, rounds) == acc,
    decreases rounds,
{
    assert(0u8 & 1 == 0) by (bit_vector);
    assert(0u8 >> 1 == 0) by (bit_vector);
    if rounds > 0 {
        let a2 = if a & 0x80 == 0x80 {
            (a << 1) ^ 0x1b
        } else {
            a << 1
        };
        lemma_gf_mul_rounds_zero(a2, acc, (rounds - 1) as nat);
    }
}

/// 0 annihilates: `a * 0 == 0` in GF(2^8).
pub proof fn lemma_gf_mul_zero(a: u8)
    ensures
        spec_gf_mul(a, 0) == 0,
{
    lemma_gf_mul_rounds_zero(a, 0, 8);
}

/// 1 is the multiplicative identity: `a * 1 == a` in GF(2^8).
pub proof fn lemma_gf_mul_one(a: u8)
    ensures
        spec_gf_mul(a, 1) == a,
{
    assert(1u8 & 1 == 1) by (bit_vector);
    assert(1u8 >> 1 == 0) by (bit_vector);
    assert(0u8 ^ a == a) by (bit_vector);
    let a2 = if a & 0x80 == 0x80 {
        (a << 1) ^ 0x1b
    } else {
        a << 1
    };
    assert(spec_gf_mul_rounds(a, 1, 0, 8) == spec_gf_mul_rounds(a2, 1u8 >> 1, a, 7));
    lemma_gf_mul_rounds_zero(a2, a, 7);
}

/// Sum (= difference) in GF(2^8).
pub fn gf_add(a: u8, b: u8) -> (r: u8)
    ensures
        r == spec_gf_add(a, b),
{
    a ^ b
}

/// Product in GF(2^8), by eight shift-and-xor rounds.
pub fn gf_mul(a: u8, b: u8) -> (r: u8)
    ensures
        r == spec_gf_mul(a, b),
{
    let mut x: u8 = a;
    let mut y: u8 = b;
    let mut acc: u8 = 0;
    let mut i: usize = 0;
    while i < 8
        invariant
            i <= 8,
            spec_gf_mul_rounds(x, y, acc, (8 - i) as nat) == spec_gf_mul(a, b),
        decreases 8 - i,
    {
        if y & 1 == 1 {
            acc = acc ^ x;
        }
        let carry = x & 0x80 == 0x80;
        x = x << 1u8;
        if carry {
            x = x ^ 0x1b;
        }
        y = y >> 1u8;
        i = i + 1;
    }
    acc
}

/// Multiplicative inverse `a^254`; returns 0 for 0.
pub fn gf_inv(a: u8) -> (r: u8)
    ensures
        r == spec_gf_inv(a),
{
    let mut acc: u8 = 1;
    let mut i: usize = 0;
    while i < 254
        invariant
            i <= 254,
            acc == spec_gf_pow(a, i as nat),
        decreases 254 - i,
    {
        acc = gf_mul(a, acc);
        i = i + 1;
    }
    acc
}

} // verus!
