//! Arithmetic on bytes seen as elements of GF(2^8), the field of AES with
//! the reduction polynomial x^8 + x^4 + x^3 + x + 1 (0x11b).

use vstd::prelude::*;

verus! {

/// The product of `x` and the field element 2: the byte shifted left by one
/// bit, reduced by 0x1b when the bit shifted out was set.
pub open spec fn xtime_spec(x: u8) -> u8 {
    if x & 0x80 == 0x80 {
        (x << 1) ^ 0x1b
    } else {
        x << 1
    }
}

/// The product of `a` and `b` in GF(2^8), by the bits of `b` from the lowest
/// up: bit `k` of `b` contributes `a` doubled `k` times.
pub open spec fn gf256_mul_spec(a: u8, b: u8) -> u8
    decreases b,
    via gf256_mul_decreases
{
    if b == 0 {
        0
    } else {
        (if b & 1 == 1 {
            a
        } else {
            0
        }) ^ gf256_mul_spec(xtime_spec(a), b >> 1)
    }
}

#[via_fn]
proof fn gf256_mul_decreases(a: u8, b: u8) {
    assert(b != 0 ==> (b >> 1) < b) by (bit_vector);
}

/// `x` doubled `n` times.
pub open spec fn xtime_iter_spec(x: u8, n: nat) -> u8
    decreases n,
{
    if n == 0 {
        x
    } else {
        xtime_spec(xtime_iter_spec(x, (n - 1) as nat))
    }
}

/// Doubles `x` in GF(2^8), without a branch on the value of `x`.
pub fn xtime(x: u8) -> (r: u8)
    ensures
        r == xtime_spec(x),
{
    let x1: u8 = x << 1;
    let x7: u8 = x >> 7;
    let x71: u8 = x7 & 1;
    assert(x71 <= 1) by (bit_vector)
        requires
            x71 == (x >> 7) & 1,
    ;
    let x711b: u8 = x71 * 0x1b;
    assert(x1 ^ x711b == xtime_spec(x)) by (bit_vector)
        requires
            x1 == x << 1,
            x711b == ((x >> 7) & 1) * 0x1b,
    ;
    x1 ^ x711b
}

/// Doubling eight times multiplies by x^8, which the reduction polynomial
/// makes equal to x^4 + x^3 + x + 1: every byte doubled eight times is its
/// product with 0x1b.
pub proof fn lemma_xtime_eight_times(x: u8)
    ensures
        xtime_iter_spec(x, 8) == gf256_mul_spec(x, 0x1b),
{
    let d1 = xtime_spec(x);
    let d2 = xtime_spec(d1);
    let d3 = xtime_spec(d2);
    let d4 = xtime_spec(d3);
    let d5 = xtime_spec(d4);
    let d6 = xtime_spec(d5);
    let d7 = xtime_spec(d6);
    let d8 = xtime_spec(d7);
    assert(xtime_iter_spec(x, 8) == d8) by {
        reveal_with_fuel(xtime_iter_spec, 9);
    }
    assert(0x1bu8 & 1 == 1 && 0x1bu8 >> 1 == 0x0d && 0x0du8 & 1 == 1 && 0x0du8 >> 1 == 0x06 && 0x06u8
        & 1 == 0 && 0x06u8 >> 1 == 0x03 && 0x03u8 & 1 == 1 && 0x03u8 >> 1 == 0x01 && 0x01u8 & 1 == 1
        && 0x01u8 >> 1 == 0x00) by (bit_vector);
    assert(gf256_mul_spec(d5, 0) == 0);
    assert(gf256_mul_spec(d4, 0x01) == d4 ^ 0);
    assert(gf256_mul_spec(d3, 0x03) == d3 ^ (d4 ^ 0));
    assert(gf256_mul_spec(d2, 0x06) == 0 ^ (d3 ^ (d4 ^ 0)));
    assert(gf256_mul_spec(d1, 0x0d) == d1 ^ (0 ^ (d3 ^ (d4 ^ 0))));
    assert(gf256_mul_spec(x, 0x1b) == x ^ (d1 ^ (0 ^ (d3 ^ (d4 ^ 0)))));
    assert(d8 == x ^ (d1 ^ (0 ^ (d3 ^ (d4 ^ 0))))) by (bit_vector)
        requires
            d1 == xtime_spec(x),
            d2 == xtime_spec(d1),
            d3 == xtime_spec(d2),
            d4 == xtime_spec(d3),
            d5 == xtime_spec(d4),
            d6 == xtime_spec(d5),
            d7 == xtime_spec(d6),
            d8 == xtime_spec(d7),
    ;
}

} // verus!
