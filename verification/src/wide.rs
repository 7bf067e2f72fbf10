//! Exact comparison of products of 128-bit numbers.
//!
//! The product of two 128-bit numbers needs up to 256 bits. It is computed
//! here from the four products of the factors' 64-bit halves and held as two
//! 128-bit halves.

use vstd::prelude::*;

verus! {

/// Two to the power 128.
pub open spec fn two_pow_128() -> int {
    0x1_0000_0000_0000_0000_0000_0000_0000_0000int
}

/// A number below two to the power 256, as its upper and lower 128 bits.
#[derive(Clone, Copy, Debug)]
pub struct Wide {
    pub high: u128,
    pub low: u128,
}

impl Wide {
    /// The number that the two halves stand for.
    pub open spec fn value(self) -> int {
        self.high * two_pow_128() + self.low
    }
}

/// The product of two numbers below two to the power 64 fits in 128 bits.
proof fn lemma_half_product(a: u128, b: u128)
    by (nonlinear_arith)
    requires
        a <= 0xffff_ffff_ffff_ffff,
        b <= 0xffff_ffff_ffff_ffff,
    ensures
        a * b <= 0xffff_ffff_ffff_fffe_0000_0000_0000_0001,
{
}

/// The product of two numbers in terms of the products of their halves.
proof fn lemma_split_product(a1: int, a0: int, b1: int, b0: int, limb: int)
    ensures
        (a1 * limb + a0) * (b1 * limb + b0) == (a1 * b1) * (limb * limb) + (a0 * b1 + a1 * b0)
            * limb + a0 * b0,
{
    let a = a1 * limb + a0;
    let b = b1 * limb + b0;
    assert(a * b == (a1 * limb) * b + a0 * b) by (nonlinear_arith)
        requires
            a == a1 * limb + a0,
    ;
    assert((a1 * limb) * b == (a1 * limb) * (b1 * limb) + (a1 * limb) * b0) by (nonlinear_arith)
        requires
            b == b1 * limb + b0,
    ;
    assert(a0 * b == a0 * (b1 * limb) + a0 * b0) by (nonlinear_arith)
        requires
            b == b1 * limb + b0,
    ;
    assert((a1 * limb) * (b1 * limb) == (a1 * b1) * (limb * limb)) by (nonlinear_arith);
    assert((a1 * limb) * b0 == (a1 * b0) * limb) by (nonlinear_arith);
    assert(a0 * (b1 * limb) == (a0 * b1) * limb) by (nonlinear_arith);
    assert((a0 * b1 + a1 * b0) * limb == (a0 * b1) * limb + (a1 * b0) * limb)
        by (nonlinear_arith);
}

/// The full product of `a` and `b`.
pub fn wide_product(a: u128, b: u128) -> (product: Wide)
    ensures
        product.value() == a * b,
{
    let a0: u128 = a % 0x1_0000_0000_0000_0000;
    let a1: u128 = a / 0x1_0000_0000_0000_0000;
    let b0: u128 = b % 0x1_0000_0000_0000_0000;
    let b1: u128 = b / 0x1_0000_0000_0000_0000;
    proof {
        lemma_half_product(a0, b0);
        lemma_half_product(a0, b1);
        lemma_half_product(a1, b0);
        lemma_half_product(a1, b1);
    }
    let p00: u128 = a0 * b0;
    let p01: u128 = a0 * b1;
    let p10: u128 = a1 * b0;
    let p11: u128 = a1 * b1;
    let carry: u128 = p00 / 0x1_0000_0000_0000_0000 + p01 % 0x1_0000_0000_0000_0000 + p10
        % 0x1_0000_0000_0000_0000;
    let low: u128 = p00 % 0x1_0000_0000_0000_0000 + (carry % 0x1_0000_0000_0000_0000)
        * 0x1_0000_0000_0000_0000;
    let high: u128 = p11 + p01 / 0x1_0000_0000_0000_0000 + p10 / 0x1_0000_0000_0000_0000 + carry
        / 0x1_0000_0000_0000_0000;
    proof {
        lemma_split_product(a1 as int, a0 as int, b1 as int, b0 as int, 0x1_0000_0000_0000_0000);
        assert(0x1_0000_0000_0000_0000int * 0x1_0000_0000_0000_0000int == two_pow_128());
    }
    Wide { high, low }
}

/// Whether `a * b` is at most `c * d`.
pub fn product_le(a: u128, b: u128, c: u128, d: u128) -> (le: bool)
    ensures
        le == (a * b <= c * d),
{
    let left = wide_product(a, b);
    let right = wide_product(c, d);
    left.high < right.high || (left.high == right.high && left.low <= right.low)
}

} // verus!
