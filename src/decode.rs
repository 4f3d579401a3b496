//! Turning raw fields into exact numeric components.
use vstd::prelude::*;
use vstd::arithmetic::power2::pow2;

use crate::layout::MANTISSA_BITS;

verus! {

/// The bias subtracted from the stored exponent to give the true power of two.
pub const BIAS: i32 = 127;

/// The sign field read as a factor: +1 for 0, -1 for 1.
pub open spec fn signed_unit(sign: int) -> int {
    if sign == 0 {
        1
    } else {
        -1
    }
}

/// The true power of two that a biased exponent field stands for.
pub open spec fn exponent_power(exp: int) -> int {
    exp - BIAS
}

/// The significand `1.m` that a mantissa field stands for, in fixed point
/// with `MANTISSA_BITS` fraction bits: the hidden leading one plus the field.
pub open spec fn significand(frac: int) -> int {
    0x80_0000 + frac
}

/// The value `unit * 2^power * (mant / 2^23)`, counted in units of `2^-150`,
/// the smallest step among the values that decoded fields can take.
/// Meaningful for `power >= -127`.
pub open spec fn units_of_product(unit: int, power: int, mant: int) -> int {
    unit * mant * pow2((power + BIAS) as nat)
}

/// The value that the fields `s`, `e`, `m` stand for under the normal
/// encoding `(-1)^s * 1.m * 2^(e - 127)`, in units of `2^-150`.
pub open spec fn units_of_fields(s: int, e: int, m: int) -> int {
    signed_unit(s) * (0x80_0000 + m) * pow2(e as nat)
}

proof fn lemma_low_bits_step(x: u32, i: u32, j: u32)
    by (bit_vector)
    requires
        i < 23,
        j == i + 1,
    ensures
        x & !(0xffff_ffffu32 << j) == (x & !(0xffff_ffffu32 << i)) + (x & (1u32 << i)),
        (x & (1u32 << i)) == 0 || (x & (1u32 << i)) == (1u32 << i),
        x & !(0xffff_ffffu32 << j) < 0x80_0000,
{
}

proof fn lemma_low_bits_bounds(x: u32)
    by (bit_vector)
    requires
        x < 0x80_0000,
    ensures
        x & !(0xffff_ffffu32 << 0) == 0,
        x & !(0xffff_ffffu32 << 23) == x,
{
}

/// Decodes raw fields into their numeric meaning: the sign as a unit factor,
/// the exponent as a true power of two, and the mantissa as the significand
/// `1.m` in fixed point with `MANTISSA_BITS` fraction bits, so that it lies
/// in `[1, 2)`. The three components multiply to the value the fields encode.
pub fn decode(sign: u32, exp: u32, frac: u32) -> (r: (i32, i32, u32))
    requires
        sign <= 1,
        exp <= 0xff,
        frac < 0x80_0000,
    ensures
        r.0 == signed_unit(sign as int),
        sign == 0 ==> r.0 == 1,
        sign == 1 ==> r.0 == -1,
        r.1 == exponent_power(exp as int),
        exp == BIAS ==> r.1 == 0,
        r.2 == significand(frac as int),
        0x80_0000 <= r.2 < 0x100_0000,
        units_of_product(r.0 as int, r.1 as int, r.2 as int) == units_of_fields(
            sign as int,
            exp as int,
            frac as int,
        ),
{
    let unit: i32 = if sign == 0 {
        1
    } else {
        -1
    };
    let power: i32 = (exp as i32) - BIAS;
    // Start from the hidden leading one; bit i of the field weighs
    // 2^(i - 23), which is the integer 1 << i in this fixed point.
    let mut mant: u32 = 0x80_0000;
    let mut i: u32 = 0;
    proof {
        lemma_low_bits_bounds(frac);
    }
    while i < MANTISSA_BITS
        invariant
            i <= MANTISSA_BITS,
            frac < 0x80_0000,
            mant == 0x80_0000 + (frac & !(0xffff_ffffu32 << i)),
        decreases MANTISSA_BITS - i,
    {
        let mask: u32 = 1u32 << i;
        proof {
            lemma_low_bits_step(frac, i, (i + 1) as u32);
        }
        if frac & mask != 0 {
            mant = mant + mask;
        }
        i = i + 1;
    }
    proof {
        lemma_low_bits_bounds(frac);
    }
    (unit, power, mant)
}

} // verus!
