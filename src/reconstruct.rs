//! Reassembling decoded components into a binary32 bit pattern.
use vstd::prelude::*;

use crate::decode::{units_of_fields, units_of_product, BIAS};
use crate::layout::{exponent_field, mantissa_field, pack, sign_field};

verus! {

/// The sign field that a unit factor stands for: 0 for +1, 1 for -1.
pub open spec fn sign_bit(unit: int) -> nat {
    if unit == 1 {
        0
    } else {
        1
    }
}

/// Whether `2^power` lies in the normal exponent range of binary32.
pub open spec fn normal_power(power: int) -> bool {
    -126 <= power <= 127
}

/// The normal binary32 pattern equal to `unit * 2^power * (mant / 2^23)`,
/// where `mant` is a significand in `[2^23, 2^24)`; none where the power lies
/// outside the normal range, so that no normal pattern holds that value.
pub open spec fn assembled(unit: int, power: int, mant: int) -> Option<u32> {
    if normal_power(power) {
        Some(pack(sign_bit(unit), (power + BIAS) as nat, (mant - 0x80_0000) as nat) as u32)
    } else {
        None
    }
}

pub(crate) proof fn lemma_pack_fields(s: u32, e: u32, m: u32)
    by (bit_vector)
    requires
        s <= 1,
        e <= 0xff,
        m < 0x80_0000,
    ensures
        (s << 31) | (e << 23) | m == s * 0x8000_0000 + e * 0x80_0000 + m,
        (s * 0x8000_0000 + e * 0x80_0000 + m) / 0x8000_0000 == s,
        ((s * 0x8000_0000 + e * 0x80_0000 + m) / 0x80_0000) % 0x100 == e,
        (s * 0x8000_0000 + e * 0x80_0000 + m) % 0x80_0000 == m,
{
}

/// Multiplies a unit factor, a power of two and a fixed-point significand in
/// `[1, 2)` back together, and returns the binary32 pattern of the product
/// when it is a normal value. The product is exact there, so the pattern's
/// fields are the sign of the unit, the biased power and the significand
/// without its hidden one.
pub fn from_parts(sign: i32, exp: i32, mant: u32) -> (r: Option<u32>)
    requires
        sign == 1 || sign == -1,
        0x80_0000 <= mant < 0x100_0000,
    ensures
        r == assembled(sign as int, exp as int, mant as int),
        r is Some <==> normal_power(exp as int),
        r matches Some(b) ==> {
            &&& sign_field(b) == sign_bit(sign as int)
            &&& exponent_field(b) == exp + BIAS
            &&& mantissa_field(b) == mant - 0x80_0000
            &&& units_of_fields(
                sign_field(b) as int,
                exponent_field(b) as int,
                mantissa_field(b) as int,
            ) == units_of_product(sign as int, exp as int, mant as int)
        },
{
    if exp < -126 || exp > 127 {
        return None;
    }
    let s: u32 = if sign == 1 {
        0
    } else {
        1
    };
    let e: u32 = (exp + BIAS) as u32;
    let m: u32 = mant - 0x80_0000;
    proof {
        lemma_pack_fields(s, e, m);
    }
    Some((s << 31) | (e << 23) | m)
}

} // verus!
