//! The binary32 layout: one sign bit, eight exponent bits, 23 mantissa bits.
use vstd::prelude::*;

verus! {

/// Width of the stored mantissa field, and number of fraction bits of the
/// fixed-point significand.
pub const MANTISSA_BITS: u32 = 23;

/// The sign field of a pattern: its most significant bit.
pub open spec fn sign_field(b: u32) -> u32 {
    b / 0x8000_0000
}

/// The biased exponent field of a pattern: bits 30 down to 23.
pub open spec fn exponent_field(b: u32) -> u32 {
    (b / 0x80_0000) % 0x100
}

/// The mantissa field of a pattern: its low 23 bits.
pub open spec fn mantissa_field(b: u32) -> u32 {
    b % 0x80_0000
}

/// The pattern whose fields are `s`, `e` and `m`.
pub open spec fn pack(s: nat, e: nat, m: nat) -> nat {
    s * 0x8000_0000 + e * 0x80_0000 + m
}

/// Whether a pattern is a normal value: its exponent field is neither all
/// zeros (zero and subnormals) nor all ones (infinities and NaN).
pub open spec fn is_normal(b: u32) -> bool {
    1 <= exponent_field(b) <= 0xfe
}

/// Whether `s`, `e` and `m` fit the widths of the sign, exponent and
/// mantissa fields.
pub open spec fn fields_fit(s: nat, e: nat, m: nat) -> bool {
    s <= 1 && e <= 0xff && m < 0x80_0000
}

pub(crate) proof fn lemma_fields_partition(b: u32)
    by (bit_vector)
    ensures
        (b >> 31) & 1 == b / 0x8000_0000,
        (b >> 23) & 0xff == (b / 0x80_0000) % 0x100,
        b & 0x7f_ffff == b % 0x80_0000,
        b / 0x8000_0000 <= 1,
        (b / 0x80_0000) % 0x100 <= 0xff,
        b % 0x80_0000 < 0x80_0000,
        (b / 0x8000_0000) * 0x8000_0000 + ((b / 0x80_0000) % 0x100) * 0x80_0000 + b % 0x80_0000
            == b,
        (((b >> 31) & 1) << 31) | (((b >> 23) & 0xff) << 23) | (b & 0x7f_ffff) == b,
{
}

/// Splits a binary32 bit pattern into its sign, biased exponent and mantissa
/// fields. Every pattern is accepted; the three fields partition its bits.
pub fn to_parts(bits: u32) -> (r: (u32, u32, u32))
    ensures
        r.0 == sign_field(bits),
        r.1 == exponent_field(bits),
        r.2 == mantissa_field(bits),
        fields_fit(r.0 as nat, r.1 as nat, r.2 as nat),
        pack(r.0 as nat, r.1 as nat, r.2 as nat) == bits,
        (r.0 << 31) | (r.1 << 23) | r.2 == bits,
{
    let sign: u32 = (bits >> 31) & 1;
    let exp: u32 = (bits >> 23) & 0xff;
    let mant: u32 = bits & 0x7f_ffff;
    proof {
        lemma_fields_partition(bits);
    }
    (sign, exp, mant)
}

} // verus!
