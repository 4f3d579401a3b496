//! Laws that relate extraction, decoding and reassembly.
use vstd::prelude::*;
use vstd::arithmetic::power2::pow2;

use crate::decode::{BIAS, exponent_power, signed_unit, significand, units_of_fields, units_of_product};
use crate::layout::{exponent_field, is_normal, lemma_fields_partition, mantissa_field, sign_field};
use crate::reconstruct::{assembled, lemma_pack_fields};

verus! {

/// Round trip: for every normal binary32 pattern `b`, decoding its fields and
/// reassembling the components gives back `b` itself, bit for bit, and the
/// components multiply to exactly the value `b` encodes.
pub proof fn lemma_round_trip(b: u32)
    requires
        is_normal(b),
    ensures
        assembled(
            signed_unit(sign_field(b) as int),
            exponent_power(exponent_field(b) as int),
            significand(mantissa_field(b) as int),
        ) == Some(b),
        units_of_product(
            signed_unit(sign_field(b) as int),
            exponent_power(exponent_field(b) as int),
            significand(mantissa_field(b) as int),
        ) == units_of_fields(sign_field(b) as int, exponent_field(b) as int, mantissa_field(b) as int),
{
    lemma_fields_partition(b);
}

/// Negation: for equal exponent and mantissa fields, a sign field of 1
/// reconstructs to the negative of what a sign field of 0 reconstructs to.
/// The products are opposite, and where they are normal the two patterns
/// differ in the sign bit alone and encode opposite values.
pub proof fn lemma_sign_negates(exp: u32, frac: u32)
    requires
        exp <= 0xff,
        frac < 0x80_0000,
    ensures
        units_of_product(signed_unit(1), exponent_power(exp as int), significand(frac as int))
            == -units_of_product(signed_unit(0), exponent_power(exp as int), significand(frac as int)),
        ({
            let neg = assembled(signed_unit(1), exponent_power(exp as int), significand(frac as int));
            let pos = assembled(signed_unit(0), exponent_power(exp as int), significand(frac as int));
            match (neg, pos) {
                (Some(n), Some(p)) => {
                    &&& n == p + 0x8000_0000
                    &&& sign_field(n) == 1 && sign_field(p) == 0
                    &&& exponent_field(n) == exponent_field(p) == exp
                    &&& mantissa_field(n) == mantissa_field(p) == frac
                    &&& units_of_fields(
                        sign_field(n) as int,
                        exponent_field(n) as int,
                        mantissa_field(n) as int,
                    ) == -units_of_fields(
                        sign_field(p) as int,
                        exponent_field(p) as int,
                        mantissa_field(p) as int,
                    )
                },
                (None, None) => true,
                _ => false,
            }
        }),
{
    let mant = significand(frac as int);
    let scale = pow2((exponent_power(exp as int) + BIAS) as nat) as int;
    assert(-1 * mant * scale == -(1 * mant * scale)) by (nonlinear_arith);
    if 1 <= exp <= 0xfe {
        lemma_pack_fields(1, exp, frac);
        lemma_pack_fields(0, exp, frac);
        let a = 0x80_0000 + frac;
        let c = pow2(exp as nat) as int;
        assert((-1 * a) * c == -(1 * a * c)) by (nonlinear_arith);
    }
}

} // verus!
