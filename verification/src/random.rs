//! The source of chance: uniform draws from the unit interval.

use vstd::prelude::*;
use vstd::arithmetic::power2::pow2;
use crate::convert::{lemma_fields, lemma_unit_pattern, FRACTION_MASK};
use crate::scalar::{Scalar, MAGNITUDE_MASK, ONE_BITS, SIGN_BIT};

verus! {

/// Calls `fastrand::u64` with the full range, on the generator of the
/// running thread. Nothing is claimed of the result.
#[verifier::external_body]
fn random_bits() -> (r: u64) {
    fastrand::u64(..)
}

impl Scalar {
    /// What a draw from the unit interval is: one of the `2^53` multiples of
    /// `2^-53` that are at least zero and below one.
    pub open spec fn is_unit_draw(self) -> bool {
        &&& !self.sign()
        &&& exists|m: nat| m < 0x20_0000_0000_0000 && #[trigger] self.magnitude_is(m, 53)
    }

    /// `min + (max - min) u`: the place of `u` between the two bounds.
    pub open spec fn spec_between(min: Scalar, max: Scalar, u: Scalar) -> Scalar {
        min.add(max.sub(min).mul(u))
    }

    /// What a draw between two bounds is: a unit draw brought between them.
    pub open spec fn is_draw_between(self, min: Scalar, max: Scalar) -> bool {
        exists|u: Scalar| u.is_unit_draw() && self == #[trigger] Scalar::spec_between(min, max, u)
    }

    /// The unit draw that the fifty-three high bits of `word` number:
    /// `(word >> 11) / 2^53`.
    pub fn unit_from_word(word: u64) -> (r: Scalar)
        ensures
            r.is_unit_draw(),
            r.is_unit(),
            !r.sign(),
            r.magnitude_is((word as nat) / 2048, 53),
    {
        let m: u64 = word >> 11;
        assert(word >> 11 < 0x20_0000_0000_0000 && word >> 11 == word / 2048) by (bit_vector);
        let r = Scalar::from_fraction(false, m, 53);
        proof {
            let b = r.bits;
            lemma_fields(b);
            assert(b & SIGN_BIT == 0 && (b >> 52) & 0x7ff <= 1022 ==> b < ONE_BITS)
                by (bit_vector);
            lemma_unit_pattern(r);
            assert(r.magnitude_is(m as nat, 53));
        }
        r
    }

    #[verifier::when_used_as_spec(spec_between)]
    pub fn between(min: Scalar, max: Scalar, u: Scalar) -> (r: Scalar)
        ensures
            r == Scalar::spec_between(min, max, u),
    {
        min.add(max.sub(min).mul(u))
    }
}

/// A unit draw is at least zero and below one.
pub proof fn lemma_unit_draw_in_range(s: Scalar)
    requires
        s.is_unit_draw(),
    ensures
        s.is_unit(),
{
    let m = choose|m: nat| m < 0x20_0000_0000_0000 && #[trigger] s.magnitude_is(m, 53);
    let b = s.bits;
    lemma_fields(b);
    vstd::arithmetic::power2::lemma2_to64_rest();
    assert(b & SIGN_BIT == 0 ==> b & MAGNITUDE_MASK == b) by (bit_vector);
    assert((b >> 52) & 0x7ff <= 1022 && b & SIGN_BIT == 0 ==> b < ONE_BITS) by (bit_vector);
    if s.exponent() >= 1023 {
        // significand * 2^(exponent + 53) is at least 2^52 * 2^1076, above m * 2^1075
        vstd::arithmetic::power2::lemma_pow2_adds(52, 1076);
        vstd::arithmetic::power2::lemma_pow2_adds(53, 1075);
        vstd::arithmetic::power2::lemma_pow2_unfold(1076);
        vstd::arithmetic::power2::lemma_pow2_pos(1075);
        if s.exponent() + 53 > 1076 {
            vstd::arithmetic::power2::lemma_pow2_strictly_increases(
                1076,
                (s.exponent() + 53) as nat,
            );
        }
        let p = pow2((s.exponent() + 53) as nat);
        let sig = s.significand();
        assert(sig * p >= 0x10_0000_0000_0000 * pow2(1076)) by (nonlinear_arith)
            requires
                sig >= 0x10_0000_0000_0000,
                p >= pow2(1076),
        ;
        assert(m * pow2(1075) < 0x20_0000_0000_0000 * pow2(1075)) by (nonlinear_arith)
            requires
                m < 0x20_0000_0000_0000,
                pow2(1075) > 0,
        ;
        assert(false);
    }
    lemma_unit_pattern(s);
}

/// Zero is a unit draw.
pub proof fn lemma_zero_is_unit_draw()
    ensures
        Scalar::zero().is_unit_draw(),
{
    assert(0u64 & MAGNITUDE_MASK == 0 && 0u64 & SIGN_BIT == 0 && (0u64 >> 52) & 0x7ff == 0 && 0u64
        & FRACTION_MASK == 0) by (bit_vector);
    let z = Scalar { bits: 0 };
    lemma_fields(0);
    assert(z.significand() * pow2(z.scale() + 53) == 0) by (nonlinear_arith)
        requires
            z.significand() == 0,
    ;
    assert(z.magnitude_is(0, 53));
}

/// A draw from the unit interval.
pub fn random_f64() -> (r: Scalar)
    ensures
        r.is_unit_draw(),
{
    Scalar::unit_from_word(random_bits())
}

/// A draw between the two bounds: `min + (max - min) u` for a unit draw `u`.
pub fn random_f64_between(min: Scalar, max: Scalar) -> (r: Scalar)
    ensures
        r.is_draw_between(min, max),
{
    let u = random_f64();
    Scalar::between(min, max, u)
}

} // verus!
