//! Binary64 numbers as bit patterns.

use vstd::prelude::*;

verus! {

/// The sign bit of a binary64 pattern.
pub const SIGN_BIT: u64 = 0x8000_0000_0000_0000;

/// Everything but the sign bit.
pub const MAGNITUDE_MASK: u64 = 0x7fff_ffff_ffff_ffff;

/// The magnitude of an infinity; a larger magnitude is a NaN.
pub const INFINITY_BITS: u64 = 0x7ff0_0000_0000_0000;

/// The pattern of `1.0`.
pub const ONE_BITS: u64 = 0x3ff0_0000_0000_0000;

/// The pattern that `softfloat::F64::add` gives for two patterns: the sum.
pub uninterp spec fn ieee_add(a: u64, b: u64) -> u64;

/// The pattern that `softfloat::F64::mul` gives for two patterns: the product.
pub uninterp spec fn ieee_mul(a: u64, b: u64) -> u64;

/// The pattern that `softfloat::F64::div` gives for two patterns: the quotient.
pub uninterp spec fn ieee_div(a: u64, b: u64) -> u64;

/// The pattern that `softfloat::F64::sqrt` gives for a pattern: the square root.
pub uninterp spec fn ieee_sqrt(a: u64) -> u64;

/// The pattern that `softfloat::F64::sin` gives for a pattern: the sine.
pub uninterp spec fn ieee_sin(a: u64) -> u64;

/// The pattern that `softfloat::F64::cos` gives for a pattern: the cosine.
pub uninterp spec fn ieee_cos(a: u64) -> u64;

/// Calls `softfloat::F64::add` on the two patterns. Trusted: the result is
/// the pattern that the library computes, which depends on the operands alone.
#[verifier::external_body]
fn add_bits(a: u64, b: u64) -> (r: u64)
    ensures
        r == ieee_add(a, b),
{
    softfloat::F64::from_bits(a).add(softfloat::F64::from_bits(b)).to_bits()
}

/// Calls `softfloat::F64::mul` on the two patterns. Trusted: the result is
/// the pattern that the library computes, which depends on the operands alone.
#[verifier::external_body]
fn mul_bits(a: u64, b: u64) -> (r: u64)
    ensures
        r == ieee_mul(a, b),
{
    softfloat::F64::from_bits(a).mul(softfloat::F64::from_bits(b)).to_bits()
}

/// Calls `softfloat::F64::div` on the two patterns. Trusted: the result is
/// the pattern that the library computes, which depends on the operands alone.
#[verifier::external_body]
fn div_bits(a: u64, b: u64) -> (r: u64)
    ensures
        r == ieee_div(a, b),
{
    softfloat::F64::from_bits(a).div(softfloat::F64::from_bits(b)).to_bits()
}

/// Calls `softfloat::F64::sqrt` on the pattern. Trusted: the result is the
/// pattern that the library computes, which depends on the operand alone.
/// Subnormal operands are left out: on them the library shifts a word by
/// its own width where words have 32 bits.
#[verifier::external_body]
fn sqrt_bits(a: u64) -> (r: u64)
    requires
        !(Scalar { bits: a }).is_subnormal(),
    ensures
        r == ieee_sqrt(a),
{
    softfloat::F64::from_bits(a).sqrt().to_bits()
}

/// Calls `softfloat::F64::sin` on the pattern. Trusted: the result is the
/// pattern that the library computes, which depends on the operand alone.
#[verifier::external_body]
fn sin_bits(a: u64) -> (r: u64)
    ensures
        r == ieee_sin(a),
{
    softfloat::F64::from_bits(a).sin().to_bits()
}

/// Calls `softfloat::F64::cos` on the pattern. Trusted: the result is the
/// pattern that the library computes, which depends on the operand alone.
#[verifier::external_body]
fn cos_bits(a: u64) -> (r: u64)
    ensures
        r == ieee_cos(a),
{
    softfloat::F64::from_bits(a).cos().to_bits()
}

/// The pattern of `2^-54`, which brings the root of a number times `2^108`
/// back to the root of the number.
pub const ROOT_RESCALE_BITS: u64 = 0x3c90_0000_0000_0000;

/// The pattern of pi over 180, the radians in a degree.
pub const RADIANS_PER_DEGREE_BITS: u64 = 0x3f91_df46_a252_9d39;

/// The pattern of `2.0`.
pub const TWO_BITS: u64 = 0x4000_0000_0000_0000;

/// The pattern of `0.5`.
pub const HALF_BITS: u64 = 0x3fe0_0000_0000_0000;

/// A binary64 number, held as its bit pattern.
#[derive(Clone, Copy, Debug)]
pub struct Scalar {
    pub bits: u64,
}

impl Scalar {
    /// Whether the sign bit is set.
    pub open spec fn sign(self) -> bool {
        self.bits >= SIGN_BIT
    }

    /// The pattern without its sign.
    pub open spec fn magnitude(self) -> u64 {
        if self.bits >= SIGN_BIT {
            (self.bits - SIGN_BIT) as u64
        } else {
            self.bits
        }
    }

    pub open spec fn spec_is_nan(self) -> bool {
        self.magnitude() > INFINITY_BITS
    }

    /// The place of a number that is not a NaN in the order of the numbers:
    /// both zeros have rank 0, and `a < b` exactly when `a.rank() < b.rank()`.
    pub open spec fn rank(self) -> int {
        if self.sign() {
            -(self.magnitude() as int)
        } else {
            self.magnitude() as int
        }
    }

    /// Whether the two compare at all: neither is a NaN.
    pub open spec fn ordered(self, other: Scalar) -> bool {
        !self.spec_is_nan() && !other.spec_is_nan()
    }

    pub open spec fn spec_lt(self, other: Scalar) -> bool {
        self.ordered(other) && self.rank() < other.rank()
    }

    pub open spec fn spec_le(self, other: Scalar) -> bool {
        self.ordered(other) && self.rank() <= other.rank()
    }

    pub open spec fn spec_gt(self, other: Scalar) -> bool {
        other.spec_lt(self)
    }

    pub open spec fn spec_ge(self, other: Scalar) -> bool {
        other.spec_le(self)
    }

    /// Numeric equality: a NaN equals nothing, the two zeros equal each other.
    pub open spec fn same(self, other: Scalar) -> bool {
        self.ordered(other) && self.rank() == other.rank()
    }

    /// The number with its sign bit turned over.
    pub open spec fn spec_neg(self) -> Scalar {
        Scalar {
            bits: if self.bits >= SIGN_BIT {
                (self.bits - SIGN_BIT) as u64
            } else {
                (self.bits + SIGN_BIT) as u64
            },
        }
    }

    /// The number with its sign bit cleared.
    pub open spec fn spec_abs(self) -> Scalar {
        Scalar { bits: self.magnitude() }
    }

    pub open spec fn spec_add(self, other: Scalar) -> Scalar {
        Scalar { bits: ieee_add(self.bits, other.bits) }
    }

    pub open spec fn spec_sub(self, other: Scalar) -> Scalar {
        self.spec_add(other.spec_neg())
    }

    pub open spec fn spec_mul(self, other: Scalar) -> Scalar {
        Scalar { bits: ieee_mul(self.bits, other.bits) }
    }

    pub open spec fn spec_div(self, other: Scalar) -> Scalar {
        Scalar { bits: ieee_div(self.bits, other.bits) }
    }

    /// Whether the number is subnormal: not zero and below the least normal
    /// magnitude, `2^-1022`.
    pub open spec fn is_subnormal(self) -> bool {
        0 < self.magnitude() < 0x10_0000_0000_0000
    }

    /// The square root. That of a subnormal number is taken of the number
    /// times `2^108`, which is a normal number and exact, and then
    /// multiplied by `2^-54`.
    pub open spec fn spec_sqrt(self) -> Scalar {
        if self.is_subnormal() {
            Scalar {
                bits: ieee_sqrt(
                    Scalar::spec_from_fraction(self.sign(), self.magnitude() as nat, 966).bits,
                ),
            }.spec_mul(Scalar { bits: ROOT_RESCALE_BITS })
        } else {
            Scalar { bits: ieee_sqrt(self.bits) }
        }
    }

    /// `x (x^2)^2`, each product rounded.
    pub open spec fn spec_fifth_power(self) -> Scalar {
        self.spec_mul(self.spec_mul(self).spec_mul(self.spec_mul(self)))
    }

    pub open spec fn spec_sin(self) -> Scalar {
        Scalar { bits: ieee_sin(self.bits) }
    }

    pub open spec fn spec_cos(self) -> Scalar {
        Scalar { bits: ieee_cos(self.bits) }
    }

    /// The sine over the cosine.
    pub open spec fn spec_tan(self) -> Scalar {
        self.spec_sin().spec_div(self.spec_cos())
    }

    /// Degrees as radians: the number times pi over 180.
    pub open spec fn spec_to_radians(self) -> Scalar {
        self.spec_mul(Scalar { bits: RADIANS_PER_DEGREE_BITS })
    }

    pub open spec fn spec_two() -> Scalar {
        Scalar { bits: TWO_BITS }
    }

    pub open spec fn spec_half() -> Scalar {
        Scalar { bits: HALF_BITS }
    }

    /// The lesser of the two; where one is a NaN, the other.
    pub open spec fn spec_min(self, other: Scalar) -> Scalar {
        if self.spec_is_nan() {
            other
        } else if other.spec_is_nan() {
            self
        } else if other.spec_lt(self) {
            other
        } else {
            self
        }
    }

    pub open spec fn spec_zero() -> Scalar {
        Scalar { bits: 0 }
    }

    pub open spec fn spec_one() -> Scalar {
        Scalar { bits: ONE_BITS }
    }

    pub open spec fn spec_infinity() -> Scalar {
        Scalar { bits: INFINITY_BITS }
    }

    pub open spec fn spec_neg_infinity() -> Scalar {
        Scalar { bits: 0xfff0_0000_0000_0000 }
    }

    pub fn from_bits(bits: u64) -> (r: Scalar)
        ensures
            r.bits == bits,
    {
        Scalar { bits }
    }

    pub fn to_bits(self) -> (r: u64)
        ensures
            r == self.bits,
    {
        self.bits
    }

    #[verifier::when_used_as_spec(spec_zero)]
    pub fn zero() -> (r: Scalar)
        ensures
            r == Scalar::spec_zero(),
    {
        Scalar { bits: 0 }
    }

    #[verifier::when_used_as_spec(spec_one)]
    pub fn one() -> (r: Scalar)
        ensures
            r == Scalar::spec_one(),
    {
        Scalar { bits: ONE_BITS }
    }

    #[verifier::when_used_as_spec(spec_two)]
    pub fn two() -> (r: Scalar)
        ensures
            r == Scalar::spec_two(),
    {
        Scalar { bits: TWO_BITS }
    }

    #[verifier::when_used_as_spec(spec_half)]
    pub fn half() -> (r: Scalar)
        ensures
            r == Scalar::spec_half(),
    {
        Scalar { bits: HALF_BITS }
    }

    #[verifier::when_used_as_spec(spec_infinity)]
    pub fn infinity() -> (r: Scalar)
        ensures
            r == Scalar::spec_infinity(),
    {
        Scalar { bits: INFINITY_BITS }
    }

    #[verifier::when_used_as_spec(spec_neg_infinity)]
    pub fn neg_infinity() -> (r: Scalar)
        ensures
            r == Scalar::spec_neg_infinity(),
    {
        Scalar { bits: 0xfff0_0000_0000_0000 }
    }

    #[verifier::when_used_as_spec(spec_is_nan)]
    pub fn is_nan(self) -> (r: bool)
        ensures
            r == self.spec_is_nan(),
    {
        proof {
            lemma_sign_and_magnitude(self.bits);
        }
        self.bits & MAGNITUDE_MASK > INFINITY_BITS
    }

    #[verifier::when_used_as_spec(spec_lt)]
    pub fn lt(self, other: Scalar) -> (r: bool)
        ensures
            r == self.spec_lt(other),
    {
        if self.is_nan() || other.is_nan() {
            return false;
        }
        proof {
            lemma_sign_and_magnitude(self.bits);
            lemma_sign_and_magnitude(other.bits);
        }
        let a: u64 = self.bits & MAGNITUDE_MASK;
        let b: u64 = other.bits & MAGNITUDE_MASK;
        let a_neg: bool = self.bits & SIGN_BIT != 0;
        let b_neg: bool = other.bits & SIGN_BIT != 0;
        if a_neg {
            if b_neg {
                b < a
            } else {
                a > 0 || b > 0
            }
        } else {
            if b_neg {
                false
            } else {
                a < b
            }
        }
    }

    #[verifier::when_used_as_spec(spec_le)]
    pub fn le(self, other: Scalar) -> (r: bool)
        ensures
            r == self.spec_le(other),
    {
        if self.is_nan() || other.is_nan() {
            return false;
        }
        proof {
            lemma_sign_and_magnitude(self.bits);
            lemma_sign_and_magnitude(other.bits);
        }
        let a: u64 = self.bits & MAGNITUDE_MASK;
        let b: u64 = other.bits & MAGNITUDE_MASK;
        let a_neg: bool = self.bits & SIGN_BIT != 0;
        let b_neg: bool = other.bits & SIGN_BIT != 0;
        if a_neg {
            if b_neg {
                b <= a
            } else {
                true
            }
        } else {
            if b_neg {
                a == 0 && b == 0
            } else {
                a <= b
            }
        }
    }

    #[verifier::when_used_as_spec(spec_gt)]
    pub fn gt(self, other: Scalar) -> (r: bool)
        ensures
            r == self.spec_gt(other),
    {
        other.lt(self)
    }

    #[verifier::when_used_as_spec(spec_ge)]
    pub fn ge(self, other: Scalar) -> (r: bool)
        ensures
            r == self.spec_ge(other),
    {
        other.le(self)
    }

    #[verifier::when_used_as_spec(spec_neg)]
    pub fn neg(self) -> (r: Scalar)
        ensures
            r == self.spec_neg(),
    {
        proof {
            lemma_sign_and_magnitude(self.bits);
        }
        Scalar { bits: self.bits ^ SIGN_BIT }
    }

    #[verifier::when_used_as_spec(spec_abs)]
    pub fn abs(self) -> (r: Scalar)
        ensures
            r == self.spec_abs(),
    {
        proof {
            lemma_sign_and_magnitude(self.bits);
        }
        Scalar { bits: self.bits & MAGNITUDE_MASK }
    }

    #[verifier::when_used_as_spec(spec_min)]
    pub fn min(self, other: Scalar) -> (r: Scalar)
        ensures
            r == self.spec_min(other),
    {
        if self.is_nan() {
            other
        } else if other.is_nan() {
            self
        } else if other.lt(self) {
            other
        } else {
            self
        }
    }

    #[verifier::when_used_as_spec(spec_add)]
    pub fn add(self, other: Scalar) -> (r: Scalar)
        ensures
            r == self.spec_add(other),
    {
        Scalar { bits: add_bits(self.bits, other.bits) }
    }

    #[verifier::when_used_as_spec(spec_sub)]
    pub fn sub(self, other: Scalar) -> (r: Scalar)
        ensures
            r == self.spec_sub(other),
    {
        self.add(other.neg())
    }

    #[verifier::when_used_as_spec(spec_mul)]
    pub fn mul(self, other: Scalar) -> (r: Scalar)
        ensures
            r == self.spec_mul(other),
    {
        Scalar { bits: mul_bits(self.bits, other.bits) }
    }

    #[verifier::when_used_as_spec(spec_div)]
    pub fn div(self, other: Scalar) -> (r: Scalar)
        ensures
            r == self.spec_div(other),
    {
        Scalar { bits: div_bits(self.bits, other.bits) }
    }

    #[verifier::when_used_as_spec(spec_sin)]
    pub fn sin(self) -> (r: Scalar)
        ensures
            r == self.spec_sin(),
    {
        Scalar { bits: sin_bits(self.bits) }
    }

    #[verifier::when_used_as_spec(spec_cos)]
    pub fn cos(self) -> (r: Scalar)
        ensures
            r == self.spec_cos(),
    {
        Scalar { bits: cos_bits(self.bits) }
    }

    #[verifier::when_used_as_spec(spec_tan)]
    pub fn tan(self) -> (r: Scalar)
        ensures
            r == self.spec_tan(),
    {
        self.sin().div(self.cos())
    }

    #[verifier::when_used_as_spec(spec_to_radians)]
    pub fn to_radians(self) -> (r: Scalar)
        ensures
            r == self.spec_to_radians(),
    {
        self.mul(Scalar { bits: RADIANS_PER_DEGREE_BITS })
    }

    #[verifier::when_used_as_spec(spec_fifth_power)]
    pub fn fifth_power(self) -> (r: Scalar)
        ensures
            r == self.spec_fifth_power(),
    {
        let square = self.mul(self);
        self.mul(square.mul(square))
    }

    #[verifier::when_used_as_spec(spec_sqrt)]
    pub fn sqrt(self) -> (r: Scalar)
        ensures
            r == self.spec_sqrt(),
    {
        let mag: u64 = self.bits & MAGNITUDE_MASK;
        proof {
            lemma_sign_and_magnitude(self.bits);
        }
        if mag != 0 && mag < 0x10_0000_0000_0000 {
            let scaled = Scalar::from_fraction(self.bits & SIGN_BIT != 0, mag, 966);
            Scalar { bits: sqrt_bits(scaled.bits) }.mul(Scalar { bits: ROOT_RESCALE_BITS })
        } else {
            Scalar { bits: sqrt_bits(self.bits) }
        }
    }
}

/// The sign is the highest bit of the pattern and the magnitude the rest;
/// negation turns the sign bit over.
pub proof fn lemma_sign_and_magnitude(bits: u64)
    ensures
        (Scalar { bits }).sign() == (bits & SIGN_BIT != 0),
        (Scalar { bits }).magnitude() == bits & MAGNITUDE_MASK,
        (Scalar { bits }).spec_neg().bits == bits ^ SIGN_BIT,
        (Scalar { bits }).spec_abs().bits == bits & MAGNITUDE_MASK,
{
    assert((bits >= 0x8000_0000_0000_0000 <==> bits & 0x8000_0000_0000_0000 != 0) && (bits
        >= 0x8000_0000_0000_0000 ==> bits & 0x7fff_ffff_ffff_ffff == bits - 0x8000_0000_0000_0000
        && bits ^ 0x8000_0000_0000_0000 == bits - 0x8000_0000_0000_0000) && (bits
        < 0x8000_0000_0000_0000 ==> bits & 0x7fff_ffff_ffff_ffff == bits && bits
        ^ 0x8000_0000_0000_0000 == bits + 0x8000_0000_0000_0000)) by (bit_vector);
}

/// `==` is numeric equality: a NaN equals nothing, not even itself, and
/// the two zeros equal each other.
impl PartialEq for Scalar {
    fn eq(&self, other: &Scalar) -> (r: bool) {
        self.le(*other) && other.le(*self)
    }
}

impl vstd::std_specs::cmp::PartialEqSpecImpl for Scalar {
    open spec fn obeys_eq_spec() -> bool {
        true
    }

    open spec fn eq_spec(&self, other: &Scalar) -> bool {
        self.same(*other)
    }
}

} // verus!
