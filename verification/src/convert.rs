//! Exact conversions between integers and binary64 numbers, decided on the
//! bits: what quantity a pattern stands for, the pattern of a given dyadic
//! fraction, and truncation to an integer.

use vstd::prelude::*;
use vstd::arithmetic::power2::{
    lemma2_to64,
    lemma2_to64_rest,
    lemma_pow2_pos,
    lemma_pow2_strictly_increases,
    lemma_pow2_adds,
    lemma_pow2_unfold,
    pow2,
};
use vstd::arithmetic::div_mod::{
    lemma_basic_div,
    lemma_div_by_multiple,
    lemma_div_is_ordered,
    lemma_div_is_ordered_by_denominator,
    lemma_div_multiples_vanish_quotient,
};
use vstd::arithmetic::mul::lemma_mul_inequality;
use vstd::bits::lemma_u64_shr_is_div;
use crate::scalar::{
    lemma_sign_and_magnitude,
    Scalar,
    INFINITY_BITS,
    MAGNITUDE_MASK,
    ONE_BITS,
    SIGN_BIT,
};

verus! {

/// The fifty-two fraction bits.
pub const FRACTION_MASK: u64 = 0x000f_ffff_ffff_ffff;

/// The bit that a normal number's significand has above its fraction.
pub const HIDDEN_BIT: u64 = 0x0010_0000_0000_0000;

impl Scalar {
    /// The exponent field, from 0 to 2047.
    pub open spec fn exponent(self) -> nat {
        (self.magnitude() / HIDDEN_BIT) as nat
    }

    /// The fraction field.
    pub open spec fn fraction(self) -> nat {
        (self.magnitude() % HIDDEN_BIT) as nat
    }

    /// Neither a NaN nor an infinity.
    pub open spec fn is_finite(self) -> bool {
        self.magnitude() < INFINITY_BITS
    }

    /// The integer whose multiple by a power of two the magnitude is: the
    /// magnitude of a finite number is `significand() * 2^(scale() - 1075)`.
    pub open spec fn significand(self) -> nat {
        if self.exponent() == 0 {
            self.fraction()
        } else {
            (HIDDEN_BIT + self.fraction()) as nat
        }
    }

    /// See [`Scalar::significand`].
    pub open spec fn scale(self) -> nat {
        if self.exponent() == 0 {
            1
        } else {
            self.exponent()
        }
    }

    /// Whether the number is finite and its magnitude is exactly `num / 2^k`.
    pub open spec fn magnitude_is(self, num: nat, k: nat) -> bool {
        self.is_finite() && self.significand() * pow2(self.scale() + k) == num * pow2(1075)
    }

    /// The number `num / 2^k`, negated where `negative` is set, where there
    /// is one (there is for every `num` below `2^53` and `k` up to 1022): see
    /// [`lemma_fraction_unique`].
    pub open spec fn spec_from_fraction(negative: bool, num: nat, k: nat) -> Scalar {
        choose|s: Scalar| s.magnitude_is(num, k) && s.sign() == negative
    }

    /// Whether the number is exactly the integer `n`, and a zero positive.
    pub open spec fn is_integer(self, n: int) -> bool {
        self.magnitude_is(if n < 0 { -n } else { n } as nat, 0) && self.sign() == (n < 0)
    }

    /// The number that equals the integer `n`, where there is one (there is
    /// for every `n` of magnitude up to `2^53`): see [`lemma_integer_unique`].
    pub open spec fn spec_from_int(n: int) -> Scalar {
        choose|s: Scalar| s.is_integer(n)
    }

    /// The rounded quotient of two integers. With a power of ten below, this
    /// is the number that the decimal numeral stands for.
    pub open spec fn spec_ratio(num: int, den: int) -> Scalar {
        Scalar::spec_from_int(num).div(Scalar::spec_from_int(den))
    }

    /// The whole part of the magnitude: the magnitude rounded down.
    pub open spec fn whole_magnitude(self) -> nat {
        if self.scale() >= 1075 {
            self.significand() * pow2((self.scale() - 1075) as nat)
        } else {
            self.significand() / pow2((1075 - self.scale()) as nat)
        }
    }

    /// The number rounded toward zero, held to the range of `i32`; 0 for a NaN.
    pub open spec fn spec_to_i32(self) -> i32 {
        if self.is_nan() {
            0
        } else if self.sign() {
            if self.whole_magnitude() >= 0x8000_0000 {
                i32::MIN
            } else {
                (-(self.whole_magnitude() as int)) as i32
            }
        } else {
            if self.whole_magnitude() >= 0x7fff_ffff {
                i32::MAX
            } else {
                self.whole_magnitude() as i32
            }
        }
    }

    /// At least zero and below one.
    pub open spec fn is_unit(self) -> bool {
        Scalar::zero().le(self) && self.lt(Scalar::one())
    }

    /// The number `num / 2^k`, negated where `negative` is set. Every such
    /// quotient with `num` below `2^53` is a binary64 number, so nothing is
    /// rounded.
    pub fn from_fraction(negative: bool, num: u64, k: u32) -> (r: Scalar)
        requires
            num < 0x20_0000_0000_0000,
            k <= 1022,
        ensures
            r.magnitude_is(num as nat, k as nat),
            r.sign() == negative,
            r == Scalar::spec_from_fraction(negative, num as nat, k as nat),
            num != 0 ==> r.exponent() + k >= 1023,
            r.exponent() + k <= 1075,
    {
        let sign: u64 = if negative { SIGN_BIT } else { 0 };
        if num == 0 {
            let r = Scalar { bits: sign };
            proof {
                lemma_fields(sign);
                assert(0u64 & MAGNITUDE_MASK == 0 && 0u64 & SIGN_BIT == 0 && (0u64 >> 52) & 0x7ff
                    == 0 && 0u64 & FRACTION_MASK == 0) by (bit_vector);
                assert(SIGN_BIT & MAGNITUDE_MASK == 0 && SIGN_BIT & SIGN_BIT != 0 && (SIGN_BIT
                    >> 52) & 0x7ff == 0 && SIGN_BIT & FRACTION_MASK == 0) by (bit_vector);
                assert(r.exponent() == 0 && r.fraction() == 0);
                assert(r.significand() * pow2(r.scale() + k as nat) == 0) by (nonlinear_arith)
                    requires
                        r.significand() == 0,
                ;
                assert(num * pow2(1075) == 0) by (nonlinear_arith)
                    requires
                        num == 0,
                ;
                lemma_fraction_unique(r, r, negative, num as nat, k as nat);
            }
            return r;
        }
        let mut sig: u64 = num;
        let mut e: u64 = 1075 - k as u64;
        proof {
            lemma2_to64();
            lemma2_to64_rest();
        }
        while sig < HIDDEN_BIT
            invariant
                0 < sig < 0x20_0000_0000_0000,
                k <= 1022,
                e + k <= 1075,
                e >= 1,
                pow2((1075 - k - e) as nat) <= sig,
                sig * pow2((e + k) as nat) == num * pow2(1075),
                pow2(52) == 0x10_0000_0000_0000,
            decreases e,
        {
            proof {
                if 1075 - k - e >= 52 {
                    if 1075 - k - e > 52 {
                        lemma_pow2_strictly_increases(52, (1075 - k - e) as nat);
                    }
                    assert(false);
                }
                lemma_pow2_unfold((e + k) as nat);
                lemma_pow2_unfold((1075 - k - e + 1) as nat);
                assert(2 * sig * pow2((e + k - 1) as nat) == sig * pow2((e + k) as nat))
                    by (nonlinear_arith)
                    requires
                        pow2((e + k) as nat) == 2 * pow2((e + k - 1) as nat),
                ;
            }
            sig = sig * 2;
            e = e - 1;
        }
        let f: u64 = sig - HIDDEN_BIT;
        let mag: u64 = (e << 52) | f;
        let bits: u64 = mag | sign;
        proof {
            lemma_fields(bits);
            if 1075 - k - e > 52 {
                lemma_pow2_strictly_increases(53, (1075 - k - e) as nat);
                assert(false);
            }
            assert(e <= 1075 && f < 0x10_0000_0000_0000 ==> {
                &&& ((e << 52) | f) & MAGNITUDE_MASK == ((e << 52) | f)
                &&& ((e << 52) | f) & SIGN_BIT == 0
                &&& ((e << 52) | f) < INFINITY_BITS
                &&& (((e << 52) | f) >> 52) & 0x7ff == e
                &&& ((e << 52) | f) & FRACTION_MASK == f
                &&& (((e << 52) | f) | SIGN_BIT) & MAGNITUDE_MASK == ((e << 52) | f)
                &&& (((e << 52) | f) | SIGN_BIT) & SIGN_BIT != 0
                &&& ((((e << 52) | f) | SIGN_BIT) >> 52) & 0x7ff == e
                &&& (((e << 52) | f) | SIGN_BIT) & FRACTION_MASK == f
                &&& ((e << 52) | f) | 0 == ((e << 52) | f)
            }) by (bit_vector);
        }
        let r = Scalar { bits };
        proof {
            lemma_fraction_unique(r, r, negative, num as nat, k as nat);
        }
        r
    }

    /// The number that equals `n`.
    pub fn from_u32(n: u32) -> (r: Scalar)
        ensures
            r.is_integer(n as int),
            r == Scalar::spec_from_int(n as int),
    {
        let r = Scalar::from_fraction(false, n as u64, 0);
        proof {
            lemma_integer_unique(r, Scalar::spec_from_int(n as int), n as int);
        }
        r
    }

    /// The number that equals `n`.
    pub fn from_i32(n: i32) -> (r: Scalar)
        ensures
            r.is_integer(n as int),
            r == Scalar::spec_from_int(n as int),
    {
        let r = if n < 0 {
            Scalar::from_fraction(true, (-(n as i64)) as u64, 0)
        } else {
            Scalar::from_fraction(false, n as u64, 0)
        };
        proof {
            lemma_integer_unique(r, Scalar::spec_from_int(n as int), n as int);
        }
        r
    }

    /// The rounded quotient of two integers.
    pub fn ratio(num: i32, den: i32) -> (r: Scalar)
        ensures
            r == Scalar::spec_ratio(num as int, den as int),
    {
        Scalar::from_i32(num).div(Scalar::from_i32(den))
    }

    /// The number rounded toward zero: the nearest end of the range of
    /// `i32` where it lies outside, and 0 where it is a NaN.
    #[verifier::when_used_as_spec(spec_to_i32)]
    pub fn to_i32(self) -> (r: i32)
        ensures
            r == self.spec_to_i32(),
    {
        let bits: u64 = self.bits;
        let mag: u64 = bits & MAGNITUDE_MASK;
        let negative: bool = bits & SIGN_BIT != 0;
        proof {
            lemma_fields(bits);
        }
        if mag > INFINITY_BITS {
            return 0;
        }
        let e: u64 = mag >> 52;
        let sig: u64 = (mag & FRACTION_MASK) | HIDDEN_BIT;
        proof {
            lemma_fields(bits);
            lemma2_to64();
            lemma2_to64_rest();
            assert((bits & MAGNITUDE_MASK) >> 52 == (bits >> 52) & 0x7ff && ((bits
                & MAGNITUDE_MASK) & FRACTION_MASK) | HIDDEN_BIT == HIDDEN_BIT + (bits
                & FRACTION_MASK) && (bits & FRACTION_MASK) < HIDDEN_BIT && (bits >> 52) & 0x7ff
                <= 2047) by (bit_vector);
        }
        if e < 1023 {
            proof {
                let d = (1075 - self.scale()) as nat;
                if d > 53 {
                    lemma_pow2_strictly_increases(53, d);
                }
                lemma_basic_div(self.significand() as int, pow2(d) as int);
            }
            return 0;
        }
        if e >= 1054 {
            proof {
                if e >= 1075 {
                    lemma_pow2_pos((e - 1075) as nat);
                    assert(self.whole_magnitude() >= sig) by (nonlinear_arith)
                        requires
                            self.whole_magnitude() == sig * pow2((e - 1075) as nat),
                            pow2((e - 1075) as nat) > 0,
                    ;
                } else {
                    let d = (1075 - e) as nat;
                    if d < 21 {
                        lemma_pow2_strictly_increases(d, 21);
                    }
                    lemma_pow2_pos(d);
                    lemma_div_is_ordered_by_denominator(sig as int, pow2(d) as int, 0x20_0000);
                    assert(sig as int / 0x20_0000 >= 0x8000_0000);
                }
            }
            return if negative { i32::MIN } else { i32::MAX };
        }
        let s: u64 = 1075 - e;
        let u: u64 = sig >> s;
        proof {
            lemma_u64_shr_is_div(sig, s);
            assert(sig < 0x20_0000_0000_0000 && 22 <= s <= 52 ==> (sig >> s) < 0x8000_0000)
                by (bit_vector);
        }
        if negative {
            -(u as i32)
        } else {
            u as i32
        }
    }
}

/// The exponent field is the eleven bits below the sign and the fraction
/// field the fifty-two bits below those.
pub proof fn lemma_fields(bits: u64)
    ensures
        (Scalar { bits }).sign() == (bits & SIGN_BIT != 0),
        (Scalar { bits }).magnitude() == bits & MAGNITUDE_MASK,
        (Scalar { bits }).exponent() == (bits >> 52) & 0x7ff,
        (Scalar { bits }).fraction() == bits & FRACTION_MASK,
{
    lemma_sign_and_magnitude(bits);
    assert((bits & 0x7fff_ffff_ffff_ffff) / 0x10_0000_0000_0000 == (bits >> 52) & 0x7ff && (bits
        & 0x7fff_ffff_ffff_ffff) % 0x10_0000_0000_0000 == bits & 0x000f_ffff_ffff_ffff)
        by (bit_vector);
}

/// Two significands of normal numbers that stand for one quantity at their
/// scales are the same, at the same scale.
proof fn lemma_same_scale(sa: nat, ea: nat, sb: nat, eb: nat)
    requires
        0x10_0000_0000_0000 <= sa < 0x20_0000_0000_0000,
        0x10_0000_0000_0000 <= sb < 0x20_0000_0000_0000,
        ea <= eb,
        sa * pow2(ea) == sb * pow2(eb),
    ensures
        ea == eb,
        sa == sb,
{
    let d = (eb - ea) as nat;
    lemma_pow2_adds(ea, d);
    lemma_pow2_pos(ea);
    lemma_pow2_pos(d);
    lemma2_to64();
    let p = pow2(ea);
    let q = pow2(d);
    assert(sa == sb * q) by (nonlinear_arith)
        requires
            sa * p == sb * (p * q),
            p > 0,
    ;
    if d > 0 {
        if d > 1 {
            lemma_pow2_strictly_increases(1, d);
        }
        assert(sb * q >= sb * 2) by (nonlinear_arith)
            requires
                q >= 2,
        ;
        assert(false);
    } else {
        assert(q == 1);
        assert(sb * q == sb) by (nonlinear_arith)
            requires
                q == 1,
        ;
    }
}

/// A pattern is its sign, its exponent field and its fraction field.
proof fn lemma_fields_determine(a: u64, b: u64)
    requires
        (a >> 52) & 0x7ff == (b >> 52) & 0x7ff,
        a & FRACTION_MASK == b & FRACTION_MASK,
        (a & SIGN_BIT != 0) == (b & SIGN_BIT != 0),
    ensures
        a == b,
{
    assert((a >> 52) & 0x7ff == (b >> 52) & 0x7ff && a & FRACTION_MASK == b & FRACTION_MASK && ((a
        & SIGN_BIT != 0) == (b & SIGN_BIT != 0)) ==> a == b) by (bit_vector);
}

/// At most one number equals a given integer.
pub proof fn lemma_integer_unique(a: Scalar, b: Scalar, n: int)
    requires
        a.is_integer(n),
    ensures
        Scalar::spec_from_int(n).is_integer(n),
        b.is_integer(n) ==> a == b,
        a == Scalar::spec_from_int(n),
{
    let m = (if n < 0 { -n } else { n }) as nat;
    let c = Scalar::spec_from_int(n);
    assert(c.is_integer(n));
    lemma_fraction_unique_pair(a, c, m, 0);
    if b.is_integer(n) {
        lemma_fraction_unique_pair(a, b, m, 0);
    }
}

/// At most one number of a given sign has the magnitude `m / 2^k`.
pub proof fn lemma_fraction_unique(a: Scalar, b: Scalar, negative: bool, m: nat, k: nat)
    requires
        k <= 1022,
        a.magnitude_is(m, k),
        a.sign() == negative,
    ensures
        b.magnitude_is(m, k) && b.sign() == negative ==> a == b,
        a == Scalar::spec_from_fraction(negative, m, k),
{
    let c = Scalar::spec_from_fraction(negative, m, k);
    assert(c.magnitude_is(m, k) && c.sign() == negative);
    lemma_fraction_unique_pair(a, c, m, k);
    if b.magnitude_is(m, k) && b.sign() == negative {
        lemma_fraction_unique_pair(a, b, m, k);
    }
}

proof fn lemma_fraction_unique_pair(a: Scalar, b: Scalar, m: nat, k: nat)
    requires
        k <= 1022,
        a.magnitude_is(m, k),
        b.magnitude_is(m, k),
        a.sign() == b.sign(),
    ensures
        a == b,
{
    lemma_fraction_is_normal(a, m, k);
    lemma_fraction_is_normal(b, m, k);
    lemma_fields(a.bits);
    lemma_fields(b.bits);
    if m != 0 {
        if a.scale() <= b.scale() {
            lemma_same_scale(a.significand(), a.scale() + k, b.significand(), b.scale() + k);
        } else {
            lemma_same_scale(b.significand(), b.scale() + k, a.significand(), a.scale() + k);
        }
    }
    lemma_fields_determine(a.bits, b.bits);
}

/// A number of the magnitude `m / 2^k` with `m` not zero is normal; one of
/// magnitude zero has no bit set but perhaps its sign.
proof fn lemma_fraction_is_normal(a: Scalar, m: nat, k: nat)
    requires
        k <= 1022,
        a.magnitude_is(m, k),
    ensures
        m == 0 ==> a.exponent() == 0 && a.fraction() == 0,
        m != 0 ==> a.exponent() >= 1 && 0x10_0000_0000_0000 <= a.significand()
            < 0x20_0000_0000_0000,
{
    let bits = a.bits;
    lemma_fields(bits);
    assert((bits & FRACTION_MASK) < HIDDEN_BIT) by (bit_vector);
    let s = a.significand();
    let p = pow2(a.scale() + k);
    lemma_pow2_pos(a.scale() + k);
    lemma_pow2_pos(1075);
    lemma2_to64();
    lemma2_to64_rest();
    if m == 0 {
        assert(m * pow2(1075) == 0) by (nonlinear_arith)
            requires
                m == 0,
        ;
        assert(s == 0) by (nonlinear_arith)
            requires
                s * p == 0,
                p > 0,
                s >= 0,
        ;
    } else if a.exponent() == 0 {
        assert(a.scale() == 1);
        lemma_pow2_adds(52, 1 + k);
        if 53 + k < 1075 {
            lemma_pow2_strictly_increases(53 + k, 1075);
        }
        assert(m * pow2(1075) >= pow2(1075)) by (nonlinear_arith)
            requires
                m >= 1,
                pow2(1075) > 0,
        ;
        assert(s < 0x10_0000_0000_0000);
        assert(s * p < 0x10_0000_0000_0000 * p) by (nonlinear_arith)
            requires
                s < 0x10_0000_0000_0000,
                p > 0,
        ;
        assert(pow2(52) * pow2(1 + k) == 0x10_0000_0000_0000 * p);
        assert(false);
    }
}

/// A number that is at least one has a whole part of at least one.
pub proof fn lemma_whole_part_of_one_or_more(s: Scalar)
    requires
        !s.is_nan(),
        !s.lt(Scalar::one()),
    ensures
        Scalar::one().le(s),
        !s.sign(),
        s.whole_magnitude() >= 1,
        s.to_i32() >= 1,
{
    let b = s.bits;
    lemma_fields(b);
    lemma_fields(ONE_BITS);
    assert(ONE_BITS & MAGNITUDE_MASK == ONE_BITS && ONE_BITS & SIGN_BIT == 0) by (bit_vector);
    assert((b & MAGNITUDE_MASK) >= ONE_BITS ==> (b >> 52) & 0x7ff >= 1023) by (bit_vector);
    assert((b & FRACTION_MASK) < HIDDEN_BIT) by (bit_vector);
    lemma2_to64();
    lemma2_to64_rest();
    let sig = s.significand();
    let e = s.scale();
    assert(sig >= 0x10_0000_0000_0000);
    if e >= 1075 {
        lemma_pow2_pos((e - 1075) as nat);
        assert(sig * pow2((e - 1075) as nat) >= sig) by (nonlinear_arith)
            requires
                pow2((e - 1075) as nat) >= 1,
        ;
    } else {
        let d = (1075 - e) as nat;
        if d < 52 {
            lemma_pow2_strictly_increases(d, 52);
        }
        lemma_pow2_pos(d);
        lemma_div_is_ordered_by_denominator(sig as int, pow2(d) as int, 0x10_0000_0000_0000);
        assert(sig as int / 0x10_0000_0000_0000 >= 1);
    }
}

/// The whole part of the magnitude is the significand times two to the
/// scale, over two to the 1075, rounded down.
pub proof fn lemma_whole_is_quotient(s: Scalar)
    ensures
        s.whole_magnitude() == (s.significand() * pow2(s.scale())) / pow2(1075),
{
    let sig = s.significand();
    let e = s.scale();
    lemma_pow2_pos(e);
    lemma_pow2_pos(1075);
    if e >= 1075 {
        let d = (e - 1075) as nat;
        lemma_pow2_adds(d, 1075);
        lemma_pow2_pos(d);
        assert(sig * pow2(e) == (sig * pow2(d)) * pow2(1075)) by (nonlinear_arith)
            requires
                pow2(e) == pow2(d) * pow2(1075),
        ;
        lemma_div_by_multiple((sig * pow2(d)) as int, pow2(1075) as int);
    } else {
        let d = (1075 - e) as nat;
        lemma_pow2_adds(e, d);
        lemma_pow2_pos(d);
        lemma_div_multiples_vanish_quotient(pow2(e) as int, sig as int, pow2(d) as int);
        assert(sig * pow2(e) == pow2(e) * sig) by (nonlinear_arith);
    }
}

/// Of two numbers that are not NaN, the one of the smaller magnitude has
/// the smaller whole part.
pub proof fn lemma_whole_monotone(a: Scalar, b: Scalar)
    requires
        a.magnitude() <= b.magnitude(),
    ensures
        a.whole_magnitude() <= b.whole_magnitude(),
{
    let x = a.bits;
    let y = b.bits;
    lemma_fields(x);
    lemma_fields(y);
    assert((x & MAGNITUDE_MASK) <= (y & MAGNITUDE_MASK) ==> ((x >> 52) & 0x7ff) <= ((y >> 52)
        & 0x7ff) && (((x >> 52) & 0x7ff) == ((y >> 52) & 0x7ff) ==> (x & FRACTION_MASK) <= (y
        & FRACTION_MASK))) by (bit_vector);
    assert((x & FRACTION_MASK) < HIDDEN_BIT) by (bit_vector);
    assert((y & FRACTION_MASK) < HIDDEN_BIT) by (bit_vector);
    let sa = a.significand();
    let sb = b.significand();
    let ea = a.scale();
    let eb = b.scale();
    lemma_pow2_pos(ea);
    lemma_pow2_pos(eb);
    lemma_pow2_pos(1075);
    if ea == eb {
        assert(sa <= sb);
        lemma_mul_inequality(sa as int, sb as int, pow2(ea) as int);
    } else {
        assert(ea < eb);
        assert(sb >= 0x10_0000_0000_0000);
        assert(sa < 0x20_0000_0000_0000);
        lemma_pow2_unfold(ea + 1);
        if ea + 1 < eb {
            lemma_pow2_strictly_increases(ea + 1, eb);
        }
        let p = pow2(ea);
        let q = pow2(eb);
        assert(sa * p <= sb * q) by (nonlinear_arith)
            requires
                sa < 0x20_0000_0000_0000,
                sb >= 0x10_0000_0000_0000,
                q >= 2 * p,
                p > 0,
        ;
    }
    lemma_div_is_ordered((sa * pow2(ea)) as int, (sb * pow2(eb)) as int, pow2(1075) as int);
    lemma_whole_is_quotient(a);
    lemma_whole_is_quotient(b);
}

/// Rounding toward zero keeps the order: of two numbers, the one that is
/// not above the other has the integer that is not above the other's.
pub proof fn lemma_to_i32_monotone(a: Scalar, b: Scalar)
    requires
        a.le(b),
    ensures
        a.to_i32() <= b.to_i32(),
{
    if a.sign() == b.sign() {
        if a.sign() {
            lemma_whole_monotone(b, a);
        } else {
            lemma_whole_monotone(a, b);
        }
    } else if b.sign() {
        assert(a.magnitude() == 0 && b.magnitude() == 0);
        lemma_whole_monotone(a, b);
        lemma_whole_monotone(b, a);
        let x = a.bits;
        lemma_fields(x);
        lemma_fields(b.bits);
        assert(x & MAGNITUDE_MASK == 0 ==> (x >> 52) & 0x7ff == 0 && x & FRACTION_MASK == 0)
            by (bit_vector);
        lemma_pow2_pos(1074);
        lemma_basic_div(0, pow2(1074) as int);
    }
}

/// A number at least zero and below one has a pattern below that of one.
pub proof fn lemma_unit_pattern(s: Scalar)
    ensures
        s.is_unit() <==> (s.bits < ONE_BITS || s.bits == SIGN_BIT),
{
    let b = s.bits;
    lemma_fields(b);
    lemma_fields(ONE_BITS);
    lemma_fields(0);
    assert((b < ONE_BITS ==> b & SIGN_BIT == 0 && b & MAGNITUDE_MASK == b) && (b & SIGN_BIT == 0
        ==> b & MAGNITUDE_MASK == b) && (b & SIGN_BIT != 0 ==> b >= SIGN_BIT) && (b & SIGN_BIT != 0
        && b & MAGNITUDE_MASK == 0 ==> b == SIGN_BIT) && SIGN_BIT & MAGNITUDE_MASK == 0 && SIGN_BIT
        & SIGN_BIT != 0 && ONE_BITS & MAGNITUDE_MASK == ONE_BITS && ONE_BITS & SIGN_BIT == 0 && 0u64
        & MAGNITUDE_MASK == 0 && 0u64 & SIGN_BIT == 0) by (bit_vector);
}

} // verus!
