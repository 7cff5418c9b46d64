//! Vectors of three numbers: directions, points in space and colours.

use vstd::prelude::*;
use crate::interval::Interval;
use crate::random::{random_f64, random_f64_between};
use crate::scalar::{Scalar, ONE_BITS};
use crate::text::{decimal, push_decimal};

verus! {

/// The pattern of `1e-8`, below which the magnitude of a component counts
/// as vanishing.
pub const NEAR_ZERO_BITS: u64 = 0x3e45_798e_e230_8c3a;

/// The pattern of `-1.0`.
pub const MINUS_ONE_BITS: u64 = 0xbff0_0000_0000_0000;

/// How many candidates a rejection sampler draws before it gives up and
/// returns the zero vector. Each candidate is accepted with a chance above
/// one half, so the bound is never met in practice; it makes the loops finite.
pub const SAMPLING_BUDGET: u64 = 0xffff_ffff_ffff_ffff;

/// The pattern of `255.0`.
pub const BYTE_SCALE_BITS: u64 = 0x406f_e000_0000_0000;

/// Three numbers.
#[derive(Clone, Copy, Debug)]
pub struct Vec3 {
    pub x: Scalar,
    pub y: Scalar,
    pub z: Scalar,
}

pub type Point = Vec3;

pub type Color = Vec3;

impl Vec3 {
    pub open spec fn spec_zero() -> Vec3 {
        Vec3 { x: Scalar::zero(), y: Scalar::zero(), z: Scalar::zero() }
    }

    pub open spec fn spec_black() -> Vec3 {
        Vec3::spec_zero()
    }

    pub open spec fn spec_white() -> Vec3 {
        Vec3 { x: Scalar::one(), y: Scalar::one(), z: Scalar::one() }
    }

    /// Numeric equality of each component.
    pub open spec fn same(self, other: Vec3) -> bool {
        self.x.same(other.x) && self.y.same(other.y) && self.z.same(other.z)
    }

    /// `x * rhs.x + y * rhs.y + z * rhs.z`, summed from the left.
    pub open spec fn spec_dot(self, rhs: Vec3) -> Scalar {
        self.x.mul(rhs.x).add(self.y.mul(rhs.y)).add(self.z.mul(rhs.z))
    }

    pub open spec fn spec_length_squared(&self) -> Scalar {
        self.spec_dot(*self)
    }

    pub open spec fn spec_length(&self) -> Scalar {
        self.spec_length_squared().sqrt()
    }

    pub open spec fn spec_cross(self, rhs: Vec3) -> Vec3 {
        Vec3 {
            x: self.y.mul(rhs.z).sub(self.z.mul(rhs.y)),
            y: self.z.mul(rhs.x).sub(self.x.mul(rhs.z)),
            z: self.x.mul(rhs.y).sub(self.y.mul(rhs.x)),
        }
    }

    pub open spec fn spec_neg(self) -> Vec3 {
        Vec3 { x: self.x.neg(), y: self.y.neg(), z: self.z.neg() }
    }

    pub open spec fn spec_add(self, rhs: Vec3) -> Vec3 {
        Vec3 { x: self.x.add(rhs.x), y: self.y.add(rhs.y), z: self.z.add(rhs.z) }
    }

    pub open spec fn spec_sub(self, rhs: Vec3) -> Vec3 {
        Vec3 { x: self.x.sub(rhs.x), y: self.y.sub(rhs.y), z: self.z.sub(rhs.z) }
    }

    /// The product component by component.
    pub open spec fn spec_mul(self, rhs: Vec3) -> Vec3 {
        Vec3 { x: self.x.mul(rhs.x), y: self.y.mul(rhs.y), z: self.z.mul(rhs.z) }
    }

    /// `t` times each component.
    pub open spec fn spec_scale(self, t: Scalar) -> Vec3 {
        Vec3 { x: t.mul(self.x), y: t.mul(self.y), z: t.mul(self.z) }
    }

    /// Each component times the reciprocal of `t`.
    pub open spec fn spec_div(self, t: Scalar) -> Vec3 {
        Vec3 {
            x: self.x.mul(Scalar::one().div(t)),
            y: self.y.mul(Scalar::one().div(t)),
            z: self.z.mul(Scalar::one().div(t)),
        }
    }

    /// Each component times `t`.
    pub open spec fn spec_times(self, t: Scalar) -> Vec3 {
        Vec3 { x: self.x.mul(t), y: self.y.mul(t), z: self.z.mul(t) }
    }

    pub open spec fn spec_normalized(self) -> Vec3 {
        self.spec_div(self.spec_length())
    }

    /// Whether the vector all but vanishes: every component has a
    /// magnitude below `1e-8`.
    pub open spec fn spec_near_zero(self) -> bool {
        &&& self.x.abs().lt(Scalar { bits: NEAR_ZERO_BITS })
        &&& self.y.abs().lt(Scalar { bits: NEAR_ZERO_BITS })
        &&& self.z.abs().lt(Scalar { bits: NEAR_ZERO_BITS })
    }

    /// `v - 2 (v . n) n`.
    pub open spec fn spec_reflect(self, n: Vec3) -> Vec3 {
        self.spec_sub(n.spec_scale(Scalar::two().mul(self.spec_dot(n))))
    }

    /// The part of the refracted direction across the normal:
    /// `eta (v + min(-(v . n), 1) n)`.
    pub open spec fn spec_refract_perp(self, n: Vec3, etai_over_etat: Scalar) -> Vec3 {
        self.spec_add(n.spec_scale(self.spec_dot(n).neg().min(Scalar::one()))).spec_scale(
            etai_over_etat,
        )
    }

    /// Snell's law for a unit direction `v` meeting a surface of unit normal
    /// `n`: the part across the normal, plus `-sqrt(|1 - |perp|^2|) n` along it.
    pub open spec fn spec_refract(self, n: Vec3, etai_over_etat: Scalar) -> Vec3 {
        let perp = self.spec_refract_perp(n, etai_over_etat);
        perp.spec_add(
            n.spec_scale(Scalar::one().sub(perp.spec_length_squared()).abs().sqrt().neg()),
        )
    }

    #[verifier::when_used_as_spec(spec_zero)]
    pub fn zero() -> (r: Vec3)
        ensures
            r == Vec3::spec_zero(),
    {
        Self::new(Scalar::zero(), Scalar::zero(), Scalar::zero())
    }

    /// The colour of no light.
    #[verifier::when_used_as_spec(spec_black)]
    pub fn black() -> (r: Color)
        ensures
            r == Vec3::spec_black(),
    {
        Self::new(Scalar::zero(), Scalar::zero(), Scalar::zero())
    }

    /// The colour of full light.
    #[verifier::when_used_as_spec(spec_white)]
    pub fn white() -> (r: Color)
        ensures
            r == Vec3::spec_white(),
    {
        Self::new(Scalar::one(), Scalar::one(), Scalar::one())
    }

    pub fn new(x: Scalar, y: Scalar, z: Scalar) -> (r: Vec3)
        ensures
            r == (Vec3 { x, y, z }),
    {
        Vec3 { x, y, z }
    }

    pub fn x(&self) -> (r: Scalar)
        ensures
            r == self.x,
    {
        self.x
    }

    pub fn y(&self) -> (r: Scalar)
        ensures
            r == self.y,
    {
        self.y
    }

    pub fn z(&self) -> (r: Scalar)
        ensures
            r == self.z,
    {
        self.z
    }

    #[verifier::when_used_as_spec(spec_length_squared)]
    pub fn length_squared(&self) -> (r: Scalar)
        ensures
            r == self.spec_length_squared(),
    {
        self.dot(*self)
    }

    #[verifier::when_used_as_spec(spec_length)]
    pub fn length(&self) -> (r: Scalar)
        ensures
            r == self.spec_length(),
    {
        self.length_squared().sqrt()
    }

    #[verifier::when_used_as_spec(spec_dot)]
    pub fn dot(self, rhs: Vec3) -> (r: Scalar)
        ensures
            r == self.spec_dot(rhs),
    {
        self.x.mul(rhs.x).add(self.y.mul(rhs.y)).add(self.z.mul(rhs.z))
    }

    #[verifier::when_used_as_spec(spec_cross)]
    pub fn cross(self, rhs: Vec3) -> (r: Vec3)
        ensures
            r == self.spec_cross(rhs),
    {
        Vec3 {
            x: self.y.mul(rhs.z).sub(self.z.mul(rhs.y)),
            y: self.z.mul(rhs.x).sub(self.x.mul(rhs.z)),
            z: self.x.mul(rhs.y).sub(self.y.mul(rhs.x)),
        }
    }

    /// The vector over its length. Where the length is zero the components
    /// are NaN or infinite.
    #[verifier::when_used_as_spec(spec_normalized)]
    pub fn normalized(self) -> (r: Vec3)
        ensures
            r == self.spec_normalized(),
    {
        self.div(self.length())
    }

    #[verifier::when_used_as_spec(spec_near_zero)]
    pub fn near_zero(self) -> (r: bool)
        ensures
            r == self.spec_near_zero(),
    {
        let s = Scalar { bits: NEAR_ZERO_BITS };
        self.x.abs().lt(s) && self.y.abs().lt(s) && self.z.abs().lt(s)
    }

    /// The mirror image of the direction at a surface of unit normal `n`.
    #[verifier::when_used_as_spec(spec_reflect)]
    pub fn reflect(self, n: Vec3) -> (r: Vec3)
        ensures
            r == self.spec_reflect(n),
    {
        self.sub(n.scale(Scalar::two().mul(self.dot(n))))
    }

    #[verifier::when_used_as_spec(spec_refract)]
    pub fn refract(self, n: Vec3, etai_over_etat: Scalar) -> (r: Vec3)
        ensures
            r == self.spec_refract(n, etai_over_etat),
    {
        let cos_theta = self.dot(n).neg().min(Scalar::one());
        let r_out_perp = self.add(n.scale(cos_theta)).scale(etai_over_etat);
        let r_out_parallel = n.scale(
            Scalar::one().sub(r_out_perp.length_squared()).abs().sqrt().neg(),
        );
        r_out_perp.add(r_out_parallel)
    }

    #[verifier::when_used_as_spec(spec_neg)]
    pub fn neg(self) -> (r: Vec3)
        ensures
            r == self.spec_neg(),
    {
        Self::new(self.x.neg(), self.y.neg(), self.z.neg())
    }

    #[verifier::when_used_as_spec(spec_add)]
    pub fn add(self, rhs: Vec3) -> (r: Vec3)
        ensures
            r == self.spec_add(rhs),
    {
        Self::new(self.x.add(rhs.x), self.y.add(rhs.y), self.z.add(rhs.z))
    }

    #[verifier::when_used_as_spec(spec_sub)]
    pub fn sub(self, rhs: Vec3) -> (r: Vec3)
        ensures
            r == self.spec_sub(rhs),
    {
        Self::new(self.x.sub(rhs.x), self.y.sub(rhs.y), self.z.sub(rhs.z))
    }

    #[verifier::when_used_as_spec(spec_mul)]
    pub fn mul(self, rhs: Vec3) -> (r: Vec3)
        ensures
            r == self.spec_mul(rhs),
    {
        Vec3 { x: self.x.mul(rhs.x), y: self.y.mul(rhs.y), z: self.z.mul(rhs.z) }
    }

    #[verifier::when_used_as_spec(spec_scale)]
    pub fn scale(self, t: Scalar) -> (r: Vec3)
        ensures
            r == self.spec_scale(t),
    {
        Vec3 { x: t.mul(self.x), y: t.mul(self.y), z: t.mul(self.z) }
    }

    #[verifier::when_used_as_spec(spec_div)]
    pub fn div(self, t: Scalar) -> (r: Vec3)
        ensures
            r == self.spec_div(t),
    {
        Vec3 {
            x: self.x.mul(Scalar::one().div(t)),
            y: self.y.mul(Scalar::one().div(t)),
            z: self.z.mul(Scalar::one().div(t)),
        }
    }

    pub fn add_assign(&mut self, rhs: Vec3)
        ensures
            *final(self) == old(self).spec_add(rhs),
    {
        self.x = self.x.add(rhs.x);
        self.y = self.y.add(rhs.y);
        self.z = self.z.add(rhs.z);
    }

    pub fn sub_assign(&mut self, rhs: Vec3)
        ensures
            *final(self) == old(self).spec_sub(rhs),
    {
        self.x = self.x.sub(rhs.x);
        self.y = self.y.sub(rhs.y);
        self.z = self.z.sub(rhs.z);
    }

    pub fn mul_assign(&mut self, t: Scalar)
        ensures
            *final(self) == old(self).spec_times(t),
    {
        self.x = self.x.mul(t);
        self.y = self.y.mul(t);
        self.z = self.z.mul(t);
    }

    pub fn div_assign(&mut self, t: Scalar)
        ensures
            *final(self) == old(self).spec_div(t),
    {
        self.x = self.x.mul(Scalar::one().div(t));
        self.y = self.y.mul(Scalar::one().div(t));
        self.z = self.z.mul(Scalar::one().div(t));
    }
}

impl Vec3 {
    /// What a draw from the unit cube is: three unit draws.
    pub open spec fn is_unit_cube_draw(self) -> bool {
        self.x.is_unit_draw() && self.y.is_unit_draw() && self.z.is_unit_draw()
    }

    /// What a draw from the cube between two bounds is: three draws between them.
    pub open spec fn is_draw_between(self, min: Scalar, max: Scalar) -> bool {
        &&& self.x.is_draw_between(min, max)
        &&& self.y.is_draw_between(min, max)
        &&& self.z.is_draw_between(min, max)
    }

    /// Whether the vector lies in the unit ball: its squared length is below one.
    pub open spec fn spec_in_unit_ball(self) -> bool {
        self.length_squared().lt(Scalar { bits: ONE_BITS })
    }

    /// What a candidate for the unit ball is: a draw from the cube from -1 to 1.
    pub open spec fn is_ball_candidate(self) -> bool {
        self.is_draw_between(Scalar { bits: MINUS_ONE_BITS }, Scalar { bits: ONE_BITS })
    }

    /// Whether the vector may come out of the sampler of the unit ball after
    /// it has turned down the candidates `rejected`, each of them outside
    /// the ball: a candidate inside the ball, or, once [`SAMPLING_BUDGET`]
    /// candidates were turned down, the zero vector.
    pub open spec fn is_ball_draw_after(self, rejected: Seq<Vec3>) -> bool {
        &&& forall|i: int|
            0 <= i < rejected.len() ==> (#[trigger] rejected[i]).is_ball_candidate()
                && !rejected[i].spec_in_unit_ball()
        &&& if rejected.len() < SAMPLING_BUDGET {
            self.is_ball_candidate() && self.spec_in_unit_ball()
        } else {
            rejected.len() == SAMPLING_BUDGET && self == Vec3::zero()
        }
    }

    /// What a draw from the unit ball is: the first candidate inside the
    /// ball after some candidates outside it.
    pub open spec fn is_ball_draw(self) -> bool {
        exists|rejected: Seq<Vec3>| #[trigger] self.is_ball_draw_after(rejected)
    }

    /// What a random direction is: a draw from the unit ball over its length.
    pub open spec fn is_direction_draw(self) -> bool {
        exists|p: Vec3| p.is_ball_draw() && self == #[trigger] p.spec_normalized()
    }

    /// The vector itself where it points to the side of `normal`, else its negative.
    pub open spec fn spec_toward(self, normal: Vec3) -> Vec3 {
        if self.dot(normal).gt(Scalar::zero()) {
            self
        } else {
            self.neg()
        }
    }

    /// What a draw from the hemisphere about `normal` is: a random direction
    /// turned to the side of `normal`.
    pub open spec fn is_hemisphere_draw(self, normal: Vec3) -> bool {
        exists|v: Vec3| v.is_direction_draw() && self == #[trigger] v.spec_toward(normal)
    }

    /// Whether the vector lies in the unit disk: its length is below one.
    pub open spec fn spec_in_unit_disk(self) -> bool {
        self.length().lt(Scalar { bits: ONE_BITS })
    }

    /// What a candidate for the unit disk is: two draws between -1 and 1 and a zero.
    pub open spec fn is_disk_candidate(self) -> bool {
        &&& self.x.is_draw_between(Scalar { bits: MINUS_ONE_BITS }, Scalar { bits: ONE_BITS })
        &&& self.y.is_draw_between(Scalar { bits: MINUS_ONE_BITS }, Scalar { bits: ONE_BITS })
        &&& self.z == Scalar::zero()
    }

    /// Whether the vector may come out of the sampler of the unit disk after
    /// it has turned down the candidates `rejected`, each of them outside
    /// the disk: a candidate inside the disk, or, once [`SAMPLING_BUDGET`]
    /// candidates were turned down, the zero vector.
    pub open spec fn is_disk_draw_after(self, rejected: Seq<Vec3>) -> bool {
        &&& forall|i: int|
            0 <= i < rejected.len() ==> (#[trigger] rejected[i]).is_disk_candidate()
                && !rejected[i].spec_in_unit_disk()
        &&& if rejected.len() < SAMPLING_BUDGET {
            self.is_disk_candidate() && self.spec_in_unit_disk()
        } else {
            rejected.len() == SAMPLING_BUDGET && self == Vec3::zero()
        }
    }

    /// What a draw from the unit disk is: the first candidate inside the
    /// disk after some candidates outside it.
    pub open spec fn is_disk_draw(self) -> bool {
        exists|rejected: Seq<Vec3>| #[trigger] self.is_disk_draw_after(rejected)
    }

    #[verifier::when_used_as_spec(spec_in_unit_ball)]
    pub fn in_unit_ball(self) -> (r: bool)
        ensures
            r == self.spec_in_unit_ball(),
    {
        self.length_squared().lt(Scalar { bits: ONE_BITS })
    }

    #[verifier::when_used_as_spec(spec_in_unit_disk)]
    pub fn in_unit_disk(self) -> (r: bool)
        ensures
            r == self.spec_in_unit_disk(),
    {
        self.length().lt(Scalar { bits: ONE_BITS })
    }

    /// A draw from the unit cube.
    pub fn random() -> (r: Vec3)
        ensures
            r.is_unit_cube_draw(),
    {
        let x = random_f64();
        let y = random_f64();
        let z = random_f64();
        Vec3 { x, y, z }
    }

    /// A draw from the cube between the two bounds.
    pub fn random_clamped(min: Scalar, max: Scalar) -> (r: Vec3)
        ensures
            r.is_draw_between(min, max),
    {
        let x = random_f64_between(min, max);
        let y = random_f64_between(min, max);
        let z = random_f64_between(min, max);
        Vec3 { x, y, z }
    }

    /// A draw from the unit ball, by rejection: the first candidate from the
    /// cube from -1 to 1 whose squared length is below one. Only after
    /// [`SAMPLING_BUDGET`] candidates outside the ball is the zero vector returned.
    pub fn random_in_unit_sphere() -> (r: Vec3)
        ensures
            r.is_ball_draw(),
    {
        let mut tries: u64 = SAMPLING_BUDGET;
        let ghost mut rejected: Seq<Vec3> = Seq::empty();
        while tries > 0
            invariant
                rejected.len() == SAMPLING_BUDGET - tries,
                forall|i: int|
                    0 <= i < rejected.len() ==> (#[trigger] rejected[i]).is_ball_candidate()
                        && !rejected[i].spec_in_unit_ball(),
            decreases tries,
        {
            let p = Self::random_clamped(Scalar { bits: MINUS_ONE_BITS }, Scalar { bits: ONE_BITS });
            if p.in_unit_ball() {
                assert(p.is_ball_draw_after(rejected));
                return p;
            }
            proof {
                rejected = rejected.push(p);
            }
            tries = tries - 1;
        }
        assert(Vec3::zero().is_ball_draw_after(rejected));
        Vec3::zero()
    }

    /// A random direction: a draw from the unit ball over its length.
    pub fn random_unit_vector() -> (r: Vec3)
        ensures
            r.is_direction_draw(),
    {
        Self::random_in_unit_sphere().normalized()
    }

    #[verifier::when_used_as_spec(spec_toward)]
    pub fn toward(self, normal: Vec3) -> (r: Vec3)
        ensures
            r == self.spec_toward(normal),
    {
        if self.dot(normal).gt(Scalar::zero()) {
            self
        } else {
            self.neg()
        }
    }

    /// A random direction on the side of `normal`.
    pub fn random_on_hemisphere(normal: Vec3) -> (r: Vec3)
        ensures
            r.is_hemisphere_draw(normal),
    {
        let on_unit_sphere = Self::random_unit_vector();
        on_unit_sphere.toward(normal)
    }

    /// A draw from the unit disk in the plane `z = 0`, by rejection: the
    /// first candidate from the square from -1 to 1 whose length is below
    /// one. Only after [`SAMPLING_BUDGET`] candidates outside the disk is the
    /// zero vector returned.
    pub fn random_in_unit_disk() -> (r: Vec3)
        ensures
            r.is_disk_draw(),
    {
        let mut tries: u64 = SAMPLING_BUDGET;
        let ghost mut rejected: Seq<Vec3> = Seq::empty();
        while tries > 0
            invariant
                rejected.len() == SAMPLING_BUDGET - tries,
                forall|i: int|
                    0 <= i < rejected.len() ==> (#[trigger] rejected[i]).is_disk_candidate()
                        && !rejected[i].spec_in_unit_disk(),
            decreases tries,
        {
            let p = Self::new(
                random_f64_between(Scalar { bits: MINUS_ONE_BITS }, Scalar { bits: ONE_BITS }),
                random_f64_between(Scalar { bits: MINUS_ONE_BITS }, Scalar { bits: ONE_BITS }),
                Scalar::zero(),
            );
            if p.in_unit_disk() {
                assert(p.is_disk_draw_after(rejected));
                return p;
            }
            proof {
                rejected = rejected.push(p);
            }
            tries = tries - 1;
        }
        assert(Vec3::zero().is_disk_draw_after(rejected));
        Vec3::zero()
    }
}

/// The square root of a positive intensity, and zero for any other: the
/// correction for a display of gamma 2.
pub open spec fn spec_linear_to_gamma(linear_component: Scalar) -> Scalar {
    if linear_component.gt(Scalar::zero()) {
        linear_component.sqrt()
    } else {
        Scalar::zero()
    }
}

#[verifier::when_used_as_spec(spec_linear_to_gamma)]
pub fn linear_to_gamma(linear_component: Scalar) -> (r: Scalar)
    ensures
        r == spec_linear_to_gamma(linear_component),
{
    if linear_component.gt(Scalar::zero()) {
        linear_component.sqrt()
    } else {
        Scalar::zero()
    }
}

/// The level from 0 to 255 at which a linear intensity is displayed: the
/// intensity corrected for gamma, held between 0 and 0.999, times 255,
/// without its fraction.
pub open spec fn spec_channel_level(linear_component: Scalar) -> i32 {
    Scalar { bits: BYTE_SCALE_BITS }.mul(
        Interval::intensity().clamp(spec_linear_to_gamma(linear_component)),
    ).to_i32()
}

#[verifier::when_used_as_spec(spec_channel_level)]
pub fn channel_level(linear_component: Scalar) -> (r: i32)
    ensures
        r == spec_channel_level(linear_component),
{
    Scalar { bits: BYTE_SCALE_BITS }.mul(
        Interval::intensity().clamp(linear_to_gamma(linear_component)),
    ).to_i32()
}

impl Vec3 {
    /// The line of a colour in a plain-text image: its three levels in
    /// decimal, a space between them and a line feed after them.
    pub open spec fn spec_format(self) -> Seq<char> {
        decimal(spec_channel_level(self.x) as int) + seq![' '] + decimal(
            spec_channel_level(self.y) as int,
        ) + seq![' '] + decimal(spec_channel_level(self.z) as int) + seq!['\n']
    }

    /// Appends the line of the colour.
    pub fn push_format(self, out: &mut String)
        ensures
            final(out)@ == old(out)@ + self.spec_format(),
    {
        push_decimal(out, channel_level(self.x));
        out.push(' ');
        push_decimal(out, channel_level(self.y));
        out.push(' ');
        push_decimal(out, channel_level(self.z));
        out.push('\n');
        assert(final(out)@ =~= old(out)@ + self.spec_format());
    }

    /// The line of the colour in a plain-text image.
    pub fn format(self) -> (r: String)
        ensures
            r@ == self.spec_format(),
    {
        let mut out = String::new();
        self.push_format(&mut out);
        assert(out@ =~= self.spec_format());
        out
    }

    /// The levels of red, green and blue at which the colour is displayed.
    pub fn to_rgb(&self) -> (r: [i32; 3])
        ensures
            r[0] == spec_channel_level(self.x),
            r[1] == spec_channel_level(self.y),
            r[2] == spec_channel_level(self.z),
    {
        let rbyte = channel_level(self.x);
        let gbyte = channel_level(self.y);
        let bbyte = channel_level(self.z);
        [rbyte, gbyte, bbyte]
    }
}

/// `==` is numeric equality of each component.
impl PartialEq for Vec3 {
    fn eq(&self, other: &Vec3) -> (r: bool) {
        self.x == other.x && self.y == other.y && self.z == other.z
    }
}

impl vstd::std_specs::cmp::PartialEqSpecImpl for Vec3 {
    open spec fn obeys_eq_spec() -> bool {
        true
    }

    open spec fn eq_spec(&self, other: &Vec3) -> bool {
        self.same(*other)
    }
}

} // verus!
