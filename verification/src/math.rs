//! Three-component vectors and rays.
//!
//! A [`Vec3`] serves as a point, a direction or a linear colour. Its
//! arithmetic is that of [`Fixed`], component by component.

use core::ops::Neg;
use vstd::prelude::*;
use crate::fixed::Fixed;
use crate::fixed::SCALE;
use crate::random::uniform;

verus! {

/// A vector of three fixed-point components.
#[derive(Clone, Copy, Debug, PartialEq, Eq, Structural)]
pub struct Vec3 {
    pub x: Fixed,
    pub y: Fixed,
    pub z: Fixed,
}

/// A point in space.
pub type Point = Vec3;

/// Raw bound under which a component counts as zero: `1e-8`.
pub const NEAR_ZERO_RAW: i64 = 10;

/// Candidates that `rand_in_unit_sphere` draws before it gives up and
/// returns the centre of the sphere.
pub const REJECTION_CAP: u32 = 64;

impl Vec3 {
    /// What [`Self::zero`] returns.
    pub open spec fn zero_spec() -> Vec3 {
        Vec3 { x: Fixed::zero(), y: Fixed::zero(), z: Fixed::zero() }
    }

    /// The vector with all components zero.
    #[verifier::when_used_as_spec(zero_spec)]
    pub fn zero() -> (v: Vec3)
        ensures
            v == Vec3::zero_spec(),
    {
        Vec3 { x: Fixed::zero(), y: Fixed::zero(), z: Fixed::zero() }
    }

    /// Component-wise sum.
    pub open spec fn plus(self, rhs: Vec3) -> Vec3 {
        Vec3 { x: self.x.plus(rhs.x), y: self.y.plus(rhs.y), z: self.z.plus(rhs.z) }
    }

    /// Component-wise difference.
    pub open spec fn minus(self, rhs: Vec3) -> Vec3 {
        Vec3 { x: self.x.minus(rhs.x), y: self.y.minus(rhs.y), z: self.z.minus(rhs.z) }
    }

    /// Component-wise negation.
    pub open spec fn negated(self) -> Vec3 {
        Vec3 { x: self.x.negated(), y: self.y.negated(), z: self.z.negated() }
    }

    /// Component-wise product.
    pub open spec fn times(self, rhs: Vec3) -> Vec3 {
        Vec3 { x: self.x.times(rhs.x), y: self.y.times(rhs.y), z: self.z.times(rhs.z) }
    }

    /// Every component multiplied by `k`.
    pub open spec fn scaled(self, k: Fixed) -> Vec3 {
        Vec3 { x: self.x.times(k), y: self.y.times(k), z: self.z.times(k) }
    }

    /// Every component raised by `k`.
    pub open spec fn raised(self, k: Fixed) -> Vec3 {
        Vec3 { x: self.x.plus(k), y: self.y.plus(k), z: self.z.plus(k) }
    }

    /// Every component taken from `k`.
    pub open spec fn taken_from(self, k: Fixed) -> Vec3 {
        Vec3 { x: k.minus(self.x), y: k.minus(self.y), z: k.minus(self.z) }
    }

    /// Every component divided by `k`.
    pub open spec fn divided(self, k: Fixed) -> Vec3 {
        Vec3 { x: self.x.over(k), y: self.y.over(k), z: self.z.over(k) }
    }

    /// The vector with the given components.
    pub fn new(x: Fixed, y: Fixed, z: Fixed) -> (v: Vec3)
        ensures
            v == (Vec3 { x, y, z }),
    {
        Vec3 { x, y, z }
    }

    /// The first component.
    pub fn x(&self) -> (r: Fixed)
        ensures
            r == self.x,
    {
        self.x
    }

    /// The second component.
    pub fn y(&self) -> (r: Fixed)
        ensures
            r == self.y,
    {
        self.y
    }

    /// The third component.
    pub fn z(&self) -> (r: Fixed)
        ensures
            r == self.z,
    {
        self.z
    }

    /// What [`Self::length_squared`] returns.
    pub open spec fn length_squared_spec(&self) -> Fixed {
        self.x.times(self.x).plus(self.y.times(self.y)).plus(self.z.times(self.z))
    }

    /// The squared Euclidean length.
    #[verifier::when_used_as_spec(length_squared_spec)]
    pub fn length_squared(&self) -> (r: Fixed)
        ensures
            r == self.length_squared_spec(),
    {
        self.x * self.x + self.y * self.y + self.z * self.z
    }

    /// What [`Self::length`] returns.
    pub open spec fn length_spec(&self) -> Fixed {
        self.length_squared_spec().sqrt_spec()
    }

    /// The Euclidean length.
    #[verifier::when_used_as_spec(length_spec)]
    pub fn length(&self) -> (r: Fixed)
        ensures
            r == self.length_spec(),
    {
        self.length_squared().sqrt()
    }

    /// What [`Self::dot`] returns.
    pub open spec fn dot_spec(&self, v: &Vec3) -> Fixed {
        self.x.times(v.x).plus(self.y.times(v.y)).plus(self.z.times(v.z))
    }

    /// The dot product.
    #[verifier::when_used_as_spec(dot_spec)]
    pub fn dot(&self, v: &Vec3) -> (r: Fixed)
        ensures
            r == self.dot_spec(v),
    {
        self.x * v.x + self.y * v.y + self.z * v.z
    }

    /// Whether no component is the one raw value that has no negation.
    pub open spec fn negatable(&self) -> bool {
        &&& self.x.raw > i64::MIN
        &&& self.y.raw > i64::MIN
        &&& self.z.raw > i64::MIN
    }

    /// Negating a vector negates its dot products.
    pub proof fn lemma_dot_negated(&self, v: &Vec3)
        requires
            v.negatable(),
        ensures
            self.dot_spec(&v.negated()) == self.dot_spec(v).negated(),
    {
        Fixed::lemma_times_negated(self.x, v.x);
        Fixed::lemma_times_negated(self.y, v.y);
        Fixed::lemma_times_negated(self.z, v.z);
    }

    /// What [`Self::cross`] returns.
    pub open spec fn cross_spec(&self, v: &Vec3) -> Vec3 {
        Vec3 {
            x: self.y.times(v.z).minus(self.z.times(v.y)),
            y: self.z.times(v.x).minus(self.x.times(v.z)),
            z: self.x.times(v.y).minus(self.y.times(v.x)),
        }
    }

    /// The cross product.
    #[verifier::when_used_as_spec(cross_spec)]
    pub fn cross(&self, v: &Vec3) -> (r: Vec3)
        ensures
            r == self.cross_spec(v),
    {
        Vec3 {
            x: self.y * v.z - self.z * v.y,
            y: self.z * v.x - self.x * v.z,
            z: self.x * v.y - self.y * v.x,
        }
    }

    /// What [`Self::normalized`] returns.
    pub open spec fn normalized_spec(&self) -> Vec3 {
        if self.length_spec().raw == 0 {
            Vec3::zero()
        } else {
            self.divided(self.length_spec())
        }
    }

    /// The vector divided by its length. A vector whose length rounds to
    /// zero has no direction: it normalizes to the zero vector.
    #[verifier::when_used_as_spec(normalized_spec)]
    pub fn normalized(&self) -> (r: Vec3)
        ensures
            r == self.normalized_spec(),
    {
        let len = self.length();
        if len.raw == 0 {
            Vec3::zero()
        } else {
            *self / len
        }
    }

    /// What [`Self::near_zero`] returns.
    pub open spec fn near_zero_spec(&self) -> bool {
        &&& self.x.abs_spec().raw < NEAR_ZERO_RAW
        &&& self.y.abs_spec().raw < NEAR_ZERO_RAW
        &&& self.z.abs_spec().raw < NEAR_ZERO_RAW
    }

    /// Whether every component is smaller than `1e-8` in magnitude.
    #[verifier::when_used_as_spec(near_zero_spec)]
    pub fn near_zero(&self) -> (r: bool)
        ensures
            r == self.near_zero_spec(),
    {
        self.x.abs().raw < NEAR_ZERO_RAW && self.y.abs().raw < NEAR_ZERO_RAW && self.z.abs().raw
            < NEAR_ZERO_RAW
    }

    /// Whether every component lies in `[min, max)`.
    pub open spec fn within(&self, min: Fixed, max: Fixed) -> bool {
        &&& min.raw <= self.x.raw < max.raw
        &&& min.raw <= self.y.raw < max.raw
        &&& min.raw <= self.z.raw < max.raw
    }

    /// Whether every component is a channel of a finished pixel: within
    /// `[0, 0.999]`.
    pub open spec fn within_channels(&self) -> bool {
        &&& 0 <= self.x.raw <= 999_000_000
        &&& 0 <= self.y.raw <= 999_000_000
        &&& 0 <= self.z.raw <= 999_000_000
    }

    /// Whether the point lies strictly inside the unit sphere.
    pub open spec fn in_unit_sphere_spec(&self) -> bool {
        self.length_squared_spec().raw < SCALE
    }

    /// Whether the point lies strictly inside the unit sphere.
    #[verifier::when_used_as_spec(in_unit_sphere_spec)]
    pub fn in_unit_sphere(&self) -> (r: bool)
        ensures
            r == self.in_unit_sphere_spec(),
    {
        self.length_squared().raw < SCALE
    }

    /// A vector with each component drawn uniformly from `[0, 1)`.
    pub fn rand_vec() -> (v: Vec3)
        ensures
            v.within(Fixed::zero(), Fixed::one()),
    {
        Vec3::rand_range_vec(Fixed::zero(), Fixed::one())
    }

    /// A vector with each component drawn uniformly from `[min, max)`.
    pub fn rand_range_vec(min: Fixed, max: Fixed) -> (v: Vec3)
        requires
            min.raw < max.raw,
        ensures
            v.within(min, max),
    {
        let mut rnd = rand::thread_rng();
        let x = uniform(&mut rnd, min, max);
        let y = uniform(&mut rnd, min, max);
        let z = uniform(&mut rnd, min, max);
        Vec3 { x, y, z }
    }

    /// A point strictly inside the unit sphere, by rejection: candidates are
    /// drawn from the cube `[-1, 1)^3` until one lies inside. After
    /// `REJECTION_CAP` rejections the centre is returned, so the loop ends
    /// whatever the generator does.
    pub fn rand_in_unit_sphere() -> (p: Vec3)
        ensures
            p.in_unit_sphere_spec(),
            p.within(Fixed::one().negated(), Fixed::one()),
            exists|candidates: Seq<Vec3>| Vec3::is_rejection_sample(candidates, p),
    {
        let mut tries: u32 = 0;
        let ghost mut rejected: Seq<Vec3> = Seq::empty();
        while tries < REJECTION_CAP
            invariant
                tries <= REJECTION_CAP,
                rejected.len() == tries,
                forall|k: int|
                    0 <= k < rejected.len() ==> (#[trigger] rejected[k]).within(
                        Fixed::one().negated(),
                        Fixed::one(),
                    ) && !rejected[k].in_unit_sphere_spec(),
            decreases REJECTION_CAP - tries,
        {
            let p = Vec3::rand_range_vec(Fixed::one().neg(), Fixed::one());
            if p.in_unit_sphere() {
                proof {
                    assert(Vec3::is_rejection_sample(rejected.push(p), p));
                }
                return p;
            }
            proof {
                rejected = rejected.push(p);
            }
            tries = tries + 1;
        }
        proof {
            assert(Vec3::is_rejection_sample(rejected, Vec3::zero()));
        }
        Vec3::zero()
    }

    /// Whether `p` is what rejection gives for the candidates in the order
    /// in which they were drawn: every candidate lies in the cube
    /// `[-1, 1)^3`, every one but the last was rejected for lying outside the
    /// unit sphere, and either the last lies inside and is `p`, or
    /// `REJECTION_CAP` candidates were all rejected and `p` is the centre.
    pub open spec fn is_rejection_sample(candidates: Seq<Vec3>, p: Vec3) -> bool {
        &&& candidates.len() <= REJECTION_CAP
        &&& forall|k: int|
            0 <= k < candidates.len() ==> (#[trigger] candidates[k]).within(
                Fixed::one().negated(),
                Fixed::one(),
            )
        &&& forall|k: int|
            0 <= k < candidates.len() - 1 ==> !(#[trigger] candidates[k]).in_unit_sphere_spec()
        &&& if candidates.len() > 0 && candidates.last().in_unit_sphere_spec() {
            p == candidates.last()
        } else {
            candidates.len() == REJECTION_CAP && p == Vec3::zero()
        }
    }

    /// What [`Self::reflect`] returns.
    pub open spec fn reflect_spec(&self, v: &Vec3) -> Vec3 {
        self.minus(v.scaled(Fixed::from_int_spec(2).times(self.dot_spec(v))))
    }

    /// The mirror image of `self` about the plane with normal `v`:
    /// `self - 2 (self . v) v`.
    #[verifier::when_used_as_spec(reflect_spec)]
    pub fn reflect(&self, v: &Vec3) -> (r: Vec3)
        ensures
            r == self.reflect_spec(v),
    {
        *self - Fixed::from_int(2) * self.dot(v) * *v
    }

    /// What [`Self::refract`] returns.
    pub open spec fn refract_spec(&self, n: &Vec3, amount: Fixed) -> Vec3 {
        let ct = self.negated().dot_spec(n).min_spec(Fixed::one());
        let r_perp = self.plus(n.scaled(ct)).scaled(amount);
        let r_parallel = n.scaled(
            Fixed::one().minus(r_perp.length_squared_spec()).abs_spec().sqrt_spec().negated(),
        );
        r_perp.plus(r_parallel)
    }

    /// The direction of `self` after it crosses a surface with normal `n`
    /// and ratio of refractive indices `amount`, by Snell's law. The part
    /// along the normal is `-sqrt(|1 - |r_perp|^2|) n`: the absolute value
    /// hides total internal reflection, which the caller rules out first.
    #[verifier::when_used_as_spec(refract_spec)]
    pub fn refract(&self, n: &Vec3, amount: Fixed) -> (r: Vec3)
        ensures
            r == self.refract_spec(n, amount),
    {
        let ct = self.neg().dot(n).min(Fixed::one());
        let r_perp = amount * (*self + ct * *n);
        let r_parallel = (Fixed::one() - r_perp.length_squared()).abs().sqrt().neg() * *n;
        r_perp + r_parallel
    }
}

impl core::ops::Neg for Vec3 {
    type Output = Vec3;

    fn neg(self) -> (r: Vec3) {
        Vec3 { x: self.x.neg(), y: self.y.neg(), z: self.z.neg() }
    }
}

impl vstd::std_specs::ops::NegSpecImpl for Vec3 {
    open spec fn obeys_neg_spec() -> bool {
        true
    }

    open spec fn neg_req(self) -> bool {
        true
    }

    open spec fn neg_spec(self) -> Vec3 {
        self.negated()
    }
}

impl core::ops::Add for Vec3 {
    type Output = Vec3;

    fn add(self, rhs: Vec3) -> (r: Vec3) {
        Vec3 { x: self.x + rhs.x, y: self.y + rhs.y, z: self.z + rhs.z }
    }
}

impl vstd::std_specs::ops::AddSpecImpl for Vec3 {
    open spec fn obeys_add_spec() -> bool {
        true
    }

    open spec fn add_req(self, rhs: Vec3) -> bool {
        true
    }

    open spec fn add_spec(self, rhs: Vec3) -> Vec3 {
        self.plus(rhs)
    }
}

impl core::ops::Add<Fixed> for Vec3 {
    type Output = Vec3;

    fn add(self, rhs: Fixed) -> (r: Vec3) {
        Vec3 { x: self.x + rhs, y: self.y + rhs, z: self.z + rhs }
    }
}

impl vstd::std_specs::ops::AddSpecImpl<Fixed> for Vec3 {
    open spec fn obeys_add_spec() -> bool {
        true
    }

    open spec fn add_req(self, rhs: Fixed) -> bool {
        true
    }

    open spec fn add_spec(self, rhs: Fixed) -> Vec3 {
        self.raised(rhs)
    }
}

impl core::ops::Sub<Vec3> for Fixed {
    type Output = Vec3;

    fn sub(self, rhs: Vec3) -> (r: Vec3) {
        Vec3 { x: self - rhs.x, y: self - rhs.y, z: self - rhs.z }
    }
}

impl vstd::std_specs::ops::SubSpecImpl<Vec3> for Fixed {
    open spec fn obeys_sub_spec() -> bool {
        true
    }

    open spec fn sub_req(self, rhs: Vec3) -> bool {
        true
    }

    open spec fn sub_spec(self, rhs: Vec3) -> Vec3 {
        rhs.taken_from(self)
    }
}

impl core::ops::Sub for Vec3 {
    type Output = Vec3;

    fn sub(self, rhs: Vec3) -> (r: Vec3) {
        Vec3 { x: self.x - rhs.x, y: self.y - rhs.y, z: self.z - rhs.z }
    }
}

impl vstd::std_specs::ops::SubSpecImpl for Vec3 {
    open spec fn obeys_sub_spec() -> bool {
        true
    }

    open spec fn sub_req(self, rhs: Vec3) -> bool {
        true
    }

    open spec fn sub_spec(self, rhs: Vec3) -> Vec3 {
        self.minus(rhs)
    }
}

impl core::ops::Mul for Vec3 {
    type Output = Vec3;

    fn mul(self, rhs: Vec3) -> (r: Vec3) {
        Vec3 { x: self.x * rhs.x, y: self.y * rhs.y, z: self.z * rhs.z }
    }
}

impl vstd::std_specs::ops::MulSpecImpl for Vec3 {
    open spec fn obeys_mul_spec() -> bool {
        true
    }

    open spec fn mul_req(self, rhs: Vec3) -> bool {
        true
    }

    open spec fn mul_spec(self, rhs: Vec3) -> Vec3 {
        self.times(rhs)
    }
}

impl core::ops::Mul<Fixed> for Vec3 {
    type Output = Vec3;

    fn mul(self, rhs: Fixed) -> (r: Vec3) {
        Vec3 { x: self.x * rhs, y: self.y * rhs, z: self.z * rhs }
    }
}

impl vstd::std_specs::ops::MulSpecImpl<Fixed> for Vec3 {
    open spec fn obeys_mul_spec() -> bool {
        true
    }

    open spec fn mul_req(self, rhs: Fixed) -> bool {
        true
    }

    open spec fn mul_spec(self, rhs: Fixed) -> Vec3 {
        self.scaled(rhs)
    }
}

impl core::ops::Mul<Vec3> for Fixed {
    type Output = Vec3;

    fn mul(self, rhs: Vec3) -> (r: Vec3) {
        Vec3 { x: rhs.x * self, y: rhs.y * self, z: rhs.z * self }
    }
}

impl vstd::std_specs::ops::MulSpecImpl<Vec3> for Fixed {
    open spec fn obeys_mul_spec() -> bool {
        true
    }

    open spec fn mul_req(self, rhs: Vec3) -> bool {
        true
    }

    open spec fn mul_spec(self, rhs: Vec3) -> Vec3 {
        rhs.scaled(self)
    }
}

impl core::ops::Div<Fixed> for Vec3 {
    type Output = Vec3;

    fn div(self, rhs: Fixed) -> (r: Vec3) {
        Vec3 { x: self.x / rhs, y: self.y / rhs, z: self.z / rhs }
    }
}

impl vstd::std_specs::ops::DivSpecImpl<Fixed> for Vec3 {
    open spec fn obeys_div_spec() -> bool {
        true
    }

    open spec fn div_req(self, rhs: Fixed) -> bool {
        true
    }

    open spec fn div_spec(self, rhs: Fixed) -> Vec3 {
        self.divided(rhs)
    }
}

/// A half-line: the points `origin + t direction` for `t >= 0`. The
/// direction need not have unit length.
#[derive(Clone, Copy, Debug, PartialEq, Eq, Structural)]
pub struct Ray {
    pub origin: Vec3,
    pub direction: Vec3,
}

impl Ray {
    /// The ray from `o` along `dir`.
    pub fn new(o: Vec3, dir: Vec3) -> (r: Ray)
        ensures
            r == (Ray { origin: o, direction: dir }),
    {
        Ray { origin: o, direction: dir }
    }

    /// What [`Self::at`] returns.
    pub open spec fn at_spec(&self, t: Fixed) -> Vec3 {
        self.origin.plus(self.direction.scaled(t))
    }

    /// The point of the ray at parameter `t`.
    #[verifier::when_used_as_spec(at_spec)]
    pub fn at(&self, t: Fixed) -> (p: Vec3)
        ensures
            p == self.at_spec(t),
    {
        self.origin + self.direction * t
    }
}

} // verus!
