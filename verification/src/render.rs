//! Light transport: the colour that arrives along a ray.

use vstd::prelude::*;
use crate::fixed::Fixed;
use crate::material::ScatterSample;
use crate::math::Ray;
use crate::math::Vec3;
use crate::object::closest_hit;
use crate::object::Hit;
use crate::object::Hittable;
use crate::object::HittableObjects;

verus! {

/// Raw value of the smallest ray parameter at which a hit counts, `1e-5`:
/// just above zero, so that a scattered ray does not hit the surface that it
/// leaves.
pub const T_MIN_RAW: i64 = 10_000;

/// What [`t_min`] returns.
pub open spec fn t_min_spec() -> Fixed {
    Fixed { raw: T_MIN_RAW }
}

/// The smallest ray parameter at which a hit counts.
#[verifier::when_used_as_spec(t_min_spec)]
pub fn t_min() -> (t: Fixed)
    ensures
        t == t_min_spec(),
{
    Fixed::from_raw(T_MIN_RAW)
}

/// What [`sky_blue`] returns.
pub open spec fn sky_blue_spec() -> Vec3 {
    Vec3 { x: Fixed { raw: 100_000_000 }, y: Fixed { raw: 300_000_000 }, z: Fixed::one() }
}

/// The blue of the sky, to which the background turns as a ray points up.
#[verifier::when_used_as_spec(sky_blue_spec)]
pub fn sky_blue() -> (c: Vec3)
    ensures
        c == sky_blue_spec(),
{
    Vec3::new(Fixed::from_raw(100_000_000), Fixed::from_raw(300_000_000), Fixed::one())
}

/// What [`white`] returns.
pub open spec fn white_spec() -> Vec3 {
    Vec3 { x: Fixed::one(), y: Fixed::one(), z: Fixed::one() }
}

/// The colour white, to which the background turns as a ray points down.
#[verifier::when_used_as_spec(white_spec)]
pub fn white() -> (c: Vec3)
    ensures
        c == white_spec(),
{
    Vec3::new(Fixed::one(), Fixed::one(), Fixed::one())
}

/// What [`background`] returns.
pub open spec fn background_spec(r: &Ray) -> Vec3 {
    let half = Fixed { raw: 500_000_000 };
    let t = r.direction.normalized_spec().y.plus(Fixed::one()).times(half);
    sky_blue_spec().scaled(t).plus(white_spec().scaled(Fixed::one().minus(t)))
}

/// The colour of the background along `r`: a blend of white and sky blue by
/// the height `t = (y + 1) / 2` of the ray's unit direction, white at
/// `t = 0` and sky blue at `t = 1`.
#[verifier::when_used_as_spec(background_spec)]
pub fn background(r: &Ray) -> (c: Vec3)
    ensures
        c == background_spec(r),
{
    let norm = r.direction.normalized();
    let t = (norm.y() + Fixed::one()) * Fixed::from_raw(500_000_000);
    t * sky_blue() + (Fixed::one() - t) * white()
}

/// The colour that arrives along `r` from the scene `objects`, where bounce
/// `k` of the path scatters by `samples[k]`. The path has at most as many
/// bounces as there are samples: with none left the colour is black. A ray
/// that hits nothing brings the background; one that is absorbed, or that
/// hits a surface without a material, brings black; one that scatters brings
/// the colour along the scattered ray, times the attenuation.
pub open spec fn radiance<T: Hittable>(
    objects: Seq<T>,
    r: &Ray,
    samples: Seq<ScatterSample>,
) -> Vec3
    decreases samples.len(),
{
    if samples.len() == 0 {
        Vec3::zero()
    } else {
        match closest_hit(objects, r, t_min_spec(), Fixed::infinity()) {
            None => background_spec(r),
            Some(hit) => match hit.material {
                None => Vec3::zero(),
                Some(m) => if m.scatters(r, &hit, &samples[0]) {
                    m.attenuation().times(
                        radiance(objects, &m.scattered(r, &hit, &samples[0]), samples.drop_first()),
                    )
                } else {
                    Vec3::zero()
                },
            },
        }
    }
}

/// The colour along `r` for the samples from `samples[first]` on.
fn trace_from<T: Hittable>(
    r: &Ray,
    objects: &HittableObjects<T>,
    samples: &Vec<ScatterSample>,
    first: usize,
) -> (c: Vec3)
    requires
        first <= samples.len(),
    ensures
        c == radiance(objects@, r, samples@.skip(first as int)),
    decreases samples.len() - first,
{
    if first >= samples.len() {
        return Vec3::zero();
    }
    proof {
        assert(samples@.skip(first as int).drop_first() == samples@.skip(first + 1));
    }
    let mut hit = Hit::new();
    if objects.hit(r, t_min(), Fixed::infinity(), &mut hit) {
        match hit.material {
            None => Vec3::zero(),
            Some(material) => {
                let mut scattered = Ray::new(Vec3::zero(), Vec3::zero());
                let mut attenuation = Vec3::zero();
                if material.scatter_with(r, &hit, &samples[first], &mut attenuation, &mut scattered) {
                    attenuation * trace_from(&scattered, objects, samples, first + 1)
                } else {
                    Vec3::zero()
                }
            },
        }
    } else {
        background(r)
    }
}

/// The colour that arrives along `r` from the scene, where bounce `k` of the
/// path scatters by `samples[k]`; the number of samples bounds the bounces.
pub fn ray_color_with<T: Hittable>(
    r: &Ray,
    objects: &HittableObjects<T>,
    samples: &Vec<ScatterSample>,
) -> (c: Vec3)
    ensures
        c == radiance(objects@, r, samples@),
{
    proof {
        assert(samples@.skip(0) == samples@);
    }
    trace_from(r, objects, samples, 0)
}

/// Whether every sample of the sequence is one that a draw can give.
pub open spec fn all_valid(samples: Seq<ScatterSample>) -> bool {
    forall|k: int| 0 <= k < samples.len() ==> (#[trigger] samples[k]).valid()
}

/// Whether `c` is the colour along `r` for some `depth` valid samples.
pub open spec fn is_radiance<T: Hittable>(objects: Seq<T>, r: &Ray, depth: int, c: Vec3) -> bool {
    exists|samples: Seq<ScatterSample>|
        samples.len() == (if depth > 0 { depth } else { 0 }) && all_valid(samples)
            && c == #[trigger] radiance(objects, r, samples)
}

/// A sample that every draw can give.
pub open spec fn still_sample() -> ScatterSample {
    ScatterSample { in_sphere: Vec3::zero(), chance: Fixed::zero() }
}

/// A valid sample before valid samples makes a sequence of valid samples.
proof fn lemma_prepend_valid(first: ScatterSample, rest: Seq<ScatterSample>)
    requires
        first.valid(),
        all_valid(rest),
    ensures
        all_valid(seq![first] + rest),
        (seq![first] + rest).len() == rest.len() + 1,
        (seq![first] + rest)[0] == first,
        (seq![first] + rest).drop_first() == rest,
{
}

/// Any number of still samples are valid samples.
proof fn lemma_still_valid(n: nat)
    ensures
        still_sample().valid(),
        all_valid(Seq::new(n, |k: int| still_sample())),
{
}

/// The colour that arrives along `r` from the scene over a path of at most
/// `depth` bounces, each scattered by a sample drawn on the way.
pub fn ray_color<T: Hittable>(r: &Ray, objects: &HittableObjects<T>, depth: i32) -> (c: Vec3)
    ensures
        is_radiance(objects@, r, depth as int, c),
    decreases depth,
{
    if depth <= 0 {
        proof {
            assert(radiance(objects@, r, Seq::<ScatterSample>::empty()) == Vec3::zero());
        }
        return Vec3::zero();
    }
    let ghost rest = Seq::new((depth - 1) as nat, |k: int| still_sample());
    proof {
        lemma_still_valid((depth - 1) as nat);
    }
    let mut hit = Hit::new();
    if objects.hit(r, t_min(), Fixed::infinity(), &mut hit) {
        match hit.material {
            None => {
                proof {
                    let samples = seq![still_sample()] + rest;
                    lemma_prepend_valid(still_sample(), rest);
                    assert(radiance(objects@, r, samples) == Vec3::zero());
                }
                Vec3::zero()
            },
            Some(material) => {
                let mut scattered = Ray::new(Vec3::zero(), Vec3::zero());
                let mut attenuation = Vec3::zero();
                let scatters = material.scatter(r, &hit, &mut attenuation, &mut scattered);
                let ghost sample = choose|sample: ScatterSample|
                    sample.valid() && scattered == #[trigger] material.scattered(r, &hit, &sample)
                        && scatters == material.scatters(r, &hit, &sample);
                if scatters {
                    let incoming = ray_color(&scattered, objects, depth - 1);
                    proof {
                        let tail = choose|samples: Seq<ScatterSample>|
                            samples.len() == depth - 1 && all_valid(samples) && incoming
                                == #[trigger] radiance(objects@, &scattered, samples);
                        let samples = seq![sample] + tail;
                        lemma_prepend_valid(sample, tail);
                        assert(radiance(objects@, r, samples) == attenuation.times(incoming));
                    }
                    attenuation * incoming
                } else {
                    proof {
                        let samples = seq![sample] + rest;
                        lemma_prepend_valid(sample, rest);
                        assert(radiance(objects@, r, samples) == Vec3::zero());
                    }
                    Vec3::zero()
                }
            },
        }
    } else {
        proof {
            let samples = seq![still_sample()] + rest;
            lemma_prepend_valid(still_sample(), rest);
            assert(radiance(objects@, r, samples) == background_spec(r));
        }
        background(r)
    }
}

} // verus!
