//! Surface materials: how a ray leaves a surface that it has hit.
//!
//! Scattering is random. The random part of one bounce is a
//! [`ScatterSample`]; given the sample, `scatter_with` is a function of its
//! arguments, and `scatter` is `scatter_with` on a sample that it draws.

use core::ops::Neg;
use vstd::prelude::*;
use crate::fixed::trunc_div;
use crate::fixed::Fixed;
use crate::fixed::SCALE;
use crate::math::Ray;
use crate::math::Vec3;
use crate::object::Hit;
use crate::random::uniform;

verus! {

/// The random input of one bounce.
#[derive(Clone, Copy, Debug)]
pub struct ScatterSample {
    /// A point strictly inside the unit sphere.
    pub in_sphere: Vec3,
    /// A number in `[0, 1)`.
    pub chance: Fixed,
}

impl ScatterSample {
    /// Whether the sample is one that a draw can give.
    pub open spec fn valid(&self) -> bool {
        &&& self.in_sphere.in_unit_sphere_spec()
        &&& 0 <= self.chance.raw < SCALE
    }

    /// The sample with the given point and chance.
    pub fn new(in_sphere: Vec3, chance: Fixed) -> (s: ScatterSample)
        ensures
            s.in_sphere == in_sphere,
            s.chance == chance,
    {
        ScatterSample { in_sphere, chance }
    }

    /// A sample with a random point and no chance: the point is what
    /// rejection gives, and the chance is zero.
    pub fn draw_point() -> (s: ScatterSample)
        ensures
            s.valid(),
            s.chance == Fixed::zero(),
            s.in_sphere.within(Fixed::one().negated(), Fixed::one()),
            exists|candidates: Seq<Vec3>| Vec3::is_rejection_sample(candidates, s.in_sphere),
    {
        ScatterSample { in_sphere: Vec3::rand_in_unit_sphere(), chance: Fixed::zero() }
    }

    /// A sample with a random chance and the centre for its point.
    pub fn draw_chance() -> (s: ScatterSample)
        ensures
            s.valid(),
            s.in_sphere == Vec3::zero(),
    {
        let mut rnd = rand::thread_rng();
        let chance = uniform(&mut rnd, Fixed::zero(), Fixed::one());
        ScatterSample { in_sphere: Vec3::zero(), chance }
    }
}

/// A diffuse surface.
#[derive(Clone, Copy, Debug)]
pub struct Lambertian {
    pub albedo: Vec3,
}

impl Lambertian {
    /// A diffuse surface that reflects the share `albedo` of each colour.
    pub fn new(albedo: Vec3) -> (m: Lambertian)
        ensures
            m.albedo == albedo,
    {
        Lambertian { albedo }
    }

    /// The scattered ray leaves the hit point along the normal plus a random
    /// unit vector, or along the normal itself where that sum is near zero.
    pub open spec fn scattered(&self, in_ray: &Ray, hit: &Hit, sample: &ScatterSample) -> Ray {
        let dir = hit.normal.plus(sample.in_sphere.normalized_spec());
        Ray { origin: hit.p, direction: if dir.near_zero_spec() { hit.normal } else { dir } }
    }

    /// Scatters always, with the albedo for attenuation.
    pub fn scatter_with(
        &self,
        in_ray: &Ray,
        hit: &Hit,
        sample: &ScatterSample,
        attenuation: &mut Vec3,
        scattered: &mut Ray,
    ) -> (r: bool)
        ensures
            r,
            *final(attenuation) == self.albedo,
            *final(scattered) == self.scattered(in_ray, hit, sample),
            final(scattered).direction.near_zero_spec() ==> final(scattered).direction == hit.normal,
    {
        let mut dir = hit.normal + sample.in_sphere.normalized();
        if dir.near_zero() {
            dir = hit.normal;
        }
        *scattered = Ray::new(hit.p, dir);
        *attenuation = self.albedo;
        true
    }

    /// `scatter_with` on a sample drawn here.
    pub fn scatter(
        &self,
        in_ray: &Ray,
        hit: &Hit,
        attenuation: &mut Vec3,
        scattered: &mut Ray,
    ) -> (r: bool)
        ensures
            r,
            *final(attenuation) == self.albedo,
            exists|sample: ScatterSample|
                sample.valid() && *final(scattered) == #[trigger] self.scattered(
                    in_ray,
                    hit,
                    &sample,
                ),
            final(scattered).direction.near_zero_spec() ==> final(scattered).direction == hit.normal,
    {
        let sample = ScatterSample::draw_point();
        self.scatter_with(in_ray, hit, &sample, attenuation, scattered)
    }
}

/// A mirror, blurred by `fuzz` in `[0, 1]`.
#[derive(Clone, Copy, Debug)]
pub struct Metal {
    pub albedo: Vec3,
    pub fuzz: Fixed,
}

impl Metal {
    /// A metal that reflects the share `albedo` of each colour, blurred by
    /// `fuzz`.
    pub fn new(albedo: Vec3, fuzz: Fixed) -> (m: Metal)
        ensures
            m.albedo == albedo,
            m.fuzz == fuzz,
    {
        Metal { albedo, fuzz }
    }

    /// The scattered ray leaves the hit point along the mirror image of the
    /// incoming direction, moved by `fuzz` times a random point of the unit
    /// sphere.
    pub open spec fn scattered(&self, in_ray: &Ray, hit: &Hit, sample: &ScatterSample) -> Ray {
        let reflected = in_ray.direction.normalized_spec().reflect_spec(&hit.normal);
        Ray { origin: hit.p, direction: reflected.plus(sample.in_sphere.scaled(self.fuzz)) }
    }

    /// The ray is absorbed unless it leaves on the outer side of the surface.
    pub open spec fn scatters(&self, in_ray: &Ray, hit: &Hit, sample: &ScatterSample) -> bool {
        self.scattered(in_ray, hit, sample).direction.dot_spec(&hit.normal).raw > 0
    }

    /// Writes the albedo and the scattered ray, and says whether the ray
    /// scatters.
    pub fn scatter_with(
        &self,
        in_ray: &Ray,
        hit: &Hit,
        sample: &ScatterSample,
        attenuation: &mut Vec3,
        scattered: &mut Ray,
    ) -> (r: bool)
        ensures
            r == self.scatters(in_ray, hit, sample),
            *final(attenuation) == self.albedo,
            *final(scattered) == self.scattered(in_ray, hit, sample),
    {
        let reflected = in_ray.direction.normalized().reflect(&hit.normal);
        *scattered = Ray::new(hit.p, reflected + self.fuzz * sample.in_sphere);
        *attenuation = self.albedo;
        scattered.direction.dot(&hit.normal).raw > 0
    }

    /// `scatter_with` on a sample drawn here.
    pub fn scatter(
        &self,
        in_ray: &Ray,
        hit: &Hit,
        attenuation: &mut Vec3,
        scattered: &mut Ray,
    ) -> (r: bool)
        ensures
            *final(attenuation) == self.albedo,
            exists|sample: ScatterSample|
                sample.valid() && *final(scattered) == #[trigger] self.scattered(
                    in_ray,
                    hit,
                    &sample,
                ) && r == self.scatters(in_ray, hit, &sample),
    {
        let sample = ScatterSample::draw_point();
        self.scatter_with(in_ray, hit, &sample, attenuation, scattered)
    }
}

/// A clear surface with refractive index `ir > 0`, such as glass.
#[derive(Clone, Copy, Debug)]
pub struct Dielectric {
    pub ir: Fixed,
}

impl Dielectric {
    /// A clear surface with refractive index `ir`.
    pub fn new(ir: Fixed) -> (m: Dielectric)
        ensures
            m.ir == ir,
    {
        Dielectric { ir }
    }

    /// The reflectance at normal incidence: `((1 - n) / (1 + n))^2`.
    pub open spec fn base_reflectance(refidx: Fixed) -> Fixed {
        let r0 = Fixed::one().minus(refidx).over(Fixed::one().plus(refidx));
        r0.times(r0)
    }

    /// What [`Self::reflectence`] returns.
    pub open spec fn reflectence_spec(&self, cos: Fixed, refidx: Fixed) -> Fixed {
        let r1 = Dielectric::base_reflectance(refidx);
        r1.plus(Fixed::one().minus(r1).times(Fixed::one().minus(cos).powi_spec(5)))
    }

    /// Schlick's approximation of the reflectance at the angle with cosine
    /// `cos`, for the ratio `refidx` of refractive indices:
    /// `r0 + (1 - r0) (1 - cos)^5`.
    #[verifier::when_used_as_spec(reflectence_spec)]
    pub fn reflectence(&self, cos: Fixed, refidx: Fixed) -> (r: Fixed)
        ensures
            r == self.reflectence_spec(cos, refidx),
            cos == Fixed::one() ==> r == Dielectric::base_reflectance(refidx),
    {
        proof {
            self.lemma_reflectence_head_on(refidx);
        }
        let r0 = (Fixed::one() - refidx) / (Fixed::one() + refidx);
        let r1 = r0 * r0;
        r1 + (Fixed::one() - r1) * (Fixed::one() - cos).powi(5)
    }

    /// Head on, where the cosine is one, the reflectance is the reflectance
    /// at normal incidence exactly.
    pub proof fn lemma_reflectence_head_on(&self, refidx: Fixed)
        ensures
            self.reflectence_spec(Fixed::one(), refidx) == Dielectric::base_reflectance(refidx),
    {
        let r1 = Dielectric::base_reflectance(refidx);
        Fixed::lemma_powi_zero(5);
        Fixed::lemma_times_zero(Fixed::one().minus(r1));
    }

    /// The reflectance never decreases as the cosine falls from one toward
    /// zero, for a ratio whose reflectance at normal incidence is at most
    /// one.
    pub proof fn lemma_reflectence_monotone(&self, low: Fixed, high: Fixed, refidx: Fixed)
        requires
            0 <= low.raw <= high.raw <= SCALE,
            Dielectric::base_reflectance(refidx).raw <= SCALE,
        ensures
            self.reflectence_spec(high, refidx).raw <= self.reflectence_spec(low, refidx).raw,
    {
        let r1 = Dielectric::base_reflectance(refidx);
        let rest = Fixed::one().minus(r1);
        let grazing_high = Fixed::one().minus(high);
        let grazing_low = Fixed::one().minus(low);
        Fixed::lemma_powi_monotone(grazing_high, grazing_low, 5);
        Fixed::lemma_times_monotone(
            rest,
            rest,
            grazing_high.powi_spec(5),
            grazing_low.powi_spec(5),
        );
    }

    /// For glass in air, with ratio `1.5`, the reflectance at normal
    /// incidence is `0.04`, and the reflectance never decreases as the cosine
    /// falls from one toward zero.
    pub proof fn lemma_glass_reflectence_monotone(&self, low: Fixed, high: Fixed)
        requires
            0 <= low.raw <= high.raw <= SCALE,
        ensures
            Dielectric::base_reflectance(Fixed { raw: 1_500_000_000 }) == (Fixed {
                raw: 40_000_000,
            }),
            self.reflectence_spec(high, Fixed { raw: 1_500_000_000 }).raw
                <= self.reflectence_spec(low, Fixed { raw: 1_500_000_000 }).raw,
    {
        let glass = Fixed { raw: 1_500_000_000 };
        let r0 = Fixed::one().minus(glass).over(Fixed::one().plus(glass));
        assert(500_000_000_000_000_000int / 2_500_000_000 == 200_000_000);
        assert(r0.raw == -200_000_000);
        assert(40_000_000_000_000_000int / 1_000_000_000 == 40_000_000);
        self.lemma_reflectence_monotone(low, high, glass);
    }

    /// The ratio of refractive indices that the ray crosses.
    pub open spec fn refraction_ratio(&self, hit: &Hit) -> Fixed {
        if hit.front_face {
            Fixed::one().over(self.ir)
        } else {
            self.ir
        }
    }

    /// The cosine of the angle of incidence, at most one.
    pub open spec fn cos_theta(in_ray: &Ray, hit: &Hit) -> Fixed {
        in_ray.direction.normalized_spec().negated().dot_spec(&hit.normal).min_spec(Fixed::one())
    }

    /// Whether the ray is reflected: always under total internal reflection,
    /// and else with the probability that Schlick's approximation gives.
    pub open spec fn reflects(&self, in_ray: &Ray, hit: &Hit, sample: &ScatterSample) -> bool {
        let ratio = self.refraction_ratio(hit);
        let ct = Dielectric::cos_theta(in_ray, hit);
        let st = Fixed::one().minus(ct.times(ct)).sqrt_spec();
        ratio.times(st).raw > SCALE || self.reflectence_spec(ct, ratio).raw > sample.chance.raw
    }

    /// The scattered ray leaves the hit point reflected or refracted.
    pub open spec fn scattered(&self, in_ray: &Ray, hit: &Hit, sample: &ScatterSample) -> Ray {
        let u_dir = in_ray.direction.normalized_spec();
        Ray {
            origin: hit.p,
            direction: if self.reflects(in_ray, hit, sample) {
                u_dir.reflect_spec(&hit.normal)
            } else {
                u_dir.refract_spec(&hit.normal, self.refraction_ratio(hit))
            },
        }
    }

    /// Scatters always, without tint.
    pub fn scatter_with(
        &self,
        in_ray: &Ray,
        hit: &Hit,
        sample: &ScatterSample,
        attenuation: &mut Vec3,
        scattered: &mut Ray,
    ) -> (r: bool)
        ensures
            r,
            *final(attenuation) == (Vec3 { x: Fixed::one(), y: Fixed::one(), z: Fixed::one() }),
            *final(scattered) == self.scattered(in_ray, hit, sample),
    {
        *attenuation = Vec3::new(Fixed::one(), Fixed::one(), Fixed::one());
        let refract = if hit.front_face {
            Fixed::one() / self.ir
        } else {
            self.ir
        };
        let u_dir = in_ray.direction.normalized();
        let ct = u_dir.neg().dot(&hit.normal).min(Fixed::one());
        let st = (Fixed::one() - ct * ct).sqrt();
        let no_refract = (refract * st).raw > SCALE;
        let dir = if no_refract || self.reflectence(ct, refract).raw > sample.chance.raw {
            u_dir.reflect(&hit.normal)
        } else {
            u_dir.refract(&hit.normal, refract)
        };
        *scattered = Ray::new(hit.p, dir);
        true
    }

    /// `scatter_with` on a sample drawn here.
    pub fn scatter(
        &self,
        in_ray: &Ray,
        hit: &Hit,
        attenuation: &mut Vec3,
        scattered: &mut Ray,
    ) -> (r: bool)
        ensures
            r,
            *final(attenuation) == (Vec3 { x: Fixed::one(), y: Fixed::one(), z: Fixed::one() }),
            exists|sample: ScatterSample|
                sample.valid() && *final(scattered) == #[trigger] self.scattered(
                    in_ray,
                    hit,
                    &sample,
                ),
    {
        let sample = ScatterSample::draw_chance();
        self.scatter_with(in_ray, hit, &sample, attenuation, scattered)
    }
}

/// The material of a surface.
#[derive(Clone, Copy, Debug)]
pub enum Material {
    Lambertian(Lambertian),
    Metal(Metal),
    Dielectric(Dielectric),
}

impl Material {
    /// The share of each colour that the surface passes on.
    pub open spec fn attenuation(&self) -> Vec3 {
        match *self {
            Material::Lambertian(m) => m.albedo,
            Material::Metal(m) => m.albedo,
            Material::Dielectric(_) => Vec3 { x: Fixed::one(), y: Fixed::one(), z: Fixed::one() },
        }
    }

    /// The ray that leaves the surface, for the given sample.
    pub open spec fn scattered(&self, in_ray: &Ray, hit: &Hit, sample: &ScatterSample) -> Ray {
        match *self {
            Material::Lambertian(m) => m.scattered(in_ray, hit, sample),
            Material::Metal(m) => m.scattered(in_ray, hit, sample),
            Material::Dielectric(m) => m.scattered(in_ray, hit, sample),
        }
    }

    /// Whether the ray scatters rather than being absorbed, for the given
    /// sample.
    pub open spec fn scatters(&self, in_ray: &Ray, hit: &Hit, sample: &ScatterSample) -> bool {
        match *self {
            Material::Lambertian(_) => true,
            Material::Metal(m) => m.scatters(in_ray, hit, sample),
            Material::Dielectric(_) => true,
        }
    }

    /// Scatters `in_ray` at `hit` with the given sample: writes the
    /// attenuation and the scattered ray, and says whether the ray scatters.
    pub fn scatter_with(
        &self,
        in_ray: &Ray,
        hit: &Hit,
        sample: &ScatterSample,
        attenuation: &mut Vec3,
        scattered: &mut Ray,
    ) -> (r: bool)
        ensures
            r == self.scatters(in_ray, hit, sample),
            *final(attenuation) == self.attenuation(),
            *final(scattered) == self.scattered(in_ray, hit, sample),
    {
        match self {
            Material::Lambertian(m) => m.scatter_with(in_ray, hit, sample, attenuation, scattered),
            Material::Metal(m) => m.scatter_with(in_ray, hit, sample, attenuation, scattered),
            Material::Dielectric(m) => m.scatter_with(in_ray, hit, sample, attenuation, scattered),
        }
    }

    /// Whether `(r, scattered)` is what some valid sample gives.
    pub open spec fn can_scatter(&self, in_ray: &Ray, hit: &Hit, r: bool, scattered: Ray) -> bool {
        exists|sample: ScatterSample|
            sample.valid() && scattered == #[trigger] self.scattered(in_ray, hit, &sample) && r
                == self.scatters(in_ray, hit, &sample)
    }

    /// Scatters `in_ray` at `hit` with a sample drawn here.
    pub fn scatter(
        &self,
        in_ray: &Ray,
        hit: &Hit,
        attenuation: &mut Vec3,
        scattered: &mut Ray,
    ) -> (r: bool)
        ensures
            *final(attenuation) == self.attenuation(),
            self.can_scatter(in_ray, hit, r, *final(scattered)),
    {
        match self {
            Material::Lambertian(m) => {
                let r = m.scatter(in_ray, hit, attenuation, scattered);
                proof {
                    let sample = choose|sample: ScatterSample|
                        sample.valid() && *scattered == #[trigger] m.scattered(in_ray, hit, &sample);
                    assert(*scattered == self.scattered(in_ray, hit, &sample));
                }
                r
            },
            Material::Metal(m) => {
                let r = m.scatter(in_ray, hit, attenuation, scattered);
                proof {
                    let sample = choose|sample: ScatterSample|
                        sample.valid() && *scattered == #[trigger] m.scattered(in_ray, hit, &sample)
                            && r == m.scatters(in_ray, hit, &sample);
                    assert(*scattered == self.scattered(in_ray, hit, &sample));
                }
                r
            },
            Material::Dielectric(m) => {
                let r = m.scatter(in_ray, hit, attenuation, scattered);
                proof {
                    let sample = choose|sample: ScatterSample|
                        sample.valid() && *scattered == #[trigger] m.scattered(in_ray, hit, &sample);
                    assert(*scattered == self.scattered(in_ray, hit, &sample));
                }
                r
            },
        }
    }
}

} // verus!
