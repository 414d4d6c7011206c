//! What a ray can hit: spheres, and scenes made of them.

use core::ops::Neg;
use vstd::prelude::*;
use crate::fixed::Fixed;
use crate::material::Material;
use crate::math::Point;
use crate::math::Ray;
use crate::math::Vec3;

verus! {

/// Where and how a ray meets a surface.
#[derive(Clone, Copy, Debug)]
pub struct Hit {
    /// The point of intersection.
    pub p: Point,
    /// The surface normal, turned against the incoming ray.
    pub normal: Vec3,
    /// The parameter of the ray at the point.
    pub t: Fixed,
    /// Whether the ray comes from outside the surface.
    pub front_face: bool,
    /// The material of the surface; `None` only in a record not yet filled.
    pub material: Option<Material>,
}

impl Hit {
    /// Whether a ray along `r` sees the front of a surface with outward
    /// normal `outward`.
    pub open spec fn faces_front(r: &Ray, outward: &Vec3) -> bool {
        r.direction.dot_spec(outward).raw < 0
    }

    /// The normal turned against the ray.
    pub open spec fn facing_normal(r: &Ray, outward: &Vec3) -> Vec3 {
        if Hit::faces_front(r, outward) {
            *outward
        } else {
            outward.negated()
        }
    }

    /// The normal turned against the ray never points along it.
    pub proof fn lemma_facing_normal_opposes(r: &Ray, outward: &Vec3)
        requires
            outward.negatable(),
        ensures
            r.direction.dot_spec(&Hit::facing_normal(r, outward)).raw <= 0,
    {
        r.direction.lemma_dot_negated(outward);
    }

    /// Sets `front_face` and `normal` from the outward normal, so that the
    /// normal opposes the ray.
    pub fn set_face_normal(&mut self, r: &Ray, outward: &Vec3)
        ensures
            final(self).front_face == Hit::faces_front(r, outward),
            final(self).normal == Hit::facing_normal(r, outward),
            outward.negatable() ==> r.direction.dot_spec(&final(self).normal).raw <= 0,
            final(self).p == old(self).p,
            final(self).t == old(self).t,
            final(self).material == old(self).material,
    {
        proof {
            if outward.negatable() {
                Hit::lemma_facing_normal_opposes(r, outward);
            }
        }
        self.front_face = r.direction.dot(outward).raw < 0;
        self.normal = if self.front_face {
            *outward
        } else {
            outward.neg()
        };
    }

    /// What [`Self::new`] returns.
    pub open spec fn new_spec() -> Hit {
        Hit {
            p: Vec3::zero(),
            normal: Vec3::zero(),
            t: Fixed::zero(),
            front_face: true,
            material: None,
        }
    }

    /// An empty record, for a `hit` to fill.
    #[verifier::when_used_as_spec(new_spec)]
    pub fn new() -> (h: Hit)
        ensures
            h == Hit::new_spec(),
    {
        Hit {
            p: Vec3::zero(),
            normal: Vec3::zero(),
            t: Fixed::zero(),
            front_face: true,
            material: None,
        }
    }
}

/// Something that a ray can hit.
pub trait Hittable {
    /// The hit of `r` on `self` with parameter in `[t_min, t_max]`, if any.
    spec fn hit_spec(&self, r: &Ray, t_min: Fixed, t_max: Fixed) -> Option<Hit>;

    /// Looks for the hit of `r` on `self` with parameter in
    /// `[t_min, t_max]`. Fills `rec` and returns true where there is one;
    /// leaves `rec` as it is and returns false where there is none.
    fn hit(&self, r: &Ray, t_min: Fixed, t_max: Fixed, rec: &mut Hit) -> (found: bool)
        ensures
            found == self.hit_spec(r, t_min, t_max).is_some(),
            found ==> *final(rec) == self.hit_spec(r, t_min, t_max).unwrap(),
            !found ==> *final(rec) == *old(rec),
    ;
}

/// A sphere with a material.
#[derive(Clone, Copy, Debug)]
pub struct Sphere {
    pub center: Point,
    pub radius: Fixed,
    pub material: Material,
}

impl Sphere {
    /// The sphere about `center` with the given radius and material.
    pub fn new(center: Point, radius: Fixed, material: Material) -> (s: Sphere)
        ensures
            s.center == center,
            s.radius == radius,
            s.material == material,
    {
        Sphere { center, radius, material }
    }

    /// The discriminant of `a t^2 + 2 half_b t + c = 0`, the equation of the
    /// parameters at which `r` meets the sphere, over four.
    pub open spec fn discriminant(&self, r: &Ray) -> Fixed {
        let oc = r.origin.minus(self.center);
        let a = r.direction.length_squared_spec();
        let half_b = oc.dot_spec(&r.direction);
        let c = oc.length_squared_spec().minus(self.radius.times(self.radius));
        half_b.times(half_b).minus(a.times(c))
    }

    /// The smaller root of the equation, where the discriminant is not
    /// negative.
    pub open spec fn near_root(&self, r: &Ray) -> Fixed {
        let oc = r.origin.minus(self.center);
        let a = r.direction.length_squared_spec();
        let half_b = oc.dot_spec(&r.direction);
        half_b.negated().minus(self.discriminant(r).sqrt_spec()).over(a)
    }

    /// The larger root of the equation, where the discriminant is not
    /// negative.
    pub open spec fn far_root(&self, r: &Ray) -> Fixed {
        let oc = r.origin.minus(self.center);
        let a = r.direction.length_squared_spec();
        let half_b = oc.dot_spec(&r.direction);
        half_b.negated().plus(self.discriminant(r).sqrt_spec()).over(a)
    }

    /// The outward unit normal at the point `p` of the surface.
    pub open spec fn outward_normal(&self, p: Point) -> Vec3 {
        p.minus(self.center).divided(self.radius)
    }

    /// The record of the hit of `r` at parameter `t`.
    pub open spec fn hit_at(&self, r: &Ray, t: Fixed) -> Hit {
        let p = r.at_spec(t);
        let outward = self.outward_normal(p);
        Hit {
            p,
            normal: Hit::facing_normal(r, &outward),
            t,
            front_face: Hit::faces_front(r, &outward),
            material: Some(self.material),
        }
    }
}

impl Sphere {
    /// A hit lies on the ray at a parameter within the range asked for, and
    /// carries the sphere's material.
    pub proof fn lemma_hit_on_ray(&self, r: &Ray, t_min: Fixed, t_max: Fixed)
        ensures
            self.hit_spec(r, t_min, t_max) matches Some(h) ==> {
                &&& in_range(h.t, t_min, t_max)
                &&& h.t == self.near_root(r) || h.t == self.far_root(r)
                &&& h.p == r.at_spec(h.t)
                &&& h.material == Some(self.material)
            },
    {
    }

    /// The normal of a hit opposes the ray, and the hit is on the front face
    /// exactly where the ray runs against the outward normal.
    pub proof fn lemma_hit_normal_opposes_ray(&self, r: &Ray, t_min: Fixed, t_max: Fixed)
        ensures
            self.hit_spec(r, t_min, t_max) matches Some(h) ==> {
                &&& r.direction.dot_spec(&h.normal).raw <= 0
                &&& h.front_face == (r.direction.dot_spec(&self.outward_normal(h.p)).raw < 0)
                &&& h.normal == self.outward_normal(h.p) || h.normal == self.outward_normal(
                    h.p,
                ).negated()
            },
    {
        if let Some(h) = self.hit_spec(r, t_min, t_max) {
            let outward = self.outward_normal(h.p);
            Hit::lemma_facing_normal_opposes(r, &outward);
        }
    }
}

/// Whether `t` lies in `[t_min, t_max]`.
pub open spec fn in_range(t: Fixed, t_min: Fixed, t_max: Fixed) -> bool {
    t_min.raw <= t.raw <= t_max.raw
}

impl Hittable for Sphere {
    /// The ray hits at the smaller root if that is in range, else at the
    /// larger root if that is, else not at all.
    open spec fn hit_spec(&self, r: &Ray, t_min: Fixed, t_max: Fixed) -> Option<Hit> {
        if self.discriminant(r).raw < 0 {
            None
        } else if in_range(self.near_root(r), t_min, t_max) {
            Some(self.hit_at(r, self.near_root(r)))
        } else if in_range(self.far_root(r), t_min, t_max) {
            Some(self.hit_at(r, self.far_root(r)))
        } else {
            None
        }
    }

    fn hit(&self, r: &Ray, t_min: Fixed, t_max: Fixed, rec: &mut Hit) -> (found: bool) {
        let oc = r.origin - self.center;
        let a = r.direction.length_squared();
        let half_b = oc.dot(&r.direction);
        let c = oc.length_squared() - self.radius * self.radius;

        let disc = half_b * half_b - a * c;
        if disc.raw < 0 {
            return false;
        }
        let sqrtd = disc.sqrt();

        let mut root = (half_b.neg() - sqrtd) / a;
        if root.raw < t_min.raw || t_max.raw < root.raw {
            root = (half_b.neg() + sqrtd) / a;
            if root.raw < t_min.raw || t_max.raw < root.raw {
                return false;
            }
        }
        rec.t = root;
        rec.p = r.at(rec.t);
        rec.material = Some(self.material);

        let outward = (rec.p - self.center) / self.radius;
        rec.set_face_normal(r, &outward);

        true
    }
}

/// The closest hit of `r` among `objects` with parameter in
/// `[t_min, t_max]`: the hit with the smallest parameter, and among hits
/// with that parameter the one of the object that comes first.
pub open spec fn closest_hit<T: Hittable>(
    objects: Seq<T>,
    r: &Ray,
    t_min: Fixed,
    t_max: Fixed,
) -> Option<Hit>
    decreases objects.len(),
{
    if objects.len() == 0 {
        None
    } else {
        let before = closest_hit(objects.drop_last(), r, t_min, t_max);
        match objects.last().hit_spec(r, t_min, t_max) {
            None => before,
            Some(h) => match before {
                None => Some(h),
                Some(b) => if h.t.raw < b.t.raw {
                    Some(h)
                } else {
                    Some(b)
                },
            },
        }
    }
}

/// Whether object `k` gives the hit `best` and wins with it: no object gives
/// a hit with a smaller parameter, and no earlier object one with the same.
pub open spec fn wins<T: Hittable>(
    objects: Seq<T>,
    r: &Ray,
    t_min: Fixed,
    t_max: Fixed,
    k: int,
    best: Hit,
) -> bool {
    &&& 0 <= k < objects.len()
    &&& objects[k].hit_spec(r, t_min, t_max) == Some(best)
    &&& forall|i: int|
        0 <= i < objects.len() ==> (#[trigger] objects[i].hit_spec(r, t_min, t_max) matches Some(h)
            ==> best.t.raw <= h.t.raw && (i < k ==> best.t.raw < h.t.raw))
}

/// There is no closest hit exactly where no object is hit. Where there is
/// one, it is the hit of an object that wins with it: the smallest parameter,
/// and the first object among those that reach it.
pub proof fn lemma_closest_hit<T: Hittable>(objects: Seq<T>, r: &Ray, t_min: Fixed, t_max: Fixed)
    ensures
        closest_hit(objects, r, t_min, t_max) is None <==> forall|i: int|
            0 <= i < objects.len() ==> (#[trigger] objects[i].hit_spec(r, t_min, t_max)) is None,
        closest_hit(objects, r, t_min, t_max) matches Some(best) ==> exists|k: int|
            wins(objects, r, t_min, t_max, k, best),
    decreases objects.len(),
{
    if objects.len() > 0 {
        let init = objects.drop_last();
        let last = objects.len() - 1;
        lemma_closest_hit(init, r, t_min, t_max);
        assert forall|i: int| 0 <= i < init.len() implies init[i] == objects[i] by {}
        let before = closest_hit(init, r, t_min, t_max);
        match objects.last().hit_spec(r, t_min, t_max) {
            None => {
                match before {
                    None => {},
                    Some(b) => {
                        let k = choose|k: int| wins(init, r, t_min, t_max, k, b);
                        assert(wins(objects, r, t_min, t_max, k, b));
                    },
                }
            },
            Some(h) => {
                match before {
                    None => {
                        assert(wins(objects, r, t_min, t_max, last, h));
                    },
                    Some(b) => {
                        let k = choose|k: int| wins(init, r, t_min, t_max, k, b);
                        if h.t.raw < b.t.raw {
                            assert(wins(objects, r, t_min, t_max, last, h));
                        } else {
                            assert(wins(objects, r, t_min, t_max, k, b));
                        }
                    },
                }
            },
        }
    }
}

/// A scene: the objects in the order in which they were added.
pub struct HittableObjects<T: Hittable> {
    objects: Vec<T>,
}

impl<T: Hittable> View for HittableObjects<T> {
    type V = Seq<T>;

    /// The objects in the order in which they were added.
    closed spec fn view(&self) -> Seq<T> {
        self.objects@
    }
}

impl<T: Hittable> HittableObjects<T> {
    /// The empty scene.
    pub fn new() -> (s: HittableObjects<T>)
        ensures
            s@ == Seq::<T>::empty(),
    {
        HittableObjects { objects: Vec::new() }
    }

    /// Removes every object.
    pub fn clear(&mut self)
        ensures
            final(self)@ == Seq::<T>::empty(),
    {
        self.objects.clear();
    }

    /// Adds `o` after the objects that are there.
    pub fn add(&mut self, o: T)
        ensures
            final(self)@ == old(self)@.push(o),
    {
        self.objects.push(o);
    }

    /// Looks for the closest hit of `r` in the scene with parameter in
    /// `[min, max]`. Fills `rec` and returns true where there is one; leaves
    /// `rec` as it is and returns false where there is none.
    pub fn hit(&self, r: &Ray, min: Fixed, max: Fixed, rec: &mut Hit) -> (found: bool)
        ensures
            found == closest_hit(self@, r, min, max).is_some(),
            found ==> *final(rec) == closest_hit(self@, r, min, max).unwrap(),
            !found ==> *final(rec) == *old(rec),
    {
        let mut tmphit = Hit::new();
        let mut hit_anything = false;
        let mut i: usize = 0;
        while i < self.objects.len()
            invariant
                i <= self.objects.len(),
                hit_anything == closest_hit(self@.take(i as int), r, min, max).is_some(),
                hit_anything ==> *rec == closest_hit(self@.take(i as int), r, min, max).unwrap(),
                !hit_anything ==> *rec == *old(rec),
            decreases self.objects.len() - i,
        {
            proof {
                assert(self@.take(i + 1).drop_last() == self@.take(i as int));
            }
            if self.objects[i].hit(r, min, max, &mut tmphit) {
                if !hit_anything || tmphit.t.raw < rec.t.raw {
                    *rec = tmphit;
                }
                hit_anything = true;
            }
            i = i + 1;
        }
        proof {
            assert(self@.take(i as int) == self@);
        }
        hit_anything
    }
}

} // verus!
