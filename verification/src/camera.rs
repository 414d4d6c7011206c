//! The camera: from a place on the image to a ray into the scene.

use core::ops::Neg;
use vstd::prelude::*;
use crate::fixed::Fixed;
use crate::math::Point;
use crate::math::Ray;
use crate::math::Vec3;

verus! {

/// A camera at `origin` that looks along `view_dir` through a viewport one
/// focal length away.
#[derive(Clone, Copy, Debug)]
pub struct Camera {
    pub origin: Point,
    pub focal_length: Fixed,
    pub viewport_width: Fixed,
    pub viewport_height: Fixed,
    pub aspect_ratio: Fixed,
    pub view_dir: Vec3,
}

impl Camera {
    /// The direction that counts as up in the world.
    pub open spec fn world_up_spec() -> Vec3 {
        Vec3 { x: Fixed::zero(), y: Fixed::one(), z: Fixed::zero() }
    }

    /// The direction that counts as up in the world.
    #[verifier::when_used_as_spec(world_up_spec)]
    pub fn world_up() -> (v: Vec3)
        ensures
            v == Camera::world_up_spec(),
    {
        Vec3::new(Fixed::zero(), Fixed::one(), Fixed::zero())
    }

    /// What [`Self::new`] returns.
    pub open spec fn new_spec(
        aspect_ratio: Fixed,
        viewport_width: Fixed,
        origin: Vec3,
        look_at: Vec3,
    ) -> Camera {
        Camera {
            origin,
            focal_length: Fixed::one(),
            viewport_width,
            viewport_height: aspect_ratio.times(viewport_width),
            aspect_ratio,
            view_dir: look_at.minus(origin).normalized_spec(),
        }
    }

    /// A camera at `origin` that looks toward `look_at`, with focal length
    /// one and a viewport of the given width and of height
    /// `aspect_ratio * viewport_width`.
    #[verifier::when_used_as_spec(new_spec)]
    pub fn new(aspect_ratio: Fixed, viewport_width: Fixed, origin: Vec3, look_at: Vec3) -> (c: Camera)
        ensures
            c == Camera::new_spec(aspect_ratio, viewport_width, origin, look_at),
    {
        Camera {
            origin,
            focal_length: Fixed::one(),
            viewport_width,
            viewport_height: aspect_ratio * viewport_width,
            aspect_ratio,
            view_dir: (look_at - origin).normalized(),
        }
    }

    /// The unit vector to the right of the view, from the world's up. It is
    /// the zero vector where the view is parallel to the world's up.
    pub open spec fn right(&self) -> Vec3 {
        self.view_dir.plus(Camera::world_up_spec()).cross_spec(&self.view_dir).normalized_spec()
    }

    /// The upward vector of the view.
    pub open spec fn up(&self) -> Vec3 {
        self.view_dir.cross_spec(&self.right())
    }

    /// The offset on the viewport of the place `(u, v)` of the image:
    /// `v = 0` is the top edge and `v = 1` the bottom edge.
    pub open spec fn viewport_offset(&self, u: Fixed, v: Fixed) -> Vec3 {
        let two = Fixed::from_int_spec(2);
        Vec3 {
            x: self.viewport_width.negated().over(two).minus(
                self.viewport_width.negated().times(u),
            ),
            y: self.viewport_height.over(two).minus(self.viewport_height.times(v)),
            z: self.focal_length,
        }
    }

    /// What [`Self::get_ray`] returns.
    pub open spec fn get_ray_spec(&self, u: Fixed, v: Fixed) -> Ray {
        let dir = self.viewport_offset(u, v).normalized_spec();
        Ray {
            origin: self.origin,
            direction: self.right().scaled(dir.x).plus(self.up().scaled(dir.y)).plus(
                self.view_dir.scaled(dir.z),
            ),
        }
    }

    /// The ray from the camera through the place `(u, v)` of the image, with
    /// `u` and `v` in `[0, 1]`.
    #[verifier::when_used_as_spec(get_ray_spec)]
    pub fn get_ray(&self, u: Fixed, v: Fixed) -> (r: Ray)
        ensures
            r == self.get_ray_spec(u, v),
    {
        let two = Fixed::from_int(2);
        let adjusted_v = self.viewport_height / two - self.viewport_height * v;
        let adjusted_u = self.viewport_width.neg() / two - self.viewport_width.neg() * u;

        let right = (self.view_dir + Camera::world_up()).cross(&self.view_dir).normalized();
        let up = self.view_dir.cross(&right);

        let dir = Vec3::new(adjusted_u, adjusted_v, self.focal_length).normalized();

        let dir = dir.x() * right + dir.y() * up + dir.z() * self.view_dir;

        Ray::new(self.origin, dir)
    }
}

} // verus!
