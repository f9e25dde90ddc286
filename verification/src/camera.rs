//! The camera: from a place on the picture to a ray into the scene.

use vstd::prelude::*;
use crate::random::random_bits;
use crate::ray::Ray;
use crate::scalar::Scalar;
use crate::vec3::Point3;
use crate::vec3::Vec3;

verus! {

#[derive(Debug)]
pub struct Camera<T> {
    /// Where the camera stands.
    pub origin: Point3<T>,
    /// The picture's bottom edge in the plane of focus.
    pub horizontal: Vec3<T>,
    /// The picture's left edge in the plane of focus.
    pub vertical: Vec3<T>,
    /// The picture's bottom left corner in the plane of focus.
    pub lower_left_corner: Vec3<T>,
    /// The direction to the right of the camera, of length one.
    pub u: Vec3<T>,
    /// The direction above the camera, of length one.
    pub v: Vec3<T>,
    /// Half the width of the lens.
    pub lens_radius: T,
}

impl<T: Copy> Clone for Camera<T> {
    fn clone(&self) -> (r: Self)
        ensures
            r == *self,
    {
        Camera {
            origin: self.origin,
            horizontal: self.horizontal,
            vertical: self.vertical,
            lower_left_corner: self.lower_left_corner,
            u: self.u,
            v: self.v,
            lens_radius: self.lens_radius,
        }
    }
}

impl<T: Copy> Copy for Camera<T> {}

impl<T: Scalar> Camera<T> {
    /// An angle in radians, from degrees.
    pub open spec fn radians(degrees: T) -> T {
        degrees.product(T::pi_spec().quotient(T::ratio_spec(180, 1)))
    }

    /// The height of the picture at distance one, for a field of view of
    /// `vfov` degrees from bottom to top.
    pub open spec fn viewport_height(vfov: T) -> T {
        T::ratio_spec(2, 1).product(Self::radians(vfov).quotient(T::ratio_spec(2, 1)).tangent())
    }

    /// The camera that stands at `look_from`, looks at `look_at` and has
    /// `vup` above it. The picture is `aspect_ratio` times as wide as high,
    /// and what lies `focus_dist` away is sharp.
    pub open spec fn new_spec(
        look_from: Point3<T>,
        look_at: Point3<T>,
        vup: Vec3<T>,
        vfov: T,
        aspect_ratio: T,
        aperture: T,
        focus_dist: T,
    ) -> Self {
        let viewport_height = Self::viewport_height(vfov);
        let viewport_width = viewport_height.product(aspect_ratio);
        let w = look_from.difference(look_at).unit_vector_spec();
        let u = vup.cross_spec(w).unit_vector_spec();
        let v = w.cross_spec(u);
        let horizontal = u.scale(focus_dist).scale(viewport_width);
        let vertical = v.scale(focus_dist).scale(viewport_height);
        Camera {
            origin: look_from,
            horizontal,
            vertical,
            lower_left_corner: look_from.difference(horizontal.shrink(T::ratio_spec(2, 1)))
                .difference(vertical.shrink(T::ratio_spec(2, 1))).difference(w.scale(focus_dist)),
            u,
            v,
            lens_radius: aperture.quotient(T::ratio_spec(2, 1)),
        }
    }

    /// How far from the middle of the lens a ray starts, for given random
    /// bits.
    pub open spec fn lens_offset(self, lens: (u64, u64)) -> Vec3<T> {
        let rd = Vec3::<T>::in_unit_disk_spec(lens).scale(self.lens_radius);
        self.u.scale(rd.0).sum(self.v.scale(rd.1))
    }

    /// The ray from a point of the lens to the place `(s, t)` of the picture,
    /// where `(0, 0)` is the bottom left corner and `(1, 1)` the top right.
    pub open spec fn get_ray_spec(self, s: T, t: T, lens: (u64, u64)) -> Ray<T> {
        let offset = self.lens_offset(lens);
        Ray {
            origin: self.origin.sum(offset),
            direction: self.lower_left_corner.sum(self.horizontal.scale(s)).sum(
                self.vertical.scale(t),
            ).difference(self.origin).difference(offset),
        }
    }

    pub fn new(
        look_from: Point3<T>,
        look_at: Point3<T>,
        vup: Vec3<T>,
        vfov: T,
        aspect_ratio: T,
        aperture: T,
        focus_dist: T,
    ) -> (r: Self)
        ensures
            r == Self::new_spec(look_from, look_at, vup, vfov, aspect_ratio, aperture, focus_dist),
    {
        let two = T::ratio(2, 1);
        let theta = vfov.times(T::pi().over(T::ratio(180, 1)));
        let h = theta.over(two).tan();
        let viewport_height = two.times(h);
        let viewport_width = viewport_height.times(aspect_ratio);
        let w = look_from.minus(look_at).unit_vector();
        let u = vup.cross(&w).unit_vector();
        let v = w.cross(&u);
        let origin = look_from;
        let horizontal = u.scaled(focus_dist).scaled(viewport_width);
        let vertical = v.scaled(focus_dist).scaled(viewport_height);
        let lower_left_corner = origin.minus(horizontal.divided(two)).minus(
            vertical.divided(two),
        ).minus(w.scaled(focus_dist));
        let lens_radius = aperture.over(two);
        Camera { origin, horizontal, vertical, lower_left_corner, u, v, lens_radius }
    }

    /// The ray to the place `(s, t)` of the picture through the point of the
    /// lens that the given random bits stand for.
    pub fn get_ray_with(&self, s: T, t: T, lens: (u64, u64)) -> (r: Ray<T>)
        ensures
            r == self.get_ray_spec(s, t, lens),
    {
        let rd = Vec3::<T>::in_unit_disk(lens).scaled(self.lens_radius);
        let offset = self.u.scaled(rd.x()).plus(self.v.scaled(rd.y()));
        let origin = self.origin.plus(offset);
        let direction = self.lower_left_corner.plus(self.horizontal.scaled(s)).plus(
            self.vertical.scaled(t),
        ).minus(self.origin).minus(offset);
        Ray { origin, direction }
    }

    /// The ray to the place `(s, t)` of the picture through a random point of
    /// the lens.
    pub fn get_ray(&self, s: T, t: T) -> (r: Ray<T>)
        ensures
            exists|lens: (u64, u64)| r == #[trigger] self.get_ray_spec(s, t, lens),
    {
        self.get_ray_with(s, t, (random_bits(), random_bits()))
    }
}

} // verus!
