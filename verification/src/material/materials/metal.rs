//! Polished and brushed metal.

use vstd::prelude::*;
use crate::hittable::hit_record::HitRecord;
use crate::material::material::Draw;
use crate::material::material::Material;
use crate::material::material::fresh_draw;
use crate::material::material_record::MaterialRecord;
use crate::ray::Ray;
use crate::scalar::Scalar;
use crate::scalar::lt;
use crate::scalar::less;
use crate::vec3::Colour;
use crate::vec3::Vec3;

verus! {

/// A surface that mirrors light, blurred by `fuzziness`.
pub struct Metal<T> {
    pub albedo: Colour<T>,
    pub fuzziness: T,
}

impl<T: Scalar> Metal<T> {
    /// The direction of the mirrored ray, pushed aside by the point of the
    /// draw scaled by the fuzziness.
    pub open spec fn scatter_direction(self, ray: Ray<T>, hit_record: HitRecord<T>, draw: Draw)
        -> Vec3<T> {
        ray.direction.unit_vector_spec().reflect_spec(hit_record.normal).sum(
            Vec3::<T>::in_unit_sphere_spec(draw).scale(self.fuzziness),
        )
    }

    /// The bounce that a given draw leads to, or nothing where the pushed
    /// direction no longer leaves the surface.
    pub open spec fn scatter_spec(self, ray: Ray<T>, hit_record: HitRecord<T>, draw: Draw)
        -> Option<MaterialRecord<T>> {
        let direction = self.scatter_direction(ray, hit_record, draw);
        if lt(T::zero_spec(), direction.dot_spec(hit_record.normal)) {
            Some(
                MaterialRecord {
                    attenuation: self.albedo,
                    scattered: Ray { origin: hit_record.hit_location, direction },
                },
            )
        } else {
            None
        }
    }

    pub fn new(albedo: Colour<T>, fuzziness: T) -> (r: Self)
        ensures
            r.albedo == albedo,
            r.fuzziness == fuzziness,
    {
        Metal { albedo, fuzziness }
    }

    pub fn into(self) -> (r: Material<T>)
        ensures
            r == Material::Metal(self),
    {
        Material::Metal(self)
    }

    /// The bounce for a given draw.
    pub fn scatter_with(&self, ray: &Ray<T>, hit_record: &HitRecord<T>, draw: Draw) -> (r: Option<
        MaterialRecord<T>,
    >)
        ensures
            r == self.scatter_spec(*ray, *hit_record, draw),
    {
        let reflected = ray.direction.unit_vector().reflect(&hit_record.normal);
        let scattered = Ray::new(
            hit_record.hit_location,
            reflected.plus(Vec3::<T>::in_unit_sphere(draw).scaled(self.fuzziness)),
        );
        if less(T::zero(), scattered.direction.dot(&hit_record.normal)) {
            Some(MaterialRecord { attenuation: self.albedo, scattered })
        } else {
            None
        }
    }

    /// The bounce for a fresh random draw.
    pub fn scatter(&self, ray: &Ray<T>, hit_record: &HitRecord<T>) -> (r: Option<
        MaterialRecord<T>,
    >)
        ensures
            exists|draw: Draw| r == #[trigger] self.scatter_spec(*ray, *hit_record, draw),
    {
        self.scatter_with(ray, hit_record, fresh_draw())
    }
}

} // verus!
