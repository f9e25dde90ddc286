//! Matte surfaces.

use vstd::prelude::*;
use crate::hittable::hit_record::HitRecord;
use crate::material::material::Draw;
use crate::material::material::Material;
use crate::material::material::fresh_draw;
use crate::material::material_record::MaterialRecord;
use crate::ray::Ray;
use crate::scalar::Scalar;
use crate::vec3::Colour;
use crate::vec3::Vec3;

verus! {

/// A surface that sends light on in a random direction about the normal.
pub struct Lambertian<T> {
    pub albedo: Colour<T>,
}

impl<T: Scalar> Lambertian<T> {
    /// The bounce that a given draw leads to: from the place of the hit,
    /// along the normal plus the unit vector of the draw, tinted by the
    /// albedo. A matte surface never absorbs.
    pub open spec fn scatter_spec(self, hit_record: HitRecord<T>, draw: Draw) -> Option<
        MaterialRecord<T>,
    > {
        Some(
            MaterialRecord {
                attenuation: self.albedo,
                scattered: Ray {
                    origin: hit_record.hit_location,
                    direction: hit_record.normal.sum(
                        Vec3::<T>::in_unit_sphere_spec(draw).unit_vector_spec(),
                    ),
                },
            },
        )
    }

    pub fn new(albedo: Colour<T>) -> (r: Self)
        ensures
            r.albedo == albedo,
    {
        Lambertian { albedo }
    }

    pub fn into(self) -> (r: Material<T>)
        ensures
            r == Material::Lambertian(self),
    {
        Material::Lambertian(self)
    }

    /// The bounce for a given draw.
    pub fn scatter_with(&self, hit_record: &HitRecord<T>, draw: Draw) -> (r: Option<
        MaterialRecord<T>,
    >)
        ensures
            r == self.scatter_spec(*hit_record, draw),
    {
        let scatter_direction = hit_record.normal.plus(
            Vec3::<T>::in_unit_sphere(draw).unit_vector(),
        );
        let scattered = Ray::new(hit_record.hit_location, scatter_direction);
        Some(MaterialRecord { attenuation: self.albedo, scattered })
    }

    /// The bounce for a fresh random draw.
    pub fn scatter(&self, ray: &Ray<T>, hit_record: &HitRecord<T>) -> (r: Option<
        MaterialRecord<T>,
    >)
        ensures
            exists|draw: Draw| r == #[trigger] self.scatter_spec(*hit_record, draw),
    {
        self.scatter_with(hit_record, fresh_draw())
    }
}

} // verus!
