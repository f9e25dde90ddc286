//! The materials, as one closed family.

use vstd::prelude::*;
use crate::hittable::hit_record::HitRecord;
use crate::material::material_record::MaterialRecord;
use crate::material::materials::checkerboard::Checkerboard;
use crate::material::materials::dielectric::Dielectric;
use crate::material::materials::lambertian::Lambertian;
use crate::material::materials::metal::Metal;
use crate::random::random_bits;
use crate::ray::Ray;
use crate::scalar::Scalar;

verus! {

/// Four blocks of random bits: what one scattering may consume.
pub type Draw = (u64, u64, u64, u64);

/// A draw from the random source.
pub(crate) fn fresh_draw() -> Draw {
    (random_bits(), random_bits(), random_bits(), random_bits())
}

/// What a surface is made of. A material either absorbs a ray or sends it on.
pub enum Material<T> {
    Lambertian(Lambertian<T>),
    Metal(Metal<T>),
    Dielectric(Dielectric<T>),
    Checkerboard(Checkerboard<T>),
}

impl<T: Scalar> Material<T> {
    /// The bounce that a given draw leads to, or nothing where the ray is
    /// absorbed.
    pub open spec fn scatter_spec(self, ray: Ray<T>, hit_record: HitRecord<T>, draw: Draw)
        -> Option<MaterialRecord<T>>
        decreases self,
    {
        match self {
            Material::Lambertian(m) => m.scatter_spec(hit_record, draw),
            Material::Metal(m) => m.scatter_spec(ray, hit_record, draw),
            Material::Dielectric(m) => m.scatter_spec(ray, hit_record, draw),
            Material::Checkerboard(m) => m.scatter_spec(ray, hit_record, draw),
        }
    }

    /// The bounce for a given draw.
    pub fn scatter_with(&self, ray: &Ray<T>, hit_record: &HitRecord<T>, draw: Draw) -> (r: Option<
        MaterialRecord<T>,
    >)
        ensures
            r == self.scatter_spec(*ray, *hit_record, draw),
        decreases self,
    {
        match self {
            Material::Lambertian(m) => m.scatter_with(hit_record, draw),
            Material::Metal(m) => m.scatter_with(ray, hit_record, draw),
            Material::Dielectric(m) => m.scatter_with(ray, hit_record, draw),
            Material::Checkerboard(m) => m.scatter_with(ray, hit_record, draw),
        }
    }

    /// The bounce for a fresh random draw.
    pub fn scatter(&self, ray: &Ray<T>, hit_record: &HitRecord<T>) -> (r: Option<
        MaterialRecord<T>,
    >)
        ensures
            exists|draw: Draw| r == #[trigger] self.scatter_spec(*ray, *hit_record, draw),
    {
        self.scatter_with(ray, hit_record, fresh_draw())
    }
}

} // verus!
