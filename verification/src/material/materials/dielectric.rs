//! Clear materials such as glass and water.

use vstd::prelude::*;
use crate::hittable::hit_record::HitRecord;
use crate::material::material::Draw;
use crate::material::material::Material;
use crate::material::material::fresh_draw;
use crate::material::material_record::MaterialRecord;
use crate::ray::Ray;
use crate::scalar::Scalar;
use crate::scalar::lt;
use crate::scalar::less;
use crate::scalar::min_spec;
use crate::vec3::Vec3;

verus! {

/// A surface that lets light through, bending it, and mirrors some of it.
pub struct Dielectric<T> {
    pub index_of_refraction: T,
}

impl<T: Scalar> Dielectric<T> {
    /// The share of light that is mirrored rather than let through, by
    /// Schlick's approximation.
    pub open spec fn reflectance_spec(cosine: T, ref_idx: T) -> T {
        let r = T::one_spec().difference(ref_idx).quotient(T::one_spec().sum(ref_idx));
        let r0 = r.product(r);
        let c = T::one_spec().difference(cosine);
        r0.sum(T::one_spec().difference(r0).product(c.product(c).product(c).product(c).product(c)))
    }

    /// The ratio of the refractive indices on the two sides, as the ray
    /// meets them.
    pub open spec fn refraction_ratio(self, hit_record: HitRecord<T>) -> T {
        if hit_record.front_face {
            T::one_spec().quotient(self.index_of_refraction)
        } else {
            self.index_of_refraction
        }
    }

    pub open spec fn cos_theta(ray: Ray<T>, hit_record: HitRecord<T>) -> T {
        min_spec(
            ray.direction.unit_vector_spec().negation().dot_spec(hit_record.normal),
            T::one_spec(),
        )
    }

    /// Whether the ray is mirrored: either it meets the surface too flatly to
    /// pass, or the draw falls below the reflectance.
    pub open spec fn reflects(self, ray: Ray<T>, hit_record: HitRecord<T>, draw: Draw) -> bool {
        let ratio = self.refraction_ratio(hit_record);
        let cos_theta = Self::cos_theta(ray, hit_record);
        let sin_theta = T::one_spec().difference(cos_theta.product(cos_theta)).square_root();
        lt(T::one_spec(), ratio.product(sin_theta)) || lt(
            T::unit_sample_spec(draw.0),
            Self::reflectance_spec(cos_theta, ratio),
        )
    }

    /// The bounce that a given draw leads to. Glass takes no colour away and
    /// never absorbs.
    pub open spec fn scatter_spec(self, ray: Ray<T>, hit_record: HitRecord<T>, draw: Draw)
        -> Option<MaterialRecord<T>> {
        let unit_direction = ray.direction.unit_vector_spec();
        let direction = if self.reflects(ray, hit_record, draw) {
            unit_direction.reflect_spec(hit_record.normal)
        } else {
            unit_direction.refract_spec(hit_record.normal, self.refraction_ratio(hit_record))
        };
        Some(
            MaterialRecord {
                attenuation: Vec3(T::one_spec(), T::one_spec(), T::one_spec()),
                scattered: Ray { origin: hit_record.hit_location, direction },
            },
        )
    }

    pub fn new(index_of_refraction: T) -> (r: Self)
        ensures
            r.index_of_refraction == index_of_refraction,
    {
        Dielectric { index_of_refraction }
    }

    pub fn into(self) -> (r: Material<T>)
        ensures
            r == Material::Dielectric(self),
    {
        Material::Dielectric(self)
    }

    pub fn reflectance(cosine: T, ref_idx: T) -> (r: T)
        ensures
            r == Self::reflectance_spec(cosine, ref_idx),
    {
        let r = T::one().minus(ref_idx).over(T::one().plus(ref_idx));
        let r0 = r.times(r);
        let c = T::one().minus(cosine);
        r0.plus(T::one().minus(r0).times(c.times(c).times(c).times(c).times(c)))
    }

    /// The bounce for a given draw.
    pub fn scatter_with(&self, ray: &Ray<T>, hit_record: &HitRecord<T>, draw: Draw) -> (r: Option<
        MaterialRecord<T>,
    >)
        ensures
            r == self.scatter_spec(*ray, *hit_record, draw),
    {
        let attenuation = Vec3::new(T::one(), T::one(), T::one());
        let refraction_ratio = if hit_record.front_face {
            T::one().over(self.index_of_refraction)
        } else {
            self.index_of_refraction
        };
        let unit_direction = ray.direction.unit_vector();
        let cos_theta = crate::scalar::min(
            unit_direction.negated().dot(&hit_record.normal),
            T::one(),
        );
        let sin_theta = T::one().minus(cos_theta.times(cos_theta)).sqrt();
        let cannot_refract = less(T::one(), refraction_ratio.times(sin_theta));
        let direction = if cannot_refract || less(
            T::unit_sample(draw.0),
            Self::reflectance(cos_theta, refraction_ratio),
        ) {
            unit_direction.reflect(&hit_record.normal)
        } else {
            unit_direction.refract(&hit_record.normal, refraction_ratio)
        };
        let scattered = Ray::new(hit_record.hit_location, direction);
        Some(MaterialRecord { attenuation, scattered })
    }

    /// The bounce for a fresh random draw.
    pub fn scatter(&self, ray: &Ray<T>, hit_record: &HitRecord<T>) -> (r: Option<
        MaterialRecord<T>,
    >)
        ensures
            exists|draw: Draw| r == #[trigger] self.scatter_spec(*ray, *hit_record, draw),
    {
        self.scatter_with(ray, hit_record, fresh_draw())
    }
}

} // verus!
