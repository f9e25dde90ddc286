//! A pattern of cubes that alternates between two materials.

use vstd::prelude::*;
use crate::hittable::hit_record::HitRecord;
use crate::material::material::Draw;
use crate::material::material::Material;
use crate::material::material::fresh_draw;
use crate::material::material_record::MaterialRecord;
use crate::ray::Ray;
use crate::scalar::Scalar;
use crate::scalar::same;
use crate::scalar::alike;

verus! {

/// Not a surface of its own: it picks one of two materials by the place of
/// the hit, and lets that one scatter.
pub struct Checkerboard<T> {
    pub mat1: Box<Material<T>>,
    pub mat2: Box<Material<T>>,
    pub scale: T,
}

impl<T: Scalar> Checkerboard<T> {
    /// Whether a coordinate falls into an evenly numbered band of width
    /// `scale`: band number zero begins at zero, and the coordinate over the
    /// scale, rounded down, is the number of its band.
    pub open spec fn in_even_band(self, n: T) -> bool {
        same(n.quotient(self.scale).floor_spec().remainder(T::ratio_spec(2, 1)), T::zero_spec())
    }

    /// Whether the place of the hit belongs to the first material: the
    /// parities of its three bands, taken together, are odd.
    pub open spec fn picks_first(self, hit_record: HitRecord<T>) -> bool {
        self.in_even_band(hit_record.hit_location.0) ^ self.in_even_band(
            hit_record.hit_location.1,
        ) ^ self.in_even_band(hit_record.hit_location.2)
    }

    /// The bounce that a given draw leads to: that of the picked material.
    pub open spec fn scatter_spec(self, ray: Ray<T>, hit_record: HitRecord<T>, draw: Draw)
        -> Option<MaterialRecord<T>>
        decreases self,
    {
        if self.picks_first(hit_record) {
            self.mat1.scatter_spec(ray, hit_record, draw)
        } else {
            self.mat2.scatter_spec(ray, hit_record, draw)
        }
    }

    pub fn new(scale: T, mat1: Material<T>, mat2: Material<T>) -> (r: Self)
        ensures
            r.scale == scale,
            *r.mat1 == mat1,
            *r.mat2 == mat2,
    {
        Checkerboard { mat1: Box::new(mat1), mat2: Box::new(mat2), scale }
    }

    pub fn into(self) -> (r: Material<T>)
        ensures
            r == Material::Checkerboard(self),
    {
        Material::Checkerboard(self)
    }

    fn even_band(&self, n: T) -> (r: bool)
        ensures
            r == self.in_even_band(n),
    {
        alike(n.over(self.scale).floor().rem(T::ratio(2, 1)), T::zero())
    }

    /// Which material the place of a hit belongs to.
    pub fn pick(&self, hit_record: &HitRecord<T>) -> (r: &Material<T>)
        ensures
            *r == if self.picks_first(*hit_record) {
                *self.mat1
            } else {
                *self.mat2
            },
    {
        let x = self.even_band(hit_record.hit_location.x());
        let y = self.even_band(hit_record.hit_location.y());
        let z = self.even_band(hit_record.hit_location.z());
        if x ^ y ^ z {
            &*self.mat1
        } else {
            &*self.mat2
        }
    }

    /// The bounce for a given draw.
    pub fn scatter_with(&self, ray: &Ray<T>, hit_record: &HitRecord<T>, draw: Draw) -> (r: Option<
        MaterialRecord<T>,
    >)
        ensures
            r == self.scatter_spec(*ray, *hit_record, draw),
        decreases self,
    {
        self.pick(hit_record).scatter_with(ray, hit_record, draw)
    }

    /// The bounce for a fresh random draw.
    pub fn scatter(&self, ray: &Ray<T>, hit_record: &HitRecord<T>) -> (r: Option<
        MaterialRecord<T>,
    >)
        ensures
            exists|draw: Draw| r == #[trigger] self.scatter_spec(*ray, *hit_record, draw),
    {
        self.scatter_with(ray, hit_record, fresh_draw())
    }
}

} // verus!
