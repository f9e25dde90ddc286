//! The outcome of a ray being scattered.

use vstd::prelude::*;
use crate::ray::Ray;
use crate::vec3::Colour;

verus! {

#[derive(Debug, PartialEq)]
pub struct MaterialRecord<T> {
    /// How much of each colour survives the bounce.
    pub attenuation: Colour<T>,
    /// Where the light goes on.
    pub scattered: Ray<T>,
}

} // verus!
