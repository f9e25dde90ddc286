//! The four kinds of surface.

pub mod checkerboard;
pub mod dielectric;
pub mod lambertian;
pub mod metal;

pub use checkerboard::Checkerboard;
pub use dielectric::Dielectric;
pub use lambertian::Lambertian;
pub use metal::Metal;
