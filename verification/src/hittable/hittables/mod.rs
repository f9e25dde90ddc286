//! The shapes.

pub mod disk;
pub mod not_hittable;
pub mod plane;
pub mod sphere;

pub use disk::Disk;
pub use not_hittable::NotHittable;
pub use plane::Plane;
pub use sphere::Sphere;
