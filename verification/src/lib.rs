//! A small path tracer whose geometry, acceleration structure, materials and
//! colour integration are stated and proved over an abstract scalar field.

pub mod camera;
pub mod fixed;
pub mod hittable;
pub mod image_encoder;
pub mod material;
mod random;
pub mod random_world;
pub mod ray;
pub mod render;
pub mod scalar;
pub mod vec3;

pub use camera::Camera;
pub use random_world::random_world;
pub use ray::Ray;
pub use render::render;
pub use render::RenderOptions;
pub use vec3::Colour;
pub use vec3::Point3;
pub use vec3::Vec3;
