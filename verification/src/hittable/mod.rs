//! What a ray can strike, and the arithmetic of ranges and boxes under it.

pub mod agreement;
pub mod bounding_box;
pub mod bvh_node;
pub mod hit_record;
pub mod hittable;
pub mod hittables;
pub mod interval;
pub mod world;

pub use bounding_box::BoundingBox;
pub use bvh_node::BvhNode;
pub use hit_record::HitRecord;
pub use hittable::Hittable;
pub use interval::Interval;
