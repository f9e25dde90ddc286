//! What surfaces are made of: how each turns an incoming ray into an
//! outgoing one.

pub mod material;
pub mod material_record;
pub mod materials;

pub use material::Material;
pub use material_record::MaterialRecord;
