//! Where finished pictures go.

pub mod image_crate;
pub mod image_encoder;

pub use image_crate::ImageCrateEncoder;
pub use image_crate::ImageCrateRGBu8Encoder;
pub use image_encoder::ImageEncoder;
