//! In-place box blur over packed RGBA pixel buffers.
//!
//! A buffer holds `width * height` pixels in row-major order, four bytes per
//! pixel (red, green, blue, alpha). Each output sample is the truncated mean
//! of the same channel over the square window of side `2 * radius + 1`
//! centred on the pixel, counting only the neighbours that lie inside the
//! image.

pub mod filter;
pub mod laws;
pub mod model;

pub use filter::{blur, blur_checked, BlurError};
