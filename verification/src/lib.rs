//! CPU image-to-ASCII-art converter.
//!
//! The pipeline extracts a brightness field from a color image, finds edges
//! with a difference of Gaussians, estimates edge directions with a Sobel
//! operator, votes per 8x8 tile on a dominant direction, quantizes tile
//! brightness, chooses one glyph per tile position, and rasterizes the glyph
//! grid back into a color image.
//!
//! All stages work in fixed-point integer arithmetic so that every pixel of
//! the output is pinned down exactly by the contracts: standard deviations,
//! scale factors and thresholds are given in thousandths, Gaussian kernel
//! weights are carried at a scale of one billion, and gradient angles are
//! signed fractions of a half turn at a scale of ten thousand.

pub mod ascii;
pub mod buffer;
pub mod config;
pub mod edges;
pub mod filters;
pub mod fixed;
pub mod lut;
pub mod processor;

pub use config::AsciiConfig;
pub use processor::{process_image, process_image_preserve_colors};
