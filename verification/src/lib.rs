//! Border-aware 2-D correlation of small kernels against raster images.
//!
//! An [`Image`](image::Image) is a dense row-major grid of 8-bit samples; a
//! [`Kernel`](kernel::Kernel) is a small matrix of rational weights. The
//! operator [`convolve`](engine::convolve) slides the kernel over the image and
//! writes, for every sample, the rounded and saturated weighted sum of its
//! neighbourhood, mirroring the image at its edges.
pub mod border;
pub mod error;
pub mod image;
pub mod kernel;
pub mod rounding;
pub mod engine;
pub mod catalog;
pub mod pipeline;
pub mod laws;
