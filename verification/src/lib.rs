//! Verified core of a herbarium-sheet image pipeline: border detection,
//! cropping, pixel transforms, normalization and feature-vector extraction.
//!
//! Raster data is modelled as an owned row-major grid of 8-bit RGBA pixels.
//! Resampling, contrast and grayscale conversion are delegated to the
//! `image` crate through a small set of trusted wrappers; everything else is
//! verified against the mathematical model in [`buffer`].

pub mod bands;
pub mod buffer;
pub mod detect;
pub mod error;
pub mod features;
pub mod grid;
pub mod metadata;
pub mod normalize;
pub mod ops;
pub mod pixel;
pub mod resample;
