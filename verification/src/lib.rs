//! Fractal image synthesis with a density acceptance loop.
//!
//! The crate renders two-tone escape-time images into an RGB raster, measures
//! the share of in-set pixels, decides whether a rendering is accepted, sizes
//! the noise block that pads an accepted file, names the files of a batch and
//! aggregates its outcomes, and keeps the small rules of the upload side:
//! content types, object keys, public URLs and the manifest of uploaded files.
//!
//! Floating-point evaluation of the escape-time iteration and every file or
//! network operation belong to the caller; the functions here take and return
//! plain values.

pub mod batch;
pub mod entropy;
pub mod ledger;
pub mod padding;
pub mod raster;
pub mod sampler;
pub mod synth;
pub mod text;
pub mod upload;
