//! Verified core of an aerial tarp segmenter.
//!
//! An aerial photograph is held as a [`PixelGrid`]. The library scales it
//! down, lays its pixels out as a table of position-and-colour rows for a
//! density-based clustering step, and, given one cluster label per row,
//! paints the classified picture and counts the pixels that belong to the
//! tarp.
//!
//! Clustering itself and the conversion of a pixel count into square metres
//! work on floating-point numbers and live with the caller.

pub mod classify;
pub mod color;
pub mod features;
pub mod grid;
pub mod raster;
pub mod resample;

pub use classify::{
    classify_label, classify_pixels, paint, Classification, Segmentation, UnexpectedPixel,
};
pub use color::Rgba8;
pub use features::{feature_matrix, FeatureRow};
pub use grid::{GridModel, PixelGrid};
pub use resample::{downscale, MAX_DIMENSION};
