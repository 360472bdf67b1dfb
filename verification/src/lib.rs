//! Particle-shape measurement over raster images: binarize a grayscale grid,
//! trace the closed boundary contours of every foreground region, measure each
//! contour's enclosed area by the shoelace line integral, and paint a
//! diagnostic overlay. A scaled-integer Gaussian sampling utility supports
//! distribution comparison.

pub mod contour;
pub mod distribution;
pub mod geometry;
pub mod grid;
pub mod overlay;
pub mod pipeline;
pub mod seq_sum;
pub mod trace;
