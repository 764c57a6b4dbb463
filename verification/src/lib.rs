//! Procedural images of planets and stars.
//!
//! A body is grown from a seed: a palette of elevations and colors is
//! stretched into a banded gradient, an elevation field is laid over the
//! disc of the body, and every pixel of the image takes the color that its
//! elevation resolves to, darkened by the light of a star.
//!
//! The library computes in integers throughout: lengths are counted in
//! meters and fractions in millionths.  What needs floating point, the
//! transfer curve of a color space and the samples of coherent noise, is
//! handed in as tables of integers.

pub mod cli;
pub mod coloring;
pub mod curve;
pub mod disc;
pub mod editor;
pub mod elevation;
pub mod gradient;
pub mod lighting;
pub mod numeric;
pub mod planet;
pub mod random;
pub mod raster;
pub mod sorting;
pub mod terrain;
pub mod terrain_point;
pub mod types;

pub use crate::coloring::ElevationColor;
pub use crate::lighting::Light;
pub use crate::planet::Planet;
pub use crate::terrain::Terrain;
pub use crate::types::Kilometers;
