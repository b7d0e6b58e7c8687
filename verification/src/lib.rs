//! Core of an animated "digital rain" effect: a particle simulation of
//! falling glyph chains, a generator that turns the simulation state into
//! textured quads, and the decision rules that pace frames and recover a
//! presentation surface.
//!
//! All coordinates and intensities are carried as fixed-point integers:
//! pixel positions in thousandths of a pixel, device coordinates in
//! thousandths of the [-1, 1] range, colors in thousandths of full
//! intensity, and texture coordinates in millionths of the atlas extent.

pub mod glyph;
pub mod present;
pub mod rain;
pub mod randomness;
pub mod vertexgen;
