//! Layout and texture-generation engine for color-theory visualizations.
//!
//! Three layout generators turn a nested color hierarchy and a viewport size
//! into draw instructions or a pixel buffer:
//!
//! - a ratio-driven grid of rectangular tiles, each fanned into triangles
//!   (`color_peaks`);
//! - concentric rings of equal-angle sectors (`hue_wheel`);
//! - a horizontal gradient rasterized into a row-major RGBA buffer
//!   (`gradients`).
//!
//! All geometry is exact fixed-point arithmetic; each module documents the
//! unit it measures lengths in.  Colors are plain values: either a named hue
//! or the components handed to a spherical HCL constructor.  Converting them
//! to display or linear-light form is the renderer's concern.

use vstd::prelude::*;

pub mod color;
pub mod color_peaks;
pub mod gradients;
pub mod hue_wheel;
pub mod scene;

verus! {

/// A precondition violation in a caller-supplied hierarchy or viewport.
///
/// All four kinds are deterministic: retrying the same call reproduces the
/// identical failure.
#[derive(Clone, Copy, Debug, PartialEq, Eq, Structural)]
pub enum LayoutError {
    /// A tile fan was given more than four colors.
    TooManyColors,
    /// A ring of the hue wheel holds no colors.
    EmptyRing,
    /// The gradient sampler returned fewer samples than the target width.
    GradientUnderrun,
    /// The hierarchy has fewer stages than the grid has cells.
    GridUnderflow,
}

} // verus!
