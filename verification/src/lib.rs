//! A billboard-based splat scene renderer.
//!
//! The library decodes a fixed-width binary splat format, projects splats
//! through a camera pipeline, depth-orders them back to front and
//! alpha-composites square billboards into an RGBA frame buffer under a
//! lazy-recompute discipline.
//!
//! Floating-point values (splat positions and scales, camera parameters)
//! are carried as their IEEE 754 single-precision bit patterns in `u32`
//! fields; the arithmetic on them is performed by the embedding
//! application, while all byte-level, pixel-level and state-machine logic
//! lives here.

pub mod compositing;
pub mod configuration;
pub mod renderer;
pub mod scene;
pub mod splat_decoder;
pub mod vector_text;

use vstd::prelude::*;

verus! {

/// Default width of the render window / canvas, in pixels.
pub const DEFAULT_WINDOW_WIDTH: u32 = 720;

/// Default height of the render window / canvas, in pixels.
pub const DEFAULT_WINDOW_HEIGHT: u32 = 720;

} // verus!
