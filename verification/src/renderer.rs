//! Renderer handle. The core stops at the primitive list: output adapters
//! (a vector-markup writer, a GPU scene builder) live outside the crate and
//! consume [`crate::chart::Chart::generate_primitives`]. The handle here
//! only marks the boundary.

use vstd::prelude::*;

verus! {

/// Handle for a vector-markup renderer built on top of the primitive list.
#[derive(Debug, Clone, Copy, PartialEq, Eq, Structural)]
pub struct SvgRenderer;

impl SvgRenderer {
    pub fn new() -> (r: SvgRenderer)
        ensures
            r == SvgRenderer,
    {
        SvgRenderer
    }
}

impl Default for SvgRenderer {
    fn default() -> (r: Self)
        ensures
            r == SvgRenderer,
    {
        SvgRenderer::new()
    }
}

} // verus!
