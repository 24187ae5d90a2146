//! Geometry core of a chart-plotting library.
//!
//! A chart description (axes, data series, visual theme) is turned into a
//! backend-agnostic list of drawing primitives positioned in pixel space.
//! All numeric quantities — data values, pixel coordinates, stroke widths —
//! are fixed-point numbers held in `i64` micro-units (one unit is split into
//! 1 000 000 micro-units), so every computation here is exact integer
//! arithmetic. Rendering adapters that need floating point live outside this
//! crate and divide by 10^6 at the boundary.

pub mod axis;
pub mod cartesian;
pub mod chart;
pub mod element;
pub mod fmt;
pub mod lttb;
pub mod num;
pub mod primitives;
pub mod renderer;
pub mod scale;
pub mod series;
pub mod theme;

use vstd::prelude::*;

verus! {

/// Micro-units per unit: every `i64` quantity in this crate counts
/// millionths of a unit (of a data value, or of a pixel).
pub const MICRO: i64 = 1_000_000;

/// Largest magnitude (in micro-units) a data value may have: 10^9 units.
/// Keeping values inside this bound lets every intermediate product of the
/// scale and projection arithmetic fit in an `i128` with room to spare.
pub const VAL_LIMIT: i64 = 1_000_000_000_000_000;

} // verus!
