//! Plot geometry elements: the pixel canvas, the margins around the plot
//! area, and the offsets they resolve to. All lengths are micro-pixels.

use vstd::prelude::*;
use vstd::arithmetic::div_mod::{lemma_fundamental_div_mod, lemma_mod_bound};

verus! {

/// Largest magnitude (in micro-pixels) of any pixel coordinate or length:
/// one million pixels.
pub const PIX_LIMIT: i64 = 1_000_000_000_000;

/// The pixel canvas a chart renders into; immutable per render.
#[derive(Debug, Clone, Copy, PartialEq, Eq, Structural)]
pub struct PlotSize {
    pub width: i64,
    pub height: i64,
}

impl PlotSize {
    pub open spec fn wf(self) -> bool {
        0 < self.width <= PIX_LIMIT && 0 < self.height <= PIX_LIMIT
    }
}

impl Default for PlotSize {
    /// A thousand-pixel square canvas.
    fn default() -> (r: Self)
        ensures
            r == (PlotSize { width: 1_000_000_000i64, height: 1_000_000_000i64 }),
    {
        PlotSize { width: 1_000_000_000, height: 1_000_000_000 }
    }
}

/// One margin: absolute micro-pixels, or micro-percent of the corresponding
/// canvas dimension (ten percent is 10_000_000).
#[derive(Debug, Clone, Copy, PartialEq, Eq, Structural)]
pub enum MarginType {
    Pixel(i64),
    Percentage(i64),
}

impl MarginType {
    pub open spec fn wf(self) -> bool {
        match self {
            MarginType::Pixel(p) => 0 <= p <= PIX_LIMIT,
            MarginType::Percentage(p) => 0 <= p <= 100_000_000,
        }
    }
}

/// The margins around the plot area, one per side.
#[derive(Debug, Clone, Copy, PartialEq, Eq, Structural)]
pub struct Margins {
    pub left: MarginType,
    pub top: MarginType,
    pub right: MarginType,
    pub bottom: MarginType,
}

impl Margins {
    pub open spec fn wf(self) -> bool {
        self.left.wf() && self.top.wf() && self.right.wf() && self.bottom.wf()
    }
}

impl Default for Margins {
    /// Ten percent to the left and right, sixty pixels above and below.
    fn default() -> (r: Self)
        ensures
            r == (Margins {
                left: MarginType::Percentage(10_000_000i64),
                top: MarginType::Pixel(60_000_000i64),
                right: MarginType::Percentage(10_000_000i64),
                bottom: MarginType::Pixel(60_000_000i64),
            }),
    {
        Margins {
            left: MarginType::Percentage(10_000_000),
            top: MarginType::Pixel(60_000_000),
            right: MarginType::Percentage(10_000_000),
            bottom: MarginType::Pixel(60_000_000),
        }
    }
}

/// Micro-pixels a margin resolves to at the near edge of a dimension of
/// length `dim`.
pub open spec fn margin_px(m: MarginType, dim: int) -> int {
    match m {
        MarginType::Pixel(p) => p as int,
        MarginType::Percentage(p) => dim * p / 100_000_000,
    }
}

/// Resolved offsets of the plot area inside the canvas: for each dimension
/// the start edge, the end edge and the span between them. For the vertical
/// dimension the start is the top edge (pixel y grows downward).
#[derive(Debug, Clone, Copy, PartialEq, Eq, Structural)]
pub struct Offsets {
    pub x_axis_start: i64,
    pub x_axis_end: i64,
    pub x_span: i64,
    pub y_axis_start: i64,
    pub y_axis_end: i64,
    pub y_span: i64,
}

impl Offsets {
    /// Every field bounded, and spans consistent with the edges. A span may
    /// still be zero or negative: degenerate margins are a configuration
    /// error that the engine reports, not a value this type rules out.
    pub open spec fn wf(self) -> bool {
        &&& -2 * PIX_LIMIT <= self.x_axis_start <= 2 * PIX_LIMIT
        &&& -2 * PIX_LIMIT <= self.x_axis_end <= 2 * PIX_LIMIT
        &&& -2 * PIX_LIMIT <= self.y_axis_start <= 2 * PIX_LIMIT
        &&& -2 * PIX_LIMIT <= self.y_axis_end <= 2 * PIX_LIMIT
        &&& self.x_span == self.x_axis_end - self.x_axis_start
        &&& self.y_span == self.y_axis_end - self.y_axis_start
    }
}

/// Resolve a margin against a dimension length.
fn resolve_margin(m: &MarginType, dim: i64) -> (r: i64)
    requires
        m.wf(),
        0 < dim <= PIX_LIMIT,
    ensures
        r == margin_px(*m, dim as int),
        0 <= r <= PIX_LIMIT,
{
    match m {
        MarginType::Pixel(p) => *p,
        MarginType::Percentage(p) => {
            proof {
                assert(0 <= dim * (*p as int) <= 100_000_000_000_000_000_000) by (nonlinear_arith)
                    requires
                        0 < dim <= PIX_LIMIT,
                        0 <= *p as int <= 100_000_000,
                ;
            }
            let num: u128 = (dim as u128) * (*p as u128);
            let q: u128 = num / 100_000_000;
            proof {
                lemma_fundamental_div_mod(num as int, 100_000_000);
                lemma_mod_bound(num as int, 100_000_000);
                let qi = num as int / 100_000_000int;
                assert(qi * 100_000_000 <= num as int);
                assert(dim * (*p as int) <= dim * 100_000_000) by (nonlinear_arith)
                    requires
                        0 <= *p as int <= 100_000_000,
                        dim > 0,
                ;
                assert(qi <= dim) by (nonlinear_arith)
                    requires
                        qi * 100_000_000 <= dim * 100_000_000,
                ;
            }
            q as i64
        },
    }
}

impl Offsets {
    /// Convert margins into plot-area offsets, once per render.
    pub fn from_margin(plot_size: &PlotSize, margins: &Margins) -> (r: Offsets)
        requires
            plot_size.wf(),
            margins.wf(),
        ensures
            r.wf(),
            r.x_axis_start == margin_px(margins.left, plot_size.width as int),
            r.x_axis_end == plot_size.width - margin_px(margins.right, plot_size.width as int),
            r.y_axis_start == margin_px(margins.top, plot_size.height as int),
            r.y_axis_end == plot_size.height - margin_px(
                margins.bottom,
                plot_size.height as int,
            ),
            r.x_span == r.x_axis_end - r.x_axis_start,
            r.y_span == r.y_axis_end - r.y_axis_start,
    {
        let x_axis_start = resolve_margin(&margins.left, plot_size.width);
        let x_axis_end = plot_size.width - resolve_margin(&margins.right, plot_size.width);
        let x_span = x_axis_end - x_axis_start;
        let y_axis_start = resolve_margin(&margins.top, plot_size.height);
        let y_axis_end = plot_size.height - resolve_margin(&margins.bottom, plot_size.height);
        let y_span = y_axis_end - y_axis_start;
        Offsets { x_axis_start, x_axis_end, x_span, y_axis_start, y_axis_end, y_span }
    }
}

} // verus!
