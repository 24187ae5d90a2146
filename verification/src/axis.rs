//! Axis models: a category axis owns an ordered list of labels, a value
//! axis is resolved against the data of the series bound to it. Each axis
//! draws four kinds of furniture — split lines, ticks, labels and the axis
//! line itself — and every visual property falls back to the theme default
//! for its axis kind, independently per property.
//!
//! Geometry conventions (pixel y grows downward): the first axis of a kind
//! sits at the `Start` side — the bottom edge for an X axis, the left edge
//! for a Y axis — with even-indexed axes at `Start` and odd ones at `End`
//! unless a position is set explicitly. Stacked axes on one side move
//! outward (away from the plot area) by the resolved offset.

use vstd::prelude::*;
use crate::element::{Offsets, PIX_LIMIT};
use crate::primitives::{Alignment, Brush, Point, Primitives, PrimV, Stroke, TextV};
use crate::primitives::{prims_view, lemma_prims_view_push};
use crate::theme::{spec_resolve, resolve, Theme};
use crate::scale::ScaleResult;
use vstd::arithmetic::div_mod::{lemma_fundamental_div_mod, lemma_mod_bound};

verus! {

/// Most axes of one kind a chart may hold.
pub const MAX_AXES: usize = 1_000;

/// Most labels a category axis may hold.
pub const MAX_LABELS: usize = 1_000_000;

/// Which chart dimension an axis spans.
#[derive(Debug, Clone, Copy, PartialEq, Eq, Structural)]
pub enum AxisType {
    XAxis,
    YAxis,
}

/// Which side of the plot an axis sits on: `Start` is the bottom edge for
/// an X axis and the left edge for a Y axis.
#[derive(Debug, Clone, Copy, PartialEq, Eq, Structural)]
pub enum AxisPosition {
    Start,
    End,
}

/// A category axis: an ordered, non-empty list of labels, and per-property
/// visual overrides.
#[derive(Debug, Clone)]
pub struct CategoryAxis {
    pub axis_show: Option<bool>,
    pub axis_stroke: Option<Stroke>,
    pub axis_color: Option<Brush>,
    pub axis_position: Option<AxisPosition>,
    pub axis_offset: Option<i64>,
    pub axis_auto_offset: Option<i64>,
    pub ticks_show: Option<bool>,
    pub ticks_length: Option<i64>,
    pub ticks_stroke: Option<Stroke>,
    pub ticks_color: Option<Brush>,
    pub split_lines_show: Option<bool>,
    pub split_lines_color: Option<Brush>,
    pub split_lines_stroke: Option<Stroke>,
    pub labels_show: Option<bool>,
    pub labels_margin: Option<i64>,
    pub labels_color: Option<Brush>,
    pub labels_font_size: Option<i64>,
    pub labels_alignment: Option<Alignment>,
    pub labels_rotation: Option<i64>,
    pub data: Vec<String>,
}

/// A value axis: no data of its own, only visual overrides; its scale is
/// resolved from the series bound to it.
#[derive(Debug, Clone)]
pub struct ValueAxis {
    pub axis_show: Option<bool>,
    pub axis_stroke: Option<Stroke>,
    pub axis_color: Option<Brush>,
    pub axis_position: Option<AxisPosition>,
    pub axis_offset: Option<i64>,
    pub axis_auto_offset: Option<i64>,
    pub ticks_show: Option<bool>,
    pub ticks_length: Option<i64>,
    pub ticks_stroke: Option<Stroke>,
    pub ticks_color: Option<Brush>,
    pub split_lines_show: Option<bool>,
    pub split_lines_color: Option<Brush>,
    pub split_lines_stroke: Option<Stroke>,
    pub labels_show: Option<bool>,
    pub labels_margin: Option<i64>,
    pub labels_color: Option<Brush>,
    pub labels_font_size: Option<i64>,
    pub labels_alignment: Option<Alignment>,
    pub labels_rotation: Option<i64>,
}

/// One or more axes of a single kind for one chart dimension.
#[derive(Debug, Clone)]
pub enum CartesianAxis {
    Category(Vec<CategoryAxis>),
    Value(Vec<ValueAxis>),
}

/// Bounded numeric overrides, so position sums stay well inside an `i64`.
pub open spec fn axis_overrides_wf(
    axis_offset: Option<i64>,
    axis_auto_offset: Option<i64>,
    ticks_length: Option<i64>,
    labels_margin: Option<i64>,
    labels_font_size: Option<i64>,
) -> bool {
    &&& match axis_offset {
        Some(v) => -PIX_LIMIT <= v <= PIX_LIMIT,
        None => true,
    }
    &&& match axis_auto_offset {
        Some(v) => 0 <= v <= PIX_LIMIT,
        None => true,
    }
    &&& match ticks_length {
        Some(v) => 0 <= v <= PIX_LIMIT,
        None => true,
    }
    &&& match labels_margin {
        Some(v) => 0 <= v <= PIX_LIMIT,
        None => true,
    }
    &&& match labels_font_size {
        Some(v) => 0 <= v <= PIX_LIMIT,
        None => true,
    }
}

impl CategoryAxis {
    pub open spec fn wf(self) -> bool {
        &&& axis_overrides_wf(
            self.axis_offset,
            self.axis_auto_offset,
            self.ticks_length,
            self.labels_margin,
            self.labels_font_size,
        )
        &&& 1 <= self.data.len() <= MAX_LABELS
    }

    /// A bare category axis over the given labels; every visual property
    /// falls back to the theme.
    pub fn new(data: Vec<String>) -> (r: CategoryAxis)
        ensures
            r.data == data,
            r.axis_show is None,
            r.axis_stroke is None,
            r.axis_color is None,
            r.axis_position is None,
            r.axis_offset is None,
            r.axis_auto_offset is None,
            r.ticks_show is None,
            r.ticks_length is None,
            r.ticks_stroke is None,
            r.ticks_color is None,
            r.split_lines_show is None,
            r.split_lines_color is None,
            r.split_lines_stroke is None,
            r.labels_show is None,
            r.labels_margin is None,
            r.labels_color is None,
            r.labels_font_size is None,
            r.labels_alignment is None,
            r.labels_rotation is None,
    {
        CategoryAxis {
            axis_show: None,
            axis_stroke: None,
            axis_color: None,
            axis_position: None,
            axis_offset: None,
            axis_auto_offset: None,
            ticks_show: None,
            ticks_length: None,
            ticks_stroke: None,
            ticks_color: None,
            split_lines_show: None,
            split_lines_color: None,
            split_lines_stroke: None,
            labels_show: None,
            labels_margin: None,
            labels_color: None,
            labels_font_size: None,
            labels_alignment: None,
            labels_rotation: None,
            data,
        }
    }
}

impl ValueAxis {
    pub open spec fn wf(self) -> bool {
        axis_overrides_wf(
            self.axis_offset,
            self.axis_auto_offset,
            self.ticks_length,
            self.labels_margin,
            self.labels_font_size,
        )
    }

    /// A bare value axis; every visual property falls back to the theme.
    pub fn new() -> (r: ValueAxis)
        ensures
            r.axis_show is None,
            r.axis_stroke is None,
            r.axis_color is None,
            r.axis_position is None,
            r.axis_offset is None,
            r.axis_auto_offset is None,
            r.ticks_show is None,
            r.ticks_length is None,
            r.ticks_stroke is None,
            r.ticks_color is None,
            r.split_lines_show is None,
            r.split_lines_color is None,
            r.split_lines_stroke is None,
            r.labels_show is None,
            r.labels_margin is None,
            r.labels_color is None,
            r.labels_font_size is None,
            r.labels_alignment is None,
            r.labels_rotation is None,
    {
        ValueAxis {
            axis_show: None,
            axis_stroke: None,
            axis_color: None,
            axis_position: None,
            axis_offset: None,
            axis_auto_offset: None,
            ticks_show: None,
            ticks_length: None,
            ticks_stroke: None,
            ticks_color: None,
            split_lines_show: None,
            split_lines_color: None,
            split_lines_stroke: None,
            labels_show: None,
            labels_margin: None,
            labels_color: None,
            labels_font_size: None,
            labels_alignment: None,
            labels_rotation: None,
        }
    }
}

impl Default for ValueAxis {
    fn default() -> (r: Self)
        ensures
            r.axis_show is None,
            r.axis_stroke is None,
            r.axis_color is None,
            r.axis_position is None,
            r.axis_offset is None,
            r.axis_auto_offset is None,
            r.ticks_show is None,
            r.ticks_length is None,
            r.ticks_stroke is None,
            r.ticks_color is None,
            r.split_lines_show is None,
            r.split_lines_color is None,
            r.split_lines_stroke is None,
            r.labels_show is None,
            r.labels_margin is None,
            r.labels_color is None,
            r.labels_font_size is None,
            r.labels_alignment is None,
            r.labels_rotation is None,
    {
        ValueAxis::new()
    }
}

/// Category-dimension descriptor handed to the series projector: how many
/// buckets the dimension is split into.
#[derive(Debug, Clone, Copy, PartialEq, Eq, Structural)]
pub struct AxisCategoryHelper {
    pub amount: usize,
}

impl AxisCategoryHelper {
    pub open spec fn wf(self) -> bool {
        1 <= self.amount <= MAX_LABELS
    }
}

/// Value-dimension descriptor handed to the series projector: the resolved
/// scale.
#[derive(Debug, Clone, Copy, PartialEq, Eq, Structural)]
pub struct AxisValuesHelper {
    pub scale: ScaleResult,
}

impl AxisValuesHelper {
    pub open spec fn wf(self) -> bool {
        &&& self.scale.wf()
        &&& -10_000_000_000_000_000_000_000 <= self.scale.min_n()
        &&& self.scale.max_n() <= 10_000_000_000_000_000_000_000
        &&& self.scale.min_n() < self.scale.max_n()
    }
}

/// A resolved chart dimension: category buckets or a value scale.
#[derive(Debug, Clone, Copy, PartialEq, Eq, Structural)]
pub enum AxisHelper {
    Category(AxisCategoryHelper),
    Values(AxisValuesHelper),
}

impl AxisHelper {
    pub open spec fn wf(self) -> bool {
        match self {
            AxisHelper::Category(h) => h.wf(),
            AxisHelper::Values(h) => h.wf(),
        }
    }
}

/// Side an axis resolves to: explicit, or by index parity.
pub open spec fn spec_axis_position(explicit: Option<AxisPosition>, index: int) -> AxisPosition {
    match explicit {
        Some(p) => p,
        None => if index % 2 == 0 {
            AxisPosition::Start
        } else {
            AxisPosition::End
        },
    }
}

/// Signed offset an axis resolves to: the explicit offset or
/// `(index / 2) * auto_offset`, negated on the `End` side. The sign is an
/// outward magnitude; where it is applied decides the direction on the
/// canvas.
pub open spec fn spec_axis_offset(
    explicit: Option<i64>,
    auto: int,
    index: int,
    pos: AxisPosition,
) -> int {
    let mag = match explicit {
        Some(o) => o as int,
        None => (index / 2) * auto,
    };
    match pos {
        AxisPosition::Start => mag,
        AxisPosition::End => -mag,
    }
}

/// Resolve a side from an explicit choice and the axis index.
pub fn get_axis_position(explicit: &Option<AxisPosition>, index: usize) -> (r: AxisPosition)
    ensures
        r == spec_axis_position(*explicit, index as int),
{
    match explicit {
        Some(p) => *p,
        None => if index % 2 == 0 {
            AxisPosition::Start
        } else {
            AxisPosition::End
        },
    }
}

/// Resolve the signed axis offset.
pub fn get_axis_offset(
    explicit: &Option<i64>,
    auto: i64,
    index: usize,
    position: AxisPosition,
) -> (r: i64)
    requires
        index <= MAX_AXES,
        0 <= auto <= PIX_LIMIT,
        match *explicit {
            Some(o) => -PIX_LIMIT <= o <= PIX_LIMIT,
            None => true,
        },
    ensures
        r == spec_axis_offset(*explicit, auto as int, index as int, position),
        -1_000_000_000_000_000 <= r <= 1_000_000_000_000_000,
{
    let mag: i64 = match explicit {
        Some(o) => *o,
        None => {
            proof {
                lemma_fundamental_div_mod(index as int, 2);
                lemma_mod_bound(index as int, 2);
                assert(0 <= (index as int / 2) * auto <= 500 * PIX_LIMIT) by (nonlinear_arith)
                    requires
                        0 <= index as int / 2 <= 500,
                        0 <= auto <= PIX_LIMIT,
                ;
            }
            (index / 2) as i64 * auto
        },
    };
    match position {
        AxisPosition::Start => mag,
        AxisPosition::End => -mag,
    }
}

/// The cross-dimension coordinate of an axis line: the edge picked by the
/// side, pushed outward by the signed offset.
pub open spec fn axis_line_cross(at: AxisType, pos: AxisPosition, off: Offsets, delta: int) -> int {
    match at {
        AxisType::XAxis => match pos {
            AxisPosition::Start => off.y_axis_end + delta,
            AxisPosition::End => off.y_axis_start + delta,
        },
        AxisType::YAxis => match pos {
            AxisPosition::Start => off.x_axis_start - delta,
            AxisPosition::End => off.x_axis_end - delta,
        },
    }
}

/// Unit step pointing away from the plot area, in the cross dimension.
pub open spec fn outward_sign(at: AxisType, pos: AxisPosition) -> int {
    match at {
        AxisType::XAxis => match pos {
            AxisPosition::Start => 1,
            AxisPosition::End => -1,
        },
        AxisType::YAxis => match pos {
            AxisPosition::Start => -1,
            AxisPosition::End => 1,
        },
    }
}

/// Position along the axis dimension at the exact fraction `num / den` of
/// the span: measured from the left edge for X, upward from the bottom edge
/// for Y.
pub open spec fn axis_frac_pos(at: AxisType, off: Offsets, num: int, den: int) -> int {
    match at {
        AxisType::XAxis => off.x_axis_start + num * off.x_span / den,
        AxisType::YAxis => off.y_axis_end - num * off.y_span / den,
    }
}

/// A point from an along-dimension and a cross-dimension coordinate.
pub open spec fn dim_point(at: AxisType, along: int, cross: int) -> Point {
    match at {
        AxisType::XAxis => Point { x: along as i64, y: cross as i64 },
        AxisType::YAxis => Point { x: cross as i64, y: along as i64 },
    }
}

/// Exec twin of [`axis_frac_pos`].
pub fn frac_pos(at: &AxisType, off: &Offsets, num: u64, den: u64) -> (r: i64)
    requires
        off.wf(),
        match *at {
            AxisType::XAxis => off.x_span >= 1,
            AxisType::YAxis => off.y_span >= 1,
        },
        1 <= den,
        num <= den,
        den <= 4_000_000_000_000,
    ensures
        r == axis_frac_pos(*at, *off, num as int, den as int),
        -6 * PIX_LIMIT <= r <= 6 * PIX_LIMIT,
{
    let span: i64 = match at {
        AxisType::XAxis => off.x_span,
        AxisType::YAxis => off.y_span,
    };
    proof {
        assert(0 <= (num as int) * (span as int) <= 4_000_000_000_000 * (4 * PIX_LIMIT as int))
            by (nonlinear_arith)
            requires
                0 <= num <= 4_000_000_000_000,
                1 <= span <= 4 * PIX_LIMIT as int,
        ;
    }
    let prod: u128 = (num as u128) * (span as u128);
    let q: u128 = prod / (den as u128);
    proof {
        lemma_fundamental_div_mod(prod as int, den as int);
        lemma_mod_bound(prod as int, den as int);
        let qi = prod as int / den as int;
        assert((num as int) * (span as int) <= (den as int) * (span as int)) by (nonlinear_arith)
            requires
                num <= den,
                span >= 0,
        ;
        assert(qi <= span) by (nonlinear_arith)
            requires
                qi * (den as int) <= (den as int) * (span as int),
                den as int >= 1,
        ;
    }
    let frac: i64 = q as i64;
    match at {
        AxisType::XAxis => off.x_axis_start + frac,
        AxisType::YAxis => off.y_axis_end - frac,
    }
}

/// Start of the opposite dimension (the top edge for ticks of a Y axis,
/// the left edge for an X axis).
pub open spec fn opp_start(at: AxisType, off: Offsets) -> int {
    match at {
        AxisType::XAxis => off.y_axis_start as int,
        AxisType::YAxis => off.x_axis_start as int,
    }
}

/// End of the opposite dimension.
pub open spec fn opp_end(at: AxisType, off: Offsets) -> int {
    match at {
        AxisType::XAxis => off.y_axis_end as int,
        AxisType::YAxis => off.x_axis_end as int,
    }
}

/// The tick lines of an axis whose dimension is split into `den` equal
/// parts: one perpendicular tick per boundary, from the axis line at
/// `cross` to `tip`.
pub open spec fn ticks_prims(
    stroke: Stroke,
    color: Brush,
    at: AxisType,
    off: Offsets,
    den: int,
    cross: int,
    tip: int,
) -> Seq<PrimV> {
    Seq::new(
        (den + 1) as nat,
        |i: int|
            PrimV::Line(
                crate::primitives::Line {
                    stroke,
                    stroke_color: color,
                    coords: (
                        dim_point(at, axis_frac_pos(at, off, i, den), cross),
                        dim_point(at, axis_frac_pos(at, off, i, den), tip),
                    ),
                },
            ),
    )
}

/// The split (grid) lines of an axis whose dimension is split into `den`
/// equal parts: one full-span line of the opposite dimension per boundary.
pub open spec fn split_prims(
    stroke: Stroke,
    color: Brush,
    at: AxisType,
    off: Offsets,
    den: int,
) -> Seq<PrimV> {
    Seq::new(
        (den + 1) as nat,
        |i: int|
            PrimV::Line(
                crate::primitives::Line {
                    stroke,
                    stroke_color: color,
                    coords: (
                        dim_point(at, axis_frac_pos(at, off, i, den), opp_start(at, off)),
                        dim_point(at, axis_frac_pos(at, off, i, den), opp_end(at, off)),
                    ),
                },
            ),
    )
}

/// The axis line itself: one line spanning the opposite dimension's full
/// span at the cross coordinate.
pub open spec fn axis_line_prims(
    stroke: Stroke,
    color: Brush,
    at: AxisType,
    off: Offsets,
    cross: int,
) -> Seq<PrimV> {
    seq![
        PrimV::Line(
            crate::primitives::Line {
                stroke,
                stroke_color: color,
                coords: (
                    dim_point(at, axis_frac_pos(at, off, 0, 1), cross),
                    dim_point(at, axis_frac_pos(at, off, 1, 1), cross),
                ),
            },
        ),
    ]
}

/// Spans positive and every coordinate bounded: what the drawing loops
/// need of the plot offsets.
pub open spec fn offsets_drawable(off: Offsets) -> bool {
    off.wf() && off.x_span >= 1 && off.y_span >= 1
}

/// Push one boundary-aligned perpendicular line per division boundary.
fn draw_ticks_generic(
    stroke: Stroke,
    color: Brush,
    at: &AxisType,
    off: &Offsets,
    den: usize,
    cross: i64,
    tip: i64,
    primitives: &mut Vec<Primitives>,
)
    requires
        offsets_drawable(*off),
        1 <= den <= 1_000_000,
        -2_000_000_000_000_000 <= cross <= 2_000_000_000_000_000,
        -2_000_000_000_000_000 <= tip <= 2_000_000_000_000_000,
    ensures
        prims_view(final(primitives)@) == prims_view(old(primitives)@) + ticks_prims(
            stroke,
            color,
            *at,
            *off,
            den as int,
            cross as int,
            tip as int,
        ),
{
    let ghost expected = ticks_prims(stroke, color, *at, *off, den as int, cross as int,
        tip as int);
    let mut i: usize = 0;
    while i <= den
        invariant
            offsets_drawable(*off),
            1 <= den <= 1_000_000,
            0 <= i <= den + 1,
            expected == ticks_prims(stroke, color, *at, *off, den as int, cross as int,
                tip as int),
            prims_view(primitives@) == prims_view(old(primitives)@) + expected.take(i as int),
        decreases den + 1 - i,
    {
        let along = frac_pos(at, off, i as u64, den as u64);
        let p = Primitives::Line(
            crate::primitives::Line {
                stroke,
                stroke_color: color,
                coords: (
                    match at {
                        AxisType::XAxis => Point { x: along, y: cross },
                        AxisType::YAxis => Point { x: cross, y: along },
                    },
                    match at {
                        AxisType::XAxis => Point { x: along, y: tip },
                        AxisType::YAxis => Point { x: tip, y: along },
                    },
                ),
            },
        );
        proof {
            lemma_prims_view_push(primitives@, p);
            assert(p@ == expected[i as int]);
            assert(expected.take(i + 1) =~= expected.take(i as int).push(expected[i as int]));
        }
        primitives.push(p);
        i = i + 1;
    }
    proof {
        assert(expected.take(den + 1) =~= expected);
    }
}

/// Push one full-span grid line per division boundary.
fn draw_split_generic(
    stroke: Stroke,
    color: Brush,
    at: &AxisType,
    off: &Offsets,
    den: usize,
    primitives: &mut Vec<Primitives>,
)
    requires
        offsets_drawable(*off),
        1 <= den <= 1_000_000,
    ensures
        prims_view(final(primitives)@) == prims_view(old(primitives)@) + split_prims(
            stroke,
            color,
            *at,
            *off,
            den as int,
        ),
{
    let ghost expected = split_prims(stroke, color, *at, *off, den as int);
    let o_start: i64 = match at {
        AxisType::XAxis => off.y_axis_start,
        AxisType::YAxis => off.x_axis_start,
    };
    let o_end: i64 = match at {
        AxisType::XAxis => off.y_axis_end,
        AxisType::YAxis => off.x_axis_end,
    };
    let mut i: usize = 0;
    while i <= den
        invariant
            offsets_drawable(*off),
            1 <= den <= 1_000_000,
            0 <= i <= den + 1,
            o_start == opp_start(*at, *off),
            o_end == opp_end(*at, *off),
            expected == split_prims(stroke, color, *at, *off, den as int),
            prims_view(primitives@) == prims_view(old(primitives)@) + expected.take(i as int),
        decreases den + 1 - i,
    {
        let along = frac_pos(at, off, i as u64, den as u64);
        let p = Primitives::Line(
            crate::primitives::Line {
                stroke,
                stroke_color: color,
                coords: (
                    match at {
                        AxisType::XAxis => Point { x: along, y: o_start },
                        AxisType::YAxis => Point { x: o_start, y: along },
                    },
                    match at {
                        AxisType::XAxis => Point { x: along, y: o_end },
                        AxisType::YAxis => Point { x: o_end, y: along },
                    },
                ),
            },
        );
        proof {
            lemma_prims_view_push(primitives@, p);
            assert(p@ == expected[i as int]);
            assert(expected.take(i + 1) =~= expected.take(i as int).push(expected[i as int]));
        }
        primitives.push(p);
        i = i + 1;
    }
    proof {
        assert(expected.take(den + 1) =~= expected);
    }
}

/// Push the axis line itself.
fn draw_axis_line_generic(
    stroke: Stroke,
    color: Brush,
    at: &AxisType,
    off: &Offsets,
    cross: i64,
    primitives: &mut Vec<Primitives>,
)
    requires
        offsets_drawable(*off),
        -2_000_000_000_000_000 <= cross <= 2_000_000_000_000_000,
    ensures
        prims_view(final(primitives)@) == prims_view(old(primitives)@) + axis_line_prims(
            stroke,
            color,
            *at,
            *off,
            cross as int,
        ),
{
    let ghost expected = axis_line_prims(stroke, color, *at, *off, cross as int);
    let a0 = frac_pos(at, off, 0, 1);
    let a1 = frac_pos(at, off, 1, 1);
    let p = Primitives::Line(
        crate::primitives::Line {
            stroke,
            stroke_color: color,
            coords: (
                match at {
                    AxisType::XAxis => Point { x: a0, y: cross },
                    AxisType::YAxis => Point { x: cross, y: a0 },
                },
                match at {
                    AxisType::XAxis => Point { x: a1, y: cross },
                    AxisType::YAxis => Point { x: cross, y: a1 },
                },
            ),
        },
    );
    proof {
        lemma_prims_view_push(primitives@, p);
        assert(p@ == expected[0]);
        assert(prims_view(primitives@).push(p@) =~= prims_view(primitives@) + expected);
    }
    primitives.push(p);
}

/// Default label anchor: middle under an X axis; against the axis for a Y
/// axis (text right-aligned at the left side, left-aligned at the right).
pub open spec fn default_label_anchor(at: AxisType, pos: AxisPosition) -> Alignment {
    match at {
        AxisType::XAxis => Alignment::Middle,
        AxisType::YAxis => match pos {
            AxisPosition::Start => Alignment::End,
            AxisPosition::End => Alignment::Start,
        },
    }
}

/// Exec twin of [`axis_line_cross`].
fn axis_cross(at: &AxisType, pos: &AxisPosition, off: &Offsets, delta: i64) -> (r: i64)
    requires
        off.wf(),
        -1_000_000_000_000_000 <= delta <= 1_000_000_000_000_000,
    ensures
        r == axis_line_cross(*at, *pos, *off, delta as int),
        -1_003_000_000_000_000 <= r <= 1_003_000_000_000_000,
{
    match at {
        AxisType::XAxis => match pos {
            AxisPosition::Start => off.y_axis_end + delta,
            AxisPosition::End => off.y_axis_start + delta,
        },
        AxisType::YAxis => match pos {
            AxisPosition::Start => off.x_axis_start - delta,
            AxisPosition::End => off.x_axis_end - delta,
        },
    }
}

/// Exec twin of [`outward_sign`].
fn outward(at: &AxisType, pos: &AxisPosition) -> (r: i64)
    ensures
        r as int == outward_sign(*at, *pos),
{
    match at {
        AxisType::XAxis => match pos {
            AxisPosition::Start => 1,
            AxisPosition::End => -1,
        },
        AxisType::YAxis => match pos {
            AxisPosition::Start => -1,
            AxisPosition::End => 1,
        },
    }
}

/// The split lines a category axis emits.
pub open spec fn cat_split_prims(
    ax: CategoryAxis,
    at: AxisType,
    off: Offsets,
    th: Theme,
) -> Seq<PrimV> {
    let cth = th.cartesian_category_axis;
    if !spec_resolve(ax.split_lines_show, cth.split_lines_show) {
        Seq::empty()
    } else {
        split_prims(
            spec_resolve(ax.split_lines_stroke, cth.split_lines_stroke),
            spec_resolve(ax.split_lines_color, cth.split_lines_color),
            at,
            off,
            ax.data.len() as int,
        )
    }
}

/// The signed offset a category axis resolves to against a theme.
pub open spec fn cat_delta(ax: CategoryAxis, index: int, th: Theme) -> int {
    spec_axis_offset(
        ax.axis_offset,
        spec_resolve(ax.axis_auto_offset, th.cartesian_category_axis.axis_auto_offset) as int,
        index,
        spec_axis_position(ax.axis_position, index),
    )
}

/// The tick lines a category axis emits: one boundary tick per label
/// boundary (labels + 1 ticks).
pub open spec fn cat_ticks_prims(
    ax: CategoryAxis,
    index: int,
    at: AxisType,
    off: Offsets,
    th: Theme,
) -> Seq<PrimV> {
    let cth = th.cartesian_category_axis;
    if !spec_resolve(ax.ticks_show, cth.ticks_show) {
        Seq::empty()
    } else {
        let pos = spec_axis_position(ax.axis_position, index);
        let cross = axis_line_cross(at, pos, off, cat_delta(ax, index, th));
        let tip = cross + outward_sign(at, pos) * spec_resolve(ax.ticks_length, cth.ticks_length);
        ticks_prims(
            spec_resolve(ax.ticks_stroke, cth.ticks_stroke),
            spec_resolve(ax.ticks_color, cth.ticks_color),
            at,
            off,
            ax.data.len() as int,
            cross,
            tip,
        )
    }
}

/// The label text primitives a category axis emits: one per label,
/// centered within its bucket, offset outward past the axis line by the
/// label margin (plus half the font size below or above an X axis).
pub open spec fn cat_labels_prims(
    ax: CategoryAxis,
    index: int,
    at: AxisType,
    off: Offsets,
    th: Theme,
) -> Seq<PrimV> {
    let cth = th.cartesian_category_axis;
    if !spec_resolve(ax.labels_show, cth.labels_show) {
        Seq::empty()
    } else {
        let n = ax.data.len() as int;
        let pos = spec_axis_position(ax.axis_position, index);
        let cross_line = axis_line_cross(at, pos, off, cat_delta(ax, index, th));
        let margin = spec_resolve(ax.labels_margin, cth.labels_margin) as int;
        let vfont = spec_resolve(
            ax.labels_font_size,
            th.cartesian_value_axis.labels_font_size,
        ) as int;
        let cross = match at {
            AxisType::XAxis => cross_line + outward_sign(at, pos) * (margin + vfont / 2),
            AxisType::YAxis => cross_line + outward_sign(at, pos) * margin,
        };
        let anchor = spec_resolve(ax.labels_alignment, default_label_anchor(at, pos));
        Seq::new(
            n as nat,
            |i: int|
                PrimV::Text(
                    TextV {
                        text: ax.data[i]@,
                        fill_color: spec_resolve(ax.labels_color, cth.labels_color),
                        font_size: spec_resolve(ax.labels_font_size, cth.labels_font_size) as int,
                        text_anchor: anchor,
                        coord: dim_point(at, axis_frac_pos(at, off, 2 * i + 1, 2 * n), cross),
                        rotation: match ax.labels_rotation {
                            Some(r) => Some(r as int),
                            None => None,
                        },
                    },
                ),
        )
    }
}

/// The axis line a category axis emits.
pub open spec fn cat_axis_line_prims(
    ax: CategoryAxis,
    index: int,
    at: AxisType,
    off: Offsets,
    th: Theme,
) -> Seq<PrimV> {
    let cth = th.cartesian_category_axis;
    if !spec_resolve(ax.axis_show, cth.axis_show) {
        Seq::empty()
    } else {
        let pos = spec_axis_position(ax.axis_position, index);
        axis_line_prims(
            spec_resolve(ax.axis_stroke, cth.axis_stroke),
            spec_resolve(ax.axis_color, cth.axis_color),
            at,
            off,
            axis_line_cross(at, pos, off, cat_delta(ax, index, th)),
        )
    }
}

/// Everything a category axis draws, in order: split lines, ticks, labels,
/// then the axis line on top.
pub open spec fn cat_axis_prims(
    ax: CategoryAxis,
    index: int,
    at: AxisType,
    off: Offsets,
    th: Theme,
) -> Seq<PrimV> {
    cat_split_prims(ax, at, off, th) + cat_ticks_prims(ax, index, at, off, th)
        + cat_labels_prims(ax, index, at, off, th) + cat_axis_line_prims(ax, index, at, off, th)
}

impl CategoryAxis {
    /// Resolve this axis's signed offset.
    fn delta(&self, index: usize, theme: &Theme) -> (r: i64)
        requires
            self.wf(),
            theme.wf(),
            index <= MAX_AXES,
        ensures
            r == cat_delta(*self, index as int, *theme),
            -1_000_000_000_000_000 <= r <= 1_000_000_000_000_000,
    {
        let pos = get_axis_position(&self.axis_position, index);
        let auto = resolve(self.axis_auto_offset, theme.cartesian_category_axis.axis_auto_offset);
        get_axis_offset(&self.axis_offset, auto, index, pos)
    }

    /// Emit the grid lines: one full-span line per label boundary.
    pub fn draw_split_lines(
        &self,
        axis_type: &AxisType,
        primitives: &mut Vec<Primitives>,
        off: &Offsets,
        theme: &Theme,
    )
        requires
            self.wf(),
            theme.wf(),
            offsets_drawable(*off),
        ensures
            prims_view(final(primitives)@) == prims_view(old(primitives)@) + cat_split_prims(
                *self,
                *axis_type,
                *off,
                *theme,
            ),
    {
        let cth = &theme.cartesian_category_axis;
        if resolve(self.split_lines_show, cth.split_lines_show) {
            draw_split_generic(
                resolve(self.split_lines_stroke, cth.split_lines_stroke),
                resolve(self.split_lines_color, cth.split_lines_color),
                axis_type,
                off,
                self.data.len(),
                primitives,
            );
        } else {
            proof {
                assert(prims_view(primitives@) =~= prims_view(primitives@) + Seq::<
                    PrimV,
                >::empty());
            }
        }
    }

    /// Emit the boundary ticks.
    pub fn draw_axis_ticks(
        &self,
        index: usize,
        axis_type: &AxisType,
        primitives: &mut Vec<Primitives>,
        off: &Offsets,
        theme: &Theme,
    )
        requires
            self.wf(),
            theme.wf(),
            offsets_drawable(*off),
            index <= MAX_AXES,
        ensures
            prims_view(final(primitives)@) == prims_view(old(primitives)@) + cat_ticks_prims(
                *self,
                index as int,
                *axis_type,
                *off,
                *theme,
            ),
    {
        let cth = &theme.cartesian_category_axis;
        if resolve(self.ticks_show, cth.ticks_show) {
            let pos = get_axis_position(&self.axis_position, index);
            let cross = axis_cross(axis_type, &pos, off, self.delta(index, theme));
            let tip = cross + outward(axis_type, &pos) * resolve(
                self.ticks_length,
                cth.ticks_length,
            );
            draw_ticks_generic(
                resolve(self.ticks_stroke, cth.ticks_stroke),
                resolve(self.ticks_color, cth.ticks_color),
                axis_type,
                off,
                self.data.len(),
                cross,
                tip,
                primitives,
            );
        } else {
            proof {
                assert(prims_view(primitives@) =~= prims_view(primitives@) + Seq::<
                    PrimV,
                >::empty());
            }
        }
    }

    /// Emit the label texts.
    pub fn draw_labels(
        &self,
        index: usize,
        axis_type: &AxisType,
        primitives: &mut Vec<Primitives>,
        off: &Offsets,
        theme: &Theme,
    )
        requires
            self.wf(),
            theme.wf(),
            offsets_drawable(*off),
            index <= MAX_AXES,
        ensures
            prims_view(final(primitives)@) == prims_view(old(primitives)@) + cat_labels_prims(
                *self,
                index as int,
                *axis_type,
                *off,
                *theme,
            ),
    {
        let cth = &theme.cartesian_category_axis;
        if resolve(self.labels_show, cth.labels_show) {
            let ghost expected = cat_labels_prims(*self, index as int, *axis_type, *off, *theme);
            let n = self.data.len();
            let pos = get_axis_position(&self.axis_position, index);
            let cross_line = axis_cross(axis_type, &pos, off, self.delta(index, theme));
            let margin = resolve(self.labels_margin, cth.labels_margin);
            let vfont = resolve(
                self.labels_font_size,
                theme.cartesian_value_axis.labels_font_size,
            );
            let cross: i64 = match axis_type {
                AxisType::XAxis => cross_line + outward(axis_type, &pos) * (margin + vfont / 2),
                AxisType::YAxis => cross_line + outward(axis_type, &pos) * margin,
            };
            let anchor = resolve(self.labels_alignment, {
                match axis_type {
                    AxisType::XAxis => Alignment::Middle,
                    AxisType::YAxis => match pos {
                        AxisPosition::Start => Alignment::End,
                        AxisPosition::End => Alignment::Start,
                    },
                }
            });
            let fill = resolve(self.labels_color, cth.labels_color);
            let font = resolve(self.labels_font_size, cth.labels_font_size);
            let mut i: usize = 0;
            while i < n
                invariant
                    self.wf(),
                    theme.wf(),
                    offsets_drawable(*off),
                    index <= MAX_AXES,
                    0 <= i <= n == self.data.len(),
                    spec_resolve(self.labels_show, theme.cartesian_category_axis.labels_show),
                    expected == cat_labels_prims(*self, index as int, *axis_type, *off, *theme),
                    cross as int == match *axis_type {
                        AxisType::XAxis => axis_line_cross(
                            *axis_type,
                            spec_axis_position(self.axis_position, index as int),
                            *off,
                            cat_delta(*self, index as int, *theme),
                        ) + outward_sign(
                            *axis_type,
                            spec_axis_position(self.axis_position, index as int),
                        ) * (spec_resolve(
                            self.labels_margin,
                            theme.cartesian_category_axis.labels_margin,
                        ) + spec_resolve(
                            self.labels_font_size,
                            theme.cartesian_value_axis.labels_font_size,
                        ) / 2),
                        AxisType::YAxis => axis_line_cross(
                            *axis_type,
                            spec_axis_position(self.axis_position, index as int),
                            *off,
                            cat_delta(*self, index as int, *theme),
                        ) + outward_sign(
                            *axis_type,
                            spec_axis_position(self.axis_position, index as int),
                        ) * spec_resolve(
                            self.labels_margin,
                            theme.cartesian_category_axis.labels_margin,
                        ),
                    },
                    anchor == spec_resolve(
                        self.labels_alignment,
                        default_label_anchor(
                            *axis_type,
                            spec_axis_position(self.axis_position, index as int),
                        ),
                    ),
                    fill == spec_resolve(
                        self.labels_color,
                        theme.cartesian_category_axis.labels_color,
                    ),
                    font == spec_resolve(
                        self.labels_font_size,
                        theme.cartesian_category_axis.labels_font_size,
                    ),
                    prims_view(primitives@) == prims_view(old(primitives)@) + expected.take(
                        i as int,
                    ),
                decreases n - i,
            {
                let along = frac_pos(
                    axis_type,
                    off,
                    2 * (i as u64) + 1,
                    2 * (n as u64),
                );
                let p = Primitives::Text(
                    crate::primitives::Text {
                        text: self.data[i].clone(),
                        fill_color: fill,
                        font_size: font,
                        text_anchor: anchor,
                        coord: match axis_type {
                            AxisType::XAxis => Point { x: along, y: cross },
                            AxisType::YAxis => Point { x: cross, y: along },
                        },
                        rotation: self.labels_rotation,
                    },
                );
                proof {
                    lemma_prims_view_push(primitives@, p);
                    assert(p@ == expected[i as int]);
                    assert(expected.take(i + 1) =~= expected.take(i as int).push(
                        expected[i as int],
                    ));
                }
                primitives.push(p);
                i = i + 1;
            }
            proof {
                assert(expected.take(n as int) =~= expected);
            }
        } else {
            proof {
                assert(prims_view(primitives@) =~= prims_view(primitives@) + Seq::<
                    PrimV,
                >::empty());
            }
        }
    }

    /// Emit the axis line itself.
    pub fn draw_axis_line(
        &self,
        index: usize,
        axis_type: &AxisType,
        primitives: &mut Vec<Primitives>,
        off: &Offsets,
        theme: &Theme,
    )
        requires
            self.wf(),
            theme.wf(),
            offsets_drawable(*off),
            index <= MAX_AXES,
        ensures
            prims_view(final(primitives)@) == prims_view(old(primitives)@) + cat_axis_line_prims(
                *self,
                index as int,
                *axis_type,
                *off,
                *theme,
            ),
    {
        let cth = &theme.cartesian_category_axis;
        if resolve(self.axis_show, cth.axis_show) {
            let pos = get_axis_position(&self.axis_position, index);
            let cross = axis_cross(axis_type, &pos, off, self.delta(index, theme));
            draw_axis_line_generic(
                resolve(self.axis_stroke, cth.axis_stroke),
                resolve(self.axis_color, cth.axis_color),
                axis_type,
                off,
                cross,
                primitives,
            );
        } else {
            proof {
                assert(prims_view(primitives@) =~= prims_view(primitives@) + Seq::<
                    PrimV,
                >::empty());
            }
        }
    }

    /// Draw the full furniture of this axis: split lines, ticks, labels,
    /// then the axis line on top.
    pub fn draw_axis(
        &self,
        index: usize,
        axis_type: &AxisType,
        primitives: &mut Vec<Primitives>,
        off: &Offsets,
        theme: &Theme,
    )
        requires
            self.wf(),
            theme.wf(),
            offsets_drawable(*off),
            index <= MAX_AXES,
        ensures
            prims_view(final(primitives)@) == prims_view(old(primitives)@) + cat_axis_prims(
                *self,
                index as int,
                *axis_type,
                *off,
                *theme,
            ),
    {
        self.draw_split_lines(axis_type, primitives, off, theme);
        self.draw_axis_ticks(index, axis_type, primitives, off, theme);
        self.draw_labels(index, axis_type, primitives, off, theme);
        self.draw_axis_line(index, axis_type, primitives, off, theme);
        proof {
            assert(prims_view(primitives@) =~= prims_view(old(primitives)@) + cat_axis_prims(
                *self,
                index as int,
                *axis_type,
                *off,
                *theme,
            ));
        }
    }
}


/// The signed offset a value axis resolves to against a theme.
pub open spec fn val_delta(ax: ValueAxis, index: int, th: Theme) -> int {
    spec_axis_offset(
        ax.axis_offset,
        spec_resolve(ax.axis_auto_offset, th.cartesian_value_axis.axis_auto_offset) as int,
        index,
        spec_axis_position(ax.axis_position, index),
    )
}

/// The grid lines a value axis emits: one per tick of its resolved scale.
pub open spec fn val_split_prims(
    ax: ValueAxis,
    at: AxisType,
    off: Offsets,
    th: Theme,
    sc: ScaleResult,
) -> Seq<PrimV> {
    let vth = th.cartesian_value_axis;
    if !spec_resolve(ax.split_lines_show, vth.split_lines_show) {
        Seq::empty()
    } else {
        split_prims(
            spec_resolve(ax.split_lines_stroke, vth.split_lines_stroke),
            spec_resolve(ax.split_lines_color, vth.split_lines_color),
            at,
            off,
            sc.hi - sc.lo,
        )
    }
}

/// The tick lines a value axis emits: `(max - min) / step + 1` of them,
/// evenly spaced across the span.
pub open spec fn val_ticks_prims(
    ax: ValueAxis,
    index: int,
    at: AxisType,
    off: Offsets,
    th: Theme,
    sc: ScaleResult,
) -> Seq<PrimV> {
    let vth = th.cartesian_value_axis;
    if !spec_resolve(ax.ticks_show, vth.ticks_show) {
        Seq::empty()
    } else {
        let pos = spec_axis_position(ax.axis_position, index);
        let cross = axis_line_cross(at, pos, off, val_delta(ax, index, th));
        let tip = cross + outward_sign(at, pos) * spec_resolve(ax.ticks_length, vth.ticks_length);
        ticks_prims(
            spec_resolve(ax.ticks_stroke, vth.ticks_stroke),
            spec_resolve(ax.ticks_color, vth.ticks_color),
            at,
            off,
            sc.hi - sc.lo,
            cross,
            tip,
        )
    }
}

/// The labels a value axis emits: the text of `min + step * i` at each
/// tick position, formatted as a plain number.
pub open spec fn val_labels_prims(
    ax: ValueAxis,
    index: int,
    at: AxisType,
    off: Offsets,
    th: Theme,
    sc: ScaleResult,
) -> Seq<PrimV> {
    let vth = th.cartesian_value_axis;
    if !spec_resolve(ax.labels_show, vth.labels_show) {
        Seq::empty()
    } else {
        let count = sc.hi - sc.lo;
        let pos = spec_axis_position(ax.axis_position, index);
        let cross_line = axis_line_cross(at, pos, off, val_delta(ax, index, th));
        let margin = spec_resolve(ax.labels_margin, vth.labels_margin) as int;
        let font = spec_resolve(ax.labels_font_size, vth.labels_font_size) as int;
        let cross = match at {
            AxisType::XAxis => cross_line + outward_sign(at, pos) * (margin + font / 2),
            AxisType::YAxis => cross_line + outward_sign(at, pos) * margin,
        };
        let anchor = spec_resolve(ax.labels_alignment, default_label_anchor(at, pos));
        Seq::new(
            (count + 1) as nat,
            |i: int|
                PrimV::Text(
                    TextV {
                        text: crate::fmt::fmt_value((sc.lo + i) * sc.c10, sc.exp as int),
                        fill_color: spec_resolve(ax.labels_color, vth.labels_color),
                        font_size: font,
                        text_anchor: anchor,
                        coord: dim_point(at, axis_frac_pos(at, off, i, count), cross),
                        rotation: match ax.labels_rotation {
                            Some(r) => Some(r as int),
                            None => None,
                        },
                    },
                ),
        )
    }
}

/// The axis line a value axis emits.
pub open spec fn val_axis_line_prims(
    ax: ValueAxis,
    index: int,
    at: AxisType,
    off: Offsets,
    th: Theme,
) -> Seq<PrimV> {
    let vth = th.cartesian_value_axis;
    if !spec_resolve(ax.axis_show, vth.axis_show) {
        Seq::empty()
    } else {
        let pos = spec_axis_position(ax.axis_position, index);
        axis_line_prims(
            spec_resolve(ax.axis_stroke, vth.axis_stroke),
            spec_resolve(ax.axis_color, vth.axis_color),
            at,
            off,
            axis_line_cross(at, pos, off, val_delta(ax, index, th)),
        )
    }
}

/// Everything a value axis draws, in order: split lines, ticks, labels,
/// then the axis line on top.
pub open spec fn val_axis_prims(
    ax: ValueAxis,
    index: int,
    at: AxisType,
    off: Offsets,
    th: Theme,
    sc: ScaleResult,
) -> Seq<PrimV> {
    val_split_prims(ax, at, off, th, sc) + val_ticks_prims(ax, index, at, off, th, sc)
        + val_labels_prims(ax, index, at, off, th, sc) + val_axis_line_prims(
        ax,
        index,
        at,
        off,
        th,
    )
}

impl ValueAxis {
    /// Resolve this axis's signed offset.
    fn delta(&self, index: usize, theme: &Theme) -> (r: i64)
        requires
            self.wf(),
            theme.wf(),
            index <= MAX_AXES,
        ensures
            r == val_delta(*self, index as int, *theme),
            -1_000_000_000_000_000 <= r <= 1_000_000_000_000_000,
    {
        let pos = get_axis_position(&self.axis_position, index);
        let auto = resolve(self.axis_auto_offset, theme.cartesian_value_axis.axis_auto_offset);
        get_axis_offset(&self.axis_offset, auto, index, pos)
    }

    /// Emit the grid lines of the resolved scale.
    pub fn draw_split_lines(
        &self,
        axis_type: &AxisType,
        primitives: &mut Vec<Primitives>,
        off: &Offsets,
        theme: &Theme,
        scale: &ScaleResult,
    )
        requires
            self.wf(),
            theme.wf(),
            offsets_drawable(*off),
            scale.wf(),
        ensures
            prims_view(final(primitives)@) == prims_view(old(primitives)@) + val_split_prims(
                *self,
                *axis_type,
                *off,
                *theme,
                *scale,
            ),
    {
        let vth = &theme.cartesian_value_axis;
        if resolve(self.split_lines_show, vth.split_lines_show) {
            let count: usize = (scale.hi - scale.lo) as usize;
            draw_split_generic(
                resolve(self.split_lines_stroke, vth.split_lines_stroke),
                resolve(self.split_lines_color, vth.split_lines_color),
                axis_type,
                off,
                count,
                primitives,
            );
        } else {
            proof {
                assert(prims_view(primitives@) =~= prims_view(primitives@) + Seq::<
                    PrimV,
                >::empty());
            }
        }
    }

    /// Emit the scale ticks.
    pub fn draw_axis_ticks(
        &self,
        index: usize,
        axis_type: &AxisType,
        primitives: &mut Vec<Primitives>,
        off: &Offsets,
        theme: &Theme,
        scale: &ScaleResult,
    )
        requires
            self.wf(),
            theme.wf(),
            offsets_drawable(*off),
            scale.wf(),
            index <= MAX_AXES,
        ensures
            prims_view(final(primitives)@) == prims_view(old(primitives)@) + val_ticks_prims(
                *self,
                index as int,
                *axis_type,
                *off,
                *theme,
                *scale,
            ),
    {
        let vth = &theme.cartesian_value_axis;
        if resolve(self.ticks_show, vth.ticks_show) {
            let pos = get_axis_position(&self.axis_position, index);
            let cross = axis_cross(axis_type, &pos, off, self.delta(index, theme));
            let tip = cross + outward(axis_type, &pos) * resolve(
                self.ticks_length,
                vth.ticks_length,
            );
            let count: usize = (scale.hi - scale.lo) as usize;
            draw_ticks_generic(
                resolve(self.ticks_stroke, vth.ticks_stroke),
                resolve(self.ticks_color, vth.ticks_color),
                axis_type,
                off,
                count,
                cross,
                tip,
                primitives,
            );
        } else {
            proof {
                assert(prims_view(primitives@) =~= prims_view(primitives@) + Seq::<
                    PrimV,
                >::empty());
            }
        }
    }

    /// Emit the scale labels.
    pub fn draw_labels(
        &self,
        index: usize,
        axis_type: &AxisType,
        primitives: &mut Vec<Primitives>,
        off: &Offsets,
        theme: &Theme,
        scale: &ScaleResult,
    )
        requires
            self.wf(),
            theme.wf(),
            offsets_drawable(*off),
            scale.wf(),
            index <= MAX_AXES,
        ensures
            prims_view(final(primitives)@) == prims_view(old(primitives)@) + val_labels_prims(
                *self,
                index as int,
                *axis_type,
                *off,
                *theme,
                *scale,
            ),
    {
        let vth = &theme.cartesian_value_axis;
        if resolve(self.labels_show, vth.labels_show) {
            let ghost expected = val_labels_prims(*self, index as int, *axis_type, *off, *theme,
                *scale);
            let count: usize = (scale.hi - scale.lo) as usize;
            let pos = get_axis_position(&self.axis_position, index);
            let cross_line = axis_cross(axis_type, &pos, off, self.delta(index, theme));
            let margin = resolve(self.labels_margin, vth.labels_margin);
            let font = resolve(self.labels_font_size, vth.labels_font_size);
            let cross: i64 = match axis_type {
                AxisType::XAxis => cross_line + outward(axis_type, &pos) * (margin + font / 2),
                AxisType::YAxis => cross_line + outward(axis_type, &pos) * margin,
            };
            let anchor = resolve(self.labels_alignment, {
                match axis_type {
                    AxisType::XAxis => Alignment::Middle,
                    AxisType::YAxis => match pos {
                        AxisPosition::Start => Alignment::End,
                        AxisPosition::End => Alignment::Start,
                    },
                }
            });
            let fill = resolve(self.labels_color, vth.labels_color);
            let mut i: usize = 0;
            while i <= count
                invariant
                    self.wf(),
                    theme.wf(),
                    offsets_drawable(*off),
                    scale.wf(),
                    index <= MAX_AXES,
                    0 <= i <= count + 1,
                    count == scale.hi - scale.lo,
                    spec_resolve(self.labels_show, theme.cartesian_value_axis.labels_show),
                    expected == val_labels_prims(*self, index as int, *axis_type, *off, *theme,
                        *scale),
                    cross as int == match *axis_type {
                        AxisType::XAxis => axis_line_cross(
                            *axis_type,
                            spec_axis_position(self.axis_position, index as int),
                            *off,
                            val_delta(*self, index as int, *theme),
                        ) + outward_sign(
                            *axis_type,
                            spec_axis_position(self.axis_position, index as int),
                        ) * (spec_resolve(
                            self.labels_margin,
                            theme.cartesian_value_axis.labels_margin,
                        ) + spec_resolve(
                            self.labels_font_size,
                            theme.cartesian_value_axis.labels_font_size,
                        ) / 2),
                        AxisType::YAxis => axis_line_cross(
                            *axis_type,
                            spec_axis_position(self.axis_position, index as int),
                            *off,
                            val_delta(*self, index as int, *theme),
                        ) + outward_sign(
                            *axis_type,
                            spec_axis_position(self.axis_position, index as int),
                        ) * spec_resolve(
                            self.labels_margin,
                            theme.cartesian_value_axis.labels_margin,
                        ),
                    },
                    anchor == spec_resolve(
                        self.labels_alignment,
                        default_label_anchor(
                            *axis_type,
                            spec_axis_position(self.axis_position, index as int),
                        ),
                    ),
                    fill == spec_resolve(
                        self.labels_color,
                        theme.cartesian_value_axis.labels_color,
                    ),
                    font == spec_resolve(
                        self.labels_font_size,
                        theme.cartesian_value_axis.labels_font_size,
                    ),
                    prims_view(primitives@) == prims_view(old(primitives)@) + expected.take(
                        i as int,
                    ),
                decreases count + 1 - i,
            {
                let along = frac_pos(axis_type, off, i as u64, count as u64);
                proof {
                    assert(-2_000_000_000_000_000_000 <= (scale.lo + i as int) * scale.c10
                        <= 2_000_000_000_000_000_000) by (nonlinear_arith)
                        requires
                            -20_000_000_000_000_000 <= scale.lo + i as int
                                <= 20_000_000_000_000_009,
                            10 <= scale.c10 <= 75,
                    ;
                }
                let m: i64 = (scale.lo + i as i64) * scale.c10;
                let text = crate::fmt::format_value(m, scale.exp);
                let p = Primitives::Text(
                    crate::primitives::Text {
                        text,
                        fill_color: fill,
                        font_size: font,
                        text_anchor: anchor,
                        coord: match axis_type {
                            AxisType::XAxis => Point { x: along, y: cross },
                            AxisType::YAxis => Point { x: cross, y: along },
                        },
                        rotation: self.labels_rotation,
                    },
                );
                proof {
                    lemma_prims_view_push(primitives@, p);
                    assert(p@ == expected[i as int]);
                    assert(expected.take(i + 1) =~= expected.take(i as int).push(
                        expected[i as int],
                    ));
                }
                primitives.push(p);
                i = i + 1;
            }
            proof {
                assert(expected.take(count + 1) =~= expected);
            }
        } else {
            proof {
                assert(prims_view(primitives@) =~= prims_view(primitives@) + Seq::<
                    PrimV,
                >::empty());
            }
        }
    }

    /// Emit the axis line itself.
    pub fn draw_axis_line(
        &self,
        index: usize,
        axis_type: &AxisType,
        primitives: &mut Vec<Primitives>,
        off: &Offsets,
        theme: &Theme,
    )
        requires
            self.wf(),
            theme.wf(),
            offsets_drawable(*off),
            index <= MAX_AXES,
        ensures
            prims_view(final(primitives)@) == prims_view(old(primitives)@) + val_axis_line_prims(
                *self,
                index as int,
                *axis_type,
                *off,
                *theme,
            ),
    {
        let vth = &theme.cartesian_value_axis;
        if resolve(self.axis_show, vth.axis_show) {
            let pos = get_axis_position(&self.axis_position, index);
            let cross = axis_cross(axis_type, &pos, off, self.delta(index, theme));
            draw_axis_line_generic(
                resolve(self.axis_stroke, vth.axis_stroke),
                resolve(self.axis_color, vth.axis_color),
                axis_type,
                off,
                cross,
                primitives,
            );
        } else {
            proof {
                assert(prims_view(primitives@) =~= prims_view(primitives@) + Seq::<
                    PrimV,
                >::empty());
            }
        }
    }

    /// Draw the full furniture of this axis against its resolved scale:
    /// split lines, ticks, labels, then the axis line on top.
    pub fn draw_axis(
        &self,
        index: usize,
        axis_type: &AxisType,
        primitives: &mut Vec<Primitives>,
        off: &Offsets,
        theme: &Theme,
        scale: &ScaleResult,
    )
        requires
            self.wf(),
            theme.wf(),
            offsets_drawable(*off),
            scale.wf(),
            index <= MAX_AXES,
        ensures
            prims_view(final(primitives)@) == prims_view(old(primitives)@) + val_axis_prims(
                *self,
                index as int,
                *axis_type,
                *off,
                *theme,
                *scale,
            ),
    {
        self.draw_split_lines(axis_type, primitives, off, theme, scale);
        self.draw_axis_ticks(index, axis_type, primitives, off, theme, scale);
        self.draw_labels(index, axis_type, primitives, off, theme, scale);
        self.draw_axis_line(index, axis_type, primitives, off, theme);
        proof {
            assert(prims_view(primitives@) =~= prims_view(old(primitives)@) + val_axis_prims(
                *self,
                index as int,
                *axis_type,
                *off,
                *theme,
                *scale,
            ));
        }
    }
}



/// Whether a data value (in micro-units) lies inside a resolved scale.
pub open spec fn scale_covers(sc: ScaleResult, v: int) -> bool {
    sc.min_n() <= v * 1_000_000 <= sc.max_n()
}

/// Project a value onto the pixel span of a value dimension: the fraction
/// `(v - min) / (max - min)` of the span from the low edge for X, up from
/// the bottom edge for Y (pixel y grows downward, so greater values sit
/// higher on the canvas).
pub open spec fn val_project(at: AxisType, off: Offsets, sc: ScaleResult, v: int) -> int {
    let num = v * 1_000_000 - sc.min_n();
    let den = sc.max_n() - sc.min_n();
    match at {
        AxisType::XAxis => off.x_axis_start + num * off.x_span / den,
        AxisType::YAxis => off.y_axis_end - num * off.y_span / den,
    }
}

/// Project one data point along one resolved dimension: the bucket center
/// for a category dimension, the value fraction for a value dimension.
pub open spec fn spec_project(
    at: AxisType,
    h: AxisHelper,
    off: Offsets,
    index: int,
    value: int,
) -> int {
    match h {
        AxisHelper::Category(c) => axis_frac_pos(at, off, 2 * index + 1, 2 * (c.amount as int)),
        AxisHelper::Values(vh) => val_project(at, off, vh.scale, value),
    }
}

/// Exec twin of [`spec_project`].
pub fn project(at: &AxisType, h: &AxisHelper, off: &Offsets, index: usize, value: i64) -> (r:
    i64)
    requires
        h.wf(),
        offsets_drawable(*off),
        match *h {
            AxisHelper::Category(c) => index < c.amount,
            AxisHelper::Values(vh) => scale_covers(vh.scale, value as int),
        },
    ensures
        r == spec_project(*at, *h, *off, index as int, value as int),
        -6 * PIX_LIMIT <= r <= 6 * PIX_LIMIT,
{
    match h {
        AxisHelper::Category(c) => frac_pos(
            at,
            off,
            2 * (index as u64) + 1,
            2 * (c.amount as u64),
        ),
        AxisHelper::Values(vh) => {
            let sc = &vh.scale;
            let pw: i128 = crate::num::pow10_i128((sc.exp + 12) as u32);
            proof {
                crate::num::lemma_pow10_increases((sc.exp + 12) as nat, 20);
                reveal_with_fuel(crate::num::pow10, 22);
                assert(1 <= sc.c10 * crate::num::pow10((sc.exp + 12) as nat)
                    <= 7_500_000_000_000_000_000_000) by (nonlinear_arith)
                    requires
                        10 <= sc.c10 <= 75,
                        1 <= crate::num::pow10((sc.exp + 12) as nat)
                            <= 100_000_000_000_000_000_000,
                ;
            }
            let sn: i128 = sc.c10 as i128 * pw;
            proof {
                assert(sc.lo * sn == vh.scale.min_n());
                assert(sc.hi * sn == vh.scale.max_n());
            }
            let minn: i128 = sc.lo as i128 * sn;
            let maxn: i128 = sc.hi as i128 * sn;
            let num: i128 = value as i128 * 1_000_000 - minn;
            let den: i128 = maxn - minn;
            let span: i64 = match at {
                AxisType::XAxis => off.x_span,
                AxisType::YAxis => off.y_span,
            };
            proof {
                assert(0 <= num * span && num * span
                    <= 80_000_000_000_000_000_000_000_000_000_000_000) by (nonlinear_arith)
                    requires
                        0 <= num <= 20_000_000_000_000_000_000_000,
                        1 <= span <= 4 * PIX_LIMIT as int,
                ;
            }
            let prod: u128 = (num as u128) * (span as u128);
            let q0: u128 = prod / (den as u128);
            proof {
                lemma_fundamental_div_mod(prod as int, den as int);
                lemma_mod_bound(prod as int, den as int);
                let qi = prod as int / den as int;
                assert(num * span <= den * span) by (nonlinear_arith)
                    requires
                        0 <= num <= den,
                        span >= 0,
                ;
                assert(qi <= span) by (nonlinear_arith)
                    requires
                        qi * den <= prod as int,
                        prod as int <= den * span,
                        den >= 1,
                ;
            }
            let q: i64 = q0 as i64;
            match at {
                AxisType::XAxis => off.x_axis_start + q,
                AxisType::YAxis => off.y_axis_end - q,
            }
        },
    }
}


/// Law: category projection round-trips — mapping bucket `i` of `n` to its
/// center pixel and then back to bucket space recovers `i` exactly, as long
/// as the span can resolve half a bucket.
pub proof fn lemma_category_projection_round_trip(at: AxisType, off: Offsets, n: int, i: int)
    requires
        offsets_drawable(off),
        1 <= n,
        0 <= i < n,
        match at {
            AxisType::XAxis => off.x_span >= 2 * n,
            AxisType::YAxis => off.y_span >= 2 * n,
        },
    ensures
        match at {
            AxisType::XAxis => i * off.x_span <= (axis_frac_pos(at, off, 2 * i + 1, 2 * n)
                - off.x_axis_start) * n < (i + 1) * off.x_span,
            AxisType::YAxis => i * off.y_span <= (off.y_axis_end - axis_frac_pos(
                at,
                off,
                2 * i + 1,
                2 * n,
            )) * n < (i + 1) * off.y_span,
        },
{
    let span: int = match at {
        AxisType::XAxis => off.x_span as int,
        AxisType::YAxis => off.y_span as int,
    };
    let f = (2 * i + 1) * span / (2 * n);
    lemma_fundamental_div_mod((2 * i + 1) * span, 2 * n);
    lemma_mod_bound((2 * i + 1) * span, 2 * n);
    assert((2 * n) * f <= (2 * i + 1) * span);
    assert((2 * i + 1) * span < (2 * n) * f + 2 * n);
    assert(i * span <= f * n && f * n < (i + 1) * span) by (nonlinear_arith)
        requires
            (2 * n) * f <= (2 * i + 1) * span,
            (2 * i + 1) * span < (2 * n) * f + 2 * n,
            span >= 2 * n,
            n >= 1,
            i >= 0,
    ;
}

/// Law: value projection hits the span edges exactly — the scale minimum
/// lands on the low edge (the bottom for Y) and the scale maximum on the
/// high edge, with zero rounding error.
pub proof fn lemma_value_projection_edges(
    at: AxisType,
    off: Offsets,
    sc: ScaleResult,
    vmin: int,
    vmax: int,
)
    requires
        offsets_drawable(off),
        sc.min_n() < sc.max_n(),
        vmin * 1_000_000 == sc.min_n(),
        vmax * 1_000_000 == sc.max_n(),
    ensures
        val_project(at, off, sc, vmin) == match at {
            AxisType::XAxis => off.x_axis_start as int,
            AxisType::YAxis => off.y_axis_end as int,
        },
        val_project(at, off, sc, vmax) == match at {
            AxisType::XAxis => off.x_axis_end as int,
            AxisType::YAxis => off.y_axis_start as int,
        },
{
    let den = sc.max_n() - sc.min_n();
    let span: int = match at {
        AxisType::XAxis => off.x_span as int,
        AxisType::YAxis => off.y_span as int,
    };
    assert(0 * span == 0) by (nonlinear_arith);
    lemma_fundamental_div_mod(0, den);
    vstd::arithmetic::div_mod::lemma_div_of0(den);
    assert(den * span == span * den) by (nonlinear_arith);
    vstd::arithmetic::div_mod::lemma_div_by_multiple(span, den);
}

/// Law: every stylable axis property resolves independently — a property
/// left unset falls back to the theme default for the axis kind, and a
/// property set resolves to its own override, whatever the other
/// properties hold.
pub proof fn lemma_theme_fallback_independence(ax: CategoryAxis, vx: ValueAxis, th: Theme)
    ensures
        ax.ticks_length is None ==> spec_resolve(
            ax.ticks_length,
            th.cartesian_category_axis.ticks_length,
        ) == th.cartesian_category_axis.ticks_length,
        forall|v: i64| ax.ticks_length == Some(v) ==> spec_resolve(
            ax.ticks_length,
            th.cartesian_category_axis.ticks_length,
        ) == v,
        ax.axis_color is None ==> spec_resolve(
            ax.axis_color,
            th.cartesian_category_axis.axis_color,
        ) == th.cartesian_category_axis.axis_color,
        forall|v: Brush| ax.axis_color == Some(v) ==> spec_resolve(
            ax.axis_color,
            th.cartesian_category_axis.axis_color,
        ) == v,
        ax.axis_show is None ==> spec_resolve(
            ax.axis_show,
            th.cartesian_category_axis.axis_show,
        ) == th.cartesian_category_axis.axis_show,
        ax.axis_stroke is None ==> spec_resolve(
            ax.axis_stroke,
            th.cartesian_category_axis.axis_stroke,
        ) == th.cartesian_category_axis.axis_stroke,
        ax.ticks_show is None ==> spec_resolve(
            ax.ticks_show,
            th.cartesian_category_axis.ticks_show,
        ) == th.cartesian_category_axis.ticks_show,
        ax.ticks_stroke is None ==> spec_resolve(
            ax.ticks_stroke,
            th.cartesian_category_axis.ticks_stroke,
        ) == th.cartesian_category_axis.ticks_stroke,
        ax.ticks_color is None ==> spec_resolve(
            ax.ticks_color,
            th.cartesian_category_axis.ticks_color,
        ) == th.cartesian_category_axis.ticks_color,
        ax.split_lines_show is None ==> spec_resolve(
            ax.split_lines_show,
            th.cartesian_category_axis.split_lines_show,
        ) == th.cartesian_category_axis.split_lines_show,
        ax.split_lines_color is None ==> spec_resolve(
            ax.split_lines_color,
            th.cartesian_category_axis.split_lines_color,
        ) == th.cartesian_category_axis.split_lines_color,
        ax.split_lines_stroke is None ==> spec_resolve(
            ax.split_lines_stroke,
            th.cartesian_category_axis.split_lines_stroke,
        ) == th.cartesian_category_axis.split_lines_stroke,
        ax.labels_show is None ==> spec_resolve(
            ax.labels_show,
            th.cartesian_category_axis.labels_show,
        ) == th.cartesian_category_axis.labels_show,
        ax.labels_margin is None ==> spec_resolve(
            ax.labels_margin,
            th.cartesian_category_axis.labels_margin,
        ) == th.cartesian_category_axis.labels_margin,
        ax.labels_color is None ==> spec_resolve(
            ax.labels_color,
            th.cartesian_category_axis.labels_color,
        ) == th.cartesian_category_axis.labels_color,
        ax.labels_font_size is None ==> spec_resolve(
            ax.labels_font_size,
            th.cartesian_category_axis.labels_font_size,
        ) == th.cartesian_category_axis.labels_font_size,
        ax.axis_auto_offset is None ==> spec_resolve(
            ax.axis_auto_offset,
            th.cartesian_category_axis.axis_auto_offset,
        ) == th.cartesian_category_axis.axis_auto_offset,
        vx.ticks_length is None ==> spec_resolve(
            vx.ticks_length,
            th.cartesian_value_axis.ticks_length,
        ) == th.cartesian_value_axis.ticks_length,
        forall|v: i64| vx.ticks_length == Some(v) ==> spec_resolve(
            vx.ticks_length,
            th.cartesian_value_axis.ticks_length,
        ) == v,
        vx.labels_show is None ==> spec_resolve(
            vx.labels_show,
            th.cartesian_value_axis.labels_show,
        ) == th.cartesian_value_axis.labels_show,
{
}



impl From<Vec<CategoryAxis>> for CartesianAxis {
    fn from(value: Vec<CategoryAxis>) -> CartesianAxis {
        CartesianAxis::Category(value)
    }
}

impl vstd::std_specs::convert::FromSpecImpl<Vec<CategoryAxis>> for CartesianAxis {
    open spec fn obeys_from_spec() -> bool {
        true
    }

    open spec fn from_spec(t: Vec<CategoryAxis>) -> CartesianAxis {
        CartesianAxis::Category(t)
    }
}

impl From<Vec<ValueAxis>> for CartesianAxis {
    fn from(value: Vec<ValueAxis>) -> CartesianAxis {
        CartesianAxis::Value(value)
    }
}

impl vstd::std_specs::convert::FromSpecImpl<Vec<ValueAxis>> for CartesianAxis {
    open spec fn obeys_from_spec() -> bool {
        true
    }

    open spec fn from_spec(t: Vec<ValueAxis>) -> CartesianAxis {
        CartesianAxis::Value(t)
    }
}


} // verus!
