//! Data series: a line series drawn as one path with optional point
//! markers, and a scatter series drawn as one sized circle per point. Each
//! series names the X- and Y-axis it binds to by index, and carries a data
//! table whose primary dimension is plotted against the value axis.

use vstd::prelude::*;
use crate::axis::{AxisHelper, AxisType, spec_project, project, offsets_drawable, scale_covers};
use crate::element::{Offsets, PIX_LIMIT};
use crate::lttb::{lttb, lttb_index, lttb_out_len, lttb_passthrough, MAX_POINTS};
use crate::primitives::{
    Brush, Circle, MultiCircleV, PathV, Point, PrimV, Primitives, Stroke, prims_view,
    lemma_prims_view_push,
};
use crate::theme::{Theme, resolve, spec_resolve};
use crate::VAL_LIMIT;

verus! {

/// One dimension of a scatter data table: numeric values, or labels for a
/// category-paired dimension.
#[derive(Debug, Clone)]
pub enum PlotData {
    Values(Vec<i64>),
    Labels(Vec<String>),
}

impl PlotData {
    /// The numeric values of this dimension (empty for labels).
    pub open spec fn values(self) -> Seq<i64> {
        match self {
            PlotData::Values(v) => v@,
            PlotData::Labels(_) => Seq::empty(),
        }
    }

    pub open spec fn is_values(self) -> bool {
        self is Values
    }
}

/// The data table of a line series: one or more numeric columns, the
/// indices of the primary and secondary dimensions, and an optional
/// downsampling threshold.
#[derive(Debug, Clone)]
pub struct LineData {
    pub primary_data_index: usize,
    pub secondary_data_index: usize,
    pub lttb: Option<usize>,
    pub data: Vec<Vec<i64>>,
}

impl LineData {
    pub open spec fn wf(self) -> bool {
        &&& self.primary_data_index < self.data.len()
        &&& self.secondary_data_index < self.data.len()
        &&& self.data[self.primary_data_index as int].len() == self.data[
            self.secondary_data_index as int
        ].len()
        &&& 1 <= self.data[self.primary_data_index as int].len() <= MAX_POINTS
        &&& forall|i: int|
            0 <= i < self.data[self.primary_data_index as int].len() ==> -VAL_LIMIT <= #[trigger]
                self.data[self.primary_data_index as int][i] <= VAL_LIMIT
        &&& forall|i: int|
            0 <= i < self.data[self.secondary_data_index as int].len() ==> -VAL_LIMIT
                <= #[trigger] self.data[self.secondary_data_index as int][i] <= VAL_LIMIT
        &&& match self.lttb {
            Some(t) => t == 0 || t >= 2,
            None => true,
        }
    }

    /// A single-column table: the one column is both the primary and (for
    /// value/value charts, degenerately) the secondary dimension source.
    pub fn new(data: Vec<i64>) -> (r: LineData)
        ensures
            r.primary_data_index == 0,
            r.secondary_data_index == 0,
            r.lttb is None,
            r.data@.len() == 1,
            r.data@[0] == data,
    {
        let mut table: Vec<Vec<i64>> = Vec::new();
        table.push(data);
        LineData { primary_data_index: 0, secondary_data_index: 0, lttb: None, data: table }
    }

    /// A multi-column table with the default dimension roles: column 0
    /// primary, column 1 secondary.
    pub fn from_table(data: Vec<Vec<i64>>) -> (r: LineData)
        requires
            data.len() >= 2,
        ensures
            r.primary_data_index == 0,
            r.secondary_data_index == 1,
            r.lttb is None,
            r.data == data,
    {
        LineData { primary_data_index: 0, secondary_data_index: 1, lttb: None, data }
    }
}

/// A line series.
#[derive(Debug, Clone)]
pub struct Line {
    pub stroke: Option<Stroke>,
    pub color: Option<Brush>,
    pub x_axis_index: usize,
    pub y_axis_index: usize,
    pub symbol_show: Option<bool>,
    pub symbol_stroke: Option<Stroke>,
    pub symbol_stroke_color: Option<Brush>,
    pub symbol_fill_color: Option<Brush>,
    pub symbol_size: Option<i64>,
    pub data: LineData,
}

impl Line {
    pub open spec fn wf(self) -> bool {
        &&& self.data.wf()
        &&& match self.symbol_size {
            Some(v) => 0 <= v <= PIX_LIMIT,
            None => true,
        }
    }

    /// A line series over one data column, bound to axis pair (0, 0), with
    /// every visual property falling back to the theme.
    pub fn new(data: LineData) -> (r: Line)
        ensures
            r.data == data,
            r.x_axis_index == 0,
            r.y_axis_index == 0,
            r.stroke is None,
            r.color is None,
            r.symbol_show is None,
            r.symbol_stroke is None,
            r.symbol_stroke_color is None,
            r.symbol_fill_color is None,
            r.symbol_size is None,
    {
        Line {
            stroke: None,
            color: None,
            x_axis_index: 0,
            y_axis_index: 0,
            symbol_show: None,
            symbol_stroke: None,
            symbol_stroke_color: None,
            symbol_fill_color: None,
            symbol_size: None,
            data,
        }
    }
}

/// The data table of a scatter series.
#[derive(Debug, Clone)]
pub struct ScatterData {
    pub primary_data_index: usize,
    pub secondary_data_index: usize,
    pub symbol_size_index: Option<usize>,
    pub plot_data: Vec<PlotData>,
}

impl ScatterData {
    pub open spec fn col(self, i: int) -> Seq<i64> {
        self.plot_data[i].values()
    }

    pub open spec fn wf(self) -> bool {
        &&& self.primary_data_index < self.plot_data.len()
        &&& self.secondary_data_index < self.plot_data.len()
        &&& self.plot_data[self.primary_data_index as int].is_values()
        &&& self.plot_data[self.secondary_data_index as int].is_values()
        &&& self.col(self.primary_data_index as int).len() == self.col(
            self.secondary_data_index as int,
        ).len()
        &&& 1 <= self.col(self.primary_data_index as int).len() <= MAX_POINTS
        &&& forall|i: int|
            0 <= i < self.col(self.primary_data_index as int).len() ==> -VAL_LIMIT <= #[trigger]
                self.col(self.primary_data_index as int)[i] <= VAL_LIMIT
        &&& forall|i: int|
            0 <= i < self.col(self.secondary_data_index as int).len() ==> -VAL_LIMIT
                <= #[trigger] self.col(self.secondary_data_index as int)[i] <= VAL_LIMIT
        &&& match self.symbol_size_index {
            Some(ri) => {
                &&& ri < self.plot_data.len()
                &&& self.plot_data[ri as int].is_values()
                &&& self.col(ri as int).len() >= self.col(self.primary_data_index as int).len()
                &&& forall|i: int|
                    0 <= i < self.col(ri as int).len() ==> 0 <= #[trigger] self.col(ri as int)[i]
                        <= PIX_LIMIT
            },
            None => true,
        }
    }
}

/// A scatter series.
#[derive(Debug, Clone)]
pub struct Scatter {
    pub stroke: Option<Stroke>,
    pub stroke_color: Option<Brush>,
    pub fill_color: Option<Brush>,
    pub symbol_size: Option<i64>,
    pub x_axis_index: usize,
    pub y_axis_index: usize,
    pub data: ScatterData,
}

impl Scatter {
    pub open spec fn wf(self) -> bool {
        &&& self.data.wf()
        &&& match self.symbol_size {
            Some(v) => 0 <= v <= PIX_LIMIT,
            None => true,
        }
    }

    /// A scatter series bound to axis pair (0, 0) with theme-default
    /// styling.
    pub fn new(data: ScatterData) -> (r: Scatter)
        ensures
            r.data == data,
            r.x_axis_index == 0,
            r.y_axis_index == 0,
            r.stroke is None,
            r.stroke_color is None,
            r.fill_color is None,
            r.symbol_size is None,
    {
        Scatter {
            stroke: None,
            stroke_color: None,
            fill_color: None,
            symbol_size: None,
            x_axis_index: 0,
            y_axis_index: 0,
            data,
        }
    }
}

/// A data series of either kind.
#[derive(Debug, Clone)]
pub enum Series {
    Line(Line),
    Scatter(Scatter),
}

impl Series {
    pub open spec fn wf(self) -> bool {
        match self {
            Series::Line(l) => l.wf(),
            Series::Scatter(s) => s.wf(),
        }
    }

    pub open spec fn spec_x_axis_index(self) -> int {
        match self {
            Series::Line(l) => l.x_axis_index as int,
            Series::Scatter(s) => s.x_axis_index as int,
        }
    }

    pub open spec fn spec_y_axis_index(self) -> int {
        match self {
            Series::Line(l) => l.y_axis_index as int,
            Series::Scatter(s) => s.y_axis_index as int,
        }
    }

    /// Which X axis this series binds to.
    pub fn x_axis_index(&self) -> (r: usize)
        ensures
            r == self.spec_x_axis_index(),
    {
        match self {
            Series::Line(l) => l.x_axis_index,
            Series::Scatter(s) => s.x_axis_index,
        }
    }

    /// Which Y axis this series binds to.
    pub fn y_axis_index(&self) -> (r: usize)
        ensures
            r == self.spec_y_axis_index(),
    {
        match self {
            Series::Line(l) => l.y_axis_index,
            Series::Scatter(s) => s.y_axis_index,
        }
    }
}

/// The effective downsampling threshold of a line series reading primary
/// column `pdi`: its configured threshold, or that column's length (a
/// passthrough) when none is set.
pub open spec fn line_threshold(l: Line, pdi: int) -> int {
    match l.data.lttb {
        Some(t) => t as int,
        None => l.data.data[pdi].len() as int,
    }
}

/// The projected pixel points of a line series: the (possibly downsampled)
/// columns `sdi` and `pdi` of its table, sent through the two dimension
/// projections.
pub open spec fn line_points(
    l: Line,
    xh: AxisHelper,
    yh: AxisHelper,
    off: Offsets,
    pdi: int,
    sdi: int,
) -> Seq<Point> {
    let prim = l.data.data[pdi]@;
    let sec = l.data.data[sdi]@;
    let t = line_threshold(l, pdi);
    Seq::new(
        lttb_out_len(prim.len() as int, t) as nat,
        |j: int|
            Point {
                x: spec_project(
                    AxisType::XAxis,
                    xh,
                    off,
                    j,
                    sec[lttb_index(prim, sec, t, j)] as int,
                ) as i64,
                y: spec_project(
                    AxisType::YAxis,
                    yh,
                    off,
                    j,
                    prim[lttb_index(prim, sec, t, j)] as int,
                ) as i64,
            },
    )
}

/// The primitives a line series emits: one path through its projected
/// points, and one marker set over the same points when symbols are shown.
pub open spec fn line_prims(
    l: Line,
    si: int,
    xh: AxisHelper,
    yh: AxisHelper,
    off: Offsets,
    th: Theme,
    pdi: int,
    sdi: int,
) -> Seq<PrimV> {
    let pts = line_points(l, xh, yh, off, pdi, sdi);
    let palette = th.series_colors@[si % th.series_colors@.len() as int];
    let path = PrimV::Path(
        PathV {
            stroke: spec_resolve(l.stroke, th.line.stroke),
            stroke_color: spec_resolve(l.color, palette),
            coords: pts,
        },
    );
    if spec_resolve(l.symbol_show, th.line.symbol_show) {
        seq![
            path,
            PrimV::MultiCircle(
                MultiCircleV {
                    stroke: spec_resolve(l.symbol_stroke, th.line.symbol_stroke),
                    stroke_color: spec_resolve(l.symbol_stroke_color, palette),
                    fill_color: spec_resolve(l.symbol_fill_color, th.line.symbol_fill_color),
                    coords: pts,
                    radius: spec_resolve(l.symbol_size, th.line.symbol_size) as int,
                },
            ),
        ]
    } else {
        seq![path]
    }
}

/// What a dimension helper requires of a column it projects: enough
/// category buckets, or a scale that covers every value.
pub open spec fn helper_covers(h: AxisHelper, col: Seq<i64>) -> bool {
    match h {
        AxisHelper::Category(c) => col.len() <= c.amount,
        AxisHelper::Values(vh) => forall|i: int|
            0 <= i < col.len() ==> scale_covers(vh.scale, #[trigger] col[i] as int),
    }
}

impl Line {
    /// Emit this series' path (and markers, if shown) against a resolved
    /// dimension pair, reading the given primary and secondary columns.
    pub fn draw(
        &self,
        primitives: &mut Vec<Primitives>,
        theme: &Theme,
        series_index: usize,
        x_helper: &AxisHelper,
        y_helper: &AxisHelper,
        off: &Offsets,
        pdi: usize,
        sdi: usize,
    )
        requires
            self.wf(),
            theme.wf(),
            offsets_drawable(*off),
            x_helper.wf(),
            y_helper.wf(),
            pdi < self.data.data.len(),
            sdi < self.data.data.len(),
            self.data.data[pdi as int].len() == self.data.data[sdi as int].len(),
            self.data.data[pdi as int].len() <= MAX_POINTS,
            forall|i: int|
                0 <= i < self.data.data[pdi as int].len() ==> -VAL_LIMIT <= #[trigger]
                    self.data.data[pdi as int][i] <= VAL_LIMIT,
            forall|i: int|
                0 <= i < self.data.data[sdi as int].len() ==> -VAL_LIMIT <= #[trigger]
                    self.data.data[sdi as int][i] <= VAL_LIMIT,
            helper_covers(*x_helper, self.data.data[sdi as int]@),
            helper_covers(*y_helper, self.data.data[pdi as int]@),
        ensures
            prims_view(final(primitives)@) == prims_view(old(primitives)@) + line_prims(
                *self,
                series_index as int,
                *x_helper,
                *y_helper,
                *off,
                *theme,
                pdi as int,
                sdi as int,
            ),
    {
        let ghost gpts = line_points(*self, *x_helper, *y_helper, *off, pdi as int, sdi as int);
        let col_p = &self.data.data[pdi];
        let col_s = &self.data.data[sdi];
        let n = col_p.len();
        let mut pts: Vec<Point> = Vec::new();
        let mut marker_pts: Vec<Point> = Vec::new();
        match self.data.lttb {
            Some(t) => {
                let (rp, rs) = lttb(col_p, col_s, t);
                let m = rp.len();
                proof {
                    assert(m == lttb_out_len(col_p@.len() as int, t as int));
                }
                let mut j: usize = 0;
                while j < m
                    invariant
                        0 <= j <= m == rp@.len() == rs@.len(),
                        m == lttb_out_len(col_p@.len() as int, line_threshold(*self, pdi as int)),
                        self.wf(),
                        theme.wf(),
                        offsets_drawable(*off),
                        x_helper.wf(),
                        y_helper.wf(),
                        pdi < self.data.data.len(),
                        sdi < self.data.data.len(),
                        col_p == self.data.data[pdi as int],
                        col_s == self.data.data[sdi as int],
                        col_p@.len() == col_s@.len() <= MAX_POINTS,
                        self.data.lttb == Some(t as usize),
                        t as int == line_threshold(*self, pdi as int),
                        t == 0 || t >= 2,
                        forall|i: int|
                            0 <= i < rp@.len() ==> #[trigger] rp@[i] == col_p@[lttb_index(
                                col_p@,
                                col_s@,
                                t as int,
                                i,
                            )],
                        forall|i: int|
                            0 <= i < rs@.len() ==> #[trigger] rs@[i] == col_s@[lttb_index(
                                col_p@,
                                col_s@,
                                t as int,
                                i,
                            )],
                        helper_covers(*x_helper, col_s@),
                        helper_covers(*y_helper, col_p@),
                        gpts == line_points(*self, *x_helper, *y_helper, *off, pdi as int,
                            sdi as int),
                        pts@ == gpts.take(j as int),
                        marker_pts@ == gpts.take(j as int),
                    decreases m - j,
                {
                    proof {
                        crate::lttb::lemma_lttb_index_bounds(col_p@, col_s@, t as int, j as int);
                    }
                    let vx = rs[j];
                    let vy = rp[j];
                    let px = project(&AxisType::XAxis, x_helper, off, j, vx);
                    let py = project(&AxisType::YAxis, y_helper, off, j, vy);
                    let pt = Point { x: px, y: py };
                    proof {
                        assert(pt == gpts[j as int]);
                        assert(gpts.take(j + 1) =~= gpts.take(j as int).push(gpts[j as int]));
                    }
                    pts.push(pt);
                    marker_pts.push(pt);
                    j = j + 1;
                }
                proof {
                    assert(gpts.take(m as int) =~= gpts);
                }
            },
            None => {
                let mut j: usize = 0;
                while j < n
                    invariant
                        0 <= j <= n,
                        self.wf(),
                        theme.wf(),
                        offsets_drawable(*off),
                        x_helper.wf(),
                        y_helper.wf(),
                        pdi < self.data.data.len(),
                        sdi < self.data.data.len(),
                        col_p == self.data.data[pdi as int],
                        col_s == self.data.data[sdi as int],
                        n == col_p@.len() == col_s@.len(),
                        n <= MAX_POINTS,
                        forall|i: int|
                            0 <= i < col_s@.len() ==> -VAL_LIMIT <= #[trigger] col_s@[i]
                                <= VAL_LIMIT,
                        forall|i: int|
                            0 <= i < col_p@.len() ==> -VAL_LIMIT <= #[trigger] col_p@[i]
                                <= VAL_LIMIT,
                        self.data.lttb is None,
                        n as int == line_threshold(*self, pdi as int),
                        helper_covers(*x_helper, col_s@),
                        helper_covers(*y_helper, col_p@),
                        gpts == line_points(*self, *x_helper, *y_helper, *off, pdi as int,
                            sdi as int),
                        gpts.len() == n,
                        pts@ == gpts.take(j as int),
                        marker_pts@ == gpts.take(j as int),
                    decreases n - j,
                {
                    let vx = col_s[j];
                    let vy = col_p[j];
                    let px = project(&AxisType::XAxis, x_helper, off, j, vx);
                    let py = project(&AxisType::YAxis, y_helper, off, j, vy);
                    let pt = Point { x: px, y: py };
                    proof {
                        assert(lttb_passthrough(col_p@.len() as int, line_threshold(*self, pdi as int)));
                        assert(lttb_index(col_p@, col_s@, line_threshold(*self, pdi as int), j as int)
                            == j as int);
                        assert(pt == gpts[j as int]);
                        assert(gpts.take(j + 1) =~= gpts.take(j as int).push(gpts[j as int]));
                    }
                    pts.push(pt);
                    marker_pts.push(pt);
                    j = j + 1;
                }
                proof {
                    assert(gpts.take(n as int) =~= gpts);
                }
            },
        }
        let palette_len = theme.series_colors.len();
        let palette = theme.series_colors[series_index % palette_len];
        let path = Primitives::Path(
            crate::primitives::Path {
                stroke: resolve(self.stroke, theme.line.stroke),
                stroke_color: resolve(self.color, palette),
                coords: pts,
            },
        );
        proof {
            lemma_prims_view_push(primitives@, path);
        }
        primitives.push(path);
        if resolve(self.symbol_show, theme.line.symbol_show) {
            let markers = Primitives::MultiCircle(
                crate::primitives::MultiCircle {
                    stroke: resolve(self.symbol_stroke, theme.line.symbol_stroke),
                    stroke_color: resolve(self.symbol_stroke_color, palette),
                    fill_color: resolve(self.symbol_fill_color, theme.line.symbol_fill_color),
                    coords: marker_pts,
                    radius: resolve(self.symbol_size, theme.line.symbol_size),
                },
            );
            proof {
                lemma_prims_view_push(primitives@, markers);
            }
            primitives.push(markers);
            proof {
                assert(prims_view(primitives@) =~= prims_view(old(primitives)@) + line_prims(
                    *self,
                    series_index as int,
                    *x_helper,
                    *y_helper,
                    *off,
                    *theme,
                    pdi as int,
                    sdi as int,
                ));
            }
        } else {
            proof {
                assert(prims_view(primitives@) =~= prims_view(old(primitives)@) + line_prims(
                    *self,
                    series_index as int,
                    *x_helper,
                    *y_helper,
                    *off,
                    *theme,
                    pdi as int,
                    sdi as int,
                ));
            }
        }
    }

    /// Project and draw this series against a dimension pair, choosing the
    /// data columns by the pair's axis kinds: against a category dimension
    /// only the primary column carries values; between two value dimensions
    /// the secondary column supplies the X values.
    pub fn draw_line(
        &self,
        series_index: usize,
        x_helper: &AxisHelper,
        y_helper: &AxisHelper,
        off: &Offsets,
        primitives: &mut Vec<Primitives>,
        theme: &Theme,
    )
        requires
            self.wf(),
            theme.wf(),
            offsets_drawable(*off),
            x_helper.wf(),
            y_helper.wf(),
            !(x_helper is Category && y_helper is Category),
            x_helper is Values && y_helper is Values ==> helper_covers(
                *x_helper,
                self.data.data[self.data.secondary_data_index as int]@,
            ) && self.data.secondary_data_index < self.data.data.len(),
            !(x_helper is Values && y_helper is Values) ==> helper_covers(
                *x_helper,
                self.data.data[self.data.primary_data_index as int]@,
            ),
            helper_covers(*y_helper, self.data.data[self.data.primary_data_index as int]@),
            x_helper is Values && y_helper is Values ==> self.data.data[
                self.data.secondary_data_index as int
            ].len() == self.data.data[self.data.primary_data_index as int].len() && forall|
                i: int,
            |
                0 <= i < self.data.data[self.data.secondary_data_index as int].len()
                    ==> -VAL_LIMIT <= #[trigger] self.data.data[
                    self.data.secondary_data_index as int
                ][i] <= VAL_LIMIT,
        ensures
            prims_view(final(primitives)@) == prims_view(old(primitives)@) + line_draw_prims(
                *self,
                series_index as int,
                *x_helper,
                *y_helper,
                *off,
                *theme,
            ),
    {
        match (x_helper, y_helper) {
            (AxisHelper::Values(_), AxisHelper::Values(_)) => {
                self.draw(
                    primitives,
                    theme,
                    series_index,
                    x_helper,
                    y_helper,
                    off,
                    self.data.primary_data_index,
                    self.data.secondary_data_index,
                );
            },
            _ => {
                self.draw(
                    primitives,
                    theme,
                    series_index,
                    x_helper,
                    y_helper,
                    off,
                    self.data.primary_data_index,
                    self.data.primary_data_index,
                );
            },
        }
    }
}

/// The primitives a line series emits against a dimension pair, with the
/// data columns picked by the pair's axis kinds.
pub open spec fn line_draw_prims(
    l: Line,
    si: int,
    xh: AxisHelper,
    yh: AxisHelper,
    off: Offsets,
    th: Theme,
) -> Seq<PrimV> {
    if xh is Values && yh is Values {
        line_prims(
            l,
            si,
            xh,
            yh,
            off,
            th,
            l.data.primary_data_index as int,
            l.data.secondary_data_index as int,
        )
    } else {
        line_prims(
            l,
            si,
            xh,
            yh,
            off,
            th,
            l.data.primary_data_index as int,
            l.data.primary_data_index as int,
        )
    }
}


/// The primitives a scatter series emits: one circle per data point, sized
/// by the radius dimension when one is configured.
pub open spec fn scatter_prims(
    sc: Scatter,
    si: int,
    xh: AxisHelper,
    yh: AxisHelper,
    off: Offsets,
    th: Theme,
    pdi: int,
    sdi: int,
) -> Seq<PrimV> {
    let prim = sc.data.col(pdi);
    let sec = sc.data.col(sdi);
    Seq::new(
        prim.len() as nat,
        |i: int|
            PrimV::Circle(
                Circle {
                    stroke: spec_resolve(sc.stroke, th.scatter.stroke),
                    stroke_color: spec_resolve(sc.stroke_color, th.scatter.stroke_color),
                    fill_color: spec_resolve(
                        sc.fill_color,
                        th.series_colors@[si % th.series_colors@.len() as int],
                    ),
                    coord: Point {
                        x: spec_project(AxisType::XAxis, xh, off, i, sec[i] as int) as i64,
                        y: spec_project(AxisType::YAxis, yh, off, i, prim[i] as int) as i64,
                    },
                    radius: match sc.data.symbol_size_index {
                        Some(ri) => sc.data.col(ri as int)[i],
                        None => spec_resolve(sc.symbol_size, th.scatter.symbol_size),
                    },
                },
            ),
    )
}

impl Scatter {
    /// Emit one sized circle per point against a resolved dimension pair,
    /// reading the given primary and secondary columns.
    pub fn draw(
        &self,
        primitives: &mut Vec<Primitives>,
        theme: &Theme,
        series_index: usize,
        x_helper: &AxisHelper,
        y_helper: &AxisHelper,
        off: &Offsets,
        pdi: usize,
        sdi: usize,
    )
        requires
            self.wf(),
            theme.wf(),
            offsets_drawable(*off),
            x_helper.wf(),
            y_helper.wf(),
            pdi < self.data.plot_data.len(),
            sdi < self.data.plot_data.len(),
            pdi == self.data.primary_data_index,
            self.data.plot_data[pdi as int].is_values(),
            self.data.plot_data[sdi as int].is_values(),
            self.data.col(pdi as int).len() == self.data.col(sdi as int).len(),
            self.data.col(pdi as int).len() <= MAX_POINTS,
            helper_covers(*x_helper, match self.data.plot_data[sdi as int] {
                PlotData::Values(v) => v@,
                PlotData::Labels(_) => Seq::empty(),
            }),
            helper_covers(*y_helper, match self.data.plot_data[pdi as int] {
                PlotData::Values(v) => v@,
                PlotData::Labels(_) => Seq::empty(),
            }),
        ensures
            prims_view(final(primitives)@) == prims_view(old(primitives)@) + scatter_prims(
                *self,
                series_index as int,
                *x_helper,
                *y_helper,
                *off,
                *theme,
                pdi as int,
                sdi as int,
            ),
    {
        let ghost expected = scatter_prims(*self, series_index as int, *x_helper, *y_helper,
            *off, *theme, pdi as int, sdi as int);
        let col_p: &Vec<i64> = match &self.data.plot_data[pdi] {
            PlotData::Values(v) => v,
            PlotData::Labels(_) => unreached(),
        };
        let col_s: &Vec<i64> = match &self.data.plot_data[sdi] {
            PlotData::Values(v) => v,
            PlotData::Labels(_) => unreached(),
        };
        let n = col_p.len();
        let stroke = resolve(self.stroke, theme.scatter.stroke);
        let stroke_color = resolve(self.stroke_color, theme.scatter.stroke_color);
        let palette_len = theme.series_colors.len();
        let fill = resolve(self.fill_color, theme.series_colors[series_index % palette_len]);
        let mut i: usize = 0;
        while i < n
            invariant
                0 <= i <= n,
                self.wf(),
                theme.wf(),
                offsets_drawable(*off),
                x_helper.wf(),
                y_helper.wf(),
                pdi < self.data.plot_data.len(),
                sdi < self.data.plot_data.len(),
                pdi == self.data.primary_data_index,
                col_p@ == self.data.col(pdi as int),
                col_s@ == self.data.col(sdi as int),
                n == col_p@.len() == col_s@.len(),
                n <= MAX_POINTS,
                helper_covers(*x_helper, col_s@),
                helper_covers(*y_helper, col_p@),
                stroke == spec_resolve(self.stroke, theme.scatter.stroke),
                stroke_color == spec_resolve(self.stroke_color, theme.scatter.stroke_color),
                fill == spec_resolve(
                    self.fill_color,
                    theme.series_colors@[series_index as int % theme.series_colors@.len() as int],
                ),
                expected == scatter_prims(*self, series_index as int, *x_helper, *y_helper,
                    *off, *theme, pdi as int, sdi as int),
                prims_view(primitives@) == prims_view(old(primitives)@) + expected.take(i as int),
            decreases n - i,
        {
            let vx = col_s[i];
            let vy = col_p[i];
            let px = project(&AxisType::XAxis, x_helper, off, i, vx);
            let py = project(&AxisType::YAxis, y_helper, off, i, vy);
            let radius: i64 = match self.data.symbol_size_index {
                Some(ri) => {
                    let rv: &Vec<i64> = match &self.data.plot_data[ri] {
                        PlotData::Values(v) => v,
                        PlotData::Labels(_) => unreached(),
                    };
                    proof {
                        assert(self.data.plot_data[ri as int].is_values());
                        assert(rv@ == self.data.col(ri as int));
                        assert(rv@.len() >= self.data.col(
                            self.data.primary_data_index as int,
                        ).len());
                    }
                    rv[i]
                },
                None => resolve(self.symbol_size, theme.scatter.symbol_size),
            };
            let p = Primitives::Circle(
                Circle {
                    stroke,
                    stroke_color,
                    fill_color: fill,
                    coord: Point { x: px, y: py },
                    radius,
                },
            );
            proof {
                lemma_prims_view_push(primitives@, p);
                assert(p@ == expected[i as int]);
                assert(expected.take(i + 1) =~= expected.take(i as int).push(expected[i as int]));
            }
            primitives.push(p);
            i = i + 1;
        }
        proof {
            assert(expected.take(n as int) =~= expected);
        }
    }

    /// Project and draw this series against a dimension pair, choosing the
    /// data columns by the pair's axis kinds.
    pub fn draw_scatter(
        &self,
        series_index: usize,
        x_helper: &AxisHelper,
        y_helper: &AxisHelper,
        off: &Offsets,
        primitives: &mut Vec<Primitives>,
        theme: &Theme,
    )
        requires
            self.wf(),
            theme.wf(),
            offsets_drawable(*off),
            x_helper.wf(),
            y_helper.wf(),
            !(x_helper is Category && y_helper is Category),
            !(x_helper is Values && y_helper is Values) ==> helper_covers(
                *x_helper,
                self.data.col(self.data.primary_data_index as int),
            ),
            helper_covers(*y_helper, self.data.col(self.data.primary_data_index as int)),
            x_helper is Values && y_helper is Values ==> helper_covers(
                *x_helper,
                self.data.col(self.data.secondary_data_index as int),
            ),
        ensures
            prims_view(final(primitives)@) == prims_view(old(primitives)@) + scatter_draw_prims(
                *self,
                series_index as int,
                *x_helper,
                *y_helper,
                *off,
                *theme,
            ),
    {
        match (x_helper, y_helper) {
            (AxisHelper::Values(_), AxisHelper::Values(_)) => {
                self.draw(
                    primitives,
                    theme,
                    series_index,
                    x_helper,
                    y_helper,
                    off,
                    self.data.primary_data_index,
                    self.data.secondary_data_index,
                );
            },
            _ => {
                self.draw(
                    primitives,
                    theme,
                    series_index,
                    x_helper,
                    y_helper,
                    off,
                    self.data.primary_data_index,
                    self.data.primary_data_index,
                );
            },
        }
    }
}

/// The primitives a scatter series emits against a dimension pair, with
/// the data columns picked by the pair's axis kinds.
pub open spec fn scatter_draw_prims(
    sc: Scatter,
    si: int,
    xh: AxisHelper,
    yh: AxisHelper,
    off: Offsets,
    th: Theme,
) -> Seq<PrimV> {
    if xh is Values && yh is Values {
        scatter_prims(
            sc,
            si,
            xh,
            yh,
            off,
            th,
            sc.data.primary_data_index as int,
            sc.data.secondary_data_index as int,
        )
    } else {
        scatter_prims(
            sc,
            si,
            xh,
            yh,
            off,
            th,
            sc.data.primary_data_index as int,
            sc.data.primary_data_index as int,
        )
    }
}

/// The primary data column of a series (the dimension plotted against its
/// value axis).
pub open spec fn series_primary_col(s: Series) -> Seq<i64> {
    match s {
        Series::Line(l) => l.data.data[l.data.primary_data_index as int]@,
        Series::Scatter(sc) => sc.data.col(sc.data.primary_data_index as int),
    }
}

/// The secondary data column of a series (the paired dimension between two
/// value axes).
pub open spec fn series_secondary_col(s: Series) -> Seq<i64> {
    match s {
        Series::Line(l) => l.data.data[l.data.secondary_data_index as int]@,
        Series::Scatter(sc) => sc.data.col(sc.data.secondary_data_index as int),
    }
}

impl Series {
    /// Raw component-wise range of this series' primary or secondary
    /// column.
    pub fn get_raw_range(&self, primary: bool) -> (r: (i64, i64))
        requires
            self.wf(),
        ensures
            r.0 == crate::scale::seq_min(
                if primary {
                    series_primary_col(*self)
                } else {
                    series_secondary_col(*self)
                },
            ),
            r.1 == crate::scale::seq_max(
                if primary {
                    series_primary_col(*self)
                } else {
                    series_secondary_col(*self)
                },
            ),
    {
        match self {
            Series::Line(l) => {
                let col = if primary {
                    &l.data.data[l.data.primary_data_index]
                } else {
                    &l.data.data[l.data.secondary_data_index]
                };
                crate::scale::get_raw_range(col)
            },
            Series::Scatter(sc) => {
                let idx = if primary {
                    sc.data.primary_data_index
                } else {
                    sc.data.secondary_data_index
                };
                let col: &Vec<i64> = match &sc.data.plot_data[idx] {
                    PlotData::Values(v) => v,
                    PlotData::Labels(_) => unreached(),
                };
                crate::scale::get_raw_range(col)
            },
        }
    }
}


impl From<Line> for Series {
    fn from(value: Line) -> Series {
        Series::Line(value)
    }
}

impl vstd::std_specs::convert::FromSpecImpl<Line> for Series {
    open spec fn obeys_from_spec() -> bool {
        true
    }

    open spec fn from_spec(t: Line) -> Series {
        Series::Line(t)
    }
}

impl From<Scatter> for Series {
    fn from(value: Scatter) -> Series {
        Series::Scatter(value)
    }
}

impl vstd::std_specs::convert::FromSpecImpl<Scatter> for Series {
    open spec fn obeys_from_spec() -> bool {
        true
    }

    open spec fn from_spec(t: Scatter) -> Series {
        Series::Scatter(t)
    }
}

impl From<Vec<i64>> for PlotData {
    fn from(value: Vec<i64>) -> PlotData {
        PlotData::Values(value)
    }
}

impl vstd::std_specs::convert::FromSpecImpl<Vec<i64>> for PlotData {
    open spec fn obeys_from_spec() -> bool {
        true
    }

    open spec fn from_spec(t: Vec<i64>) -> PlotData {
        PlotData::Values(t)
    }
}

impl From<Vec<String>> for PlotData {
    fn from(value: Vec<String>) -> PlotData {
        PlotData::Labels(value)
    }
}

impl vstd::std_specs::convert::FromSpecImpl<Vec<String>> for PlotData {
    open spec fn obeys_from_spec() -> bool {
        true
    }

    open spec fn from_spec(t: Vec<String>) -> PlotData {
        PlotData::Labels(t)
    }
}


} // verus!
