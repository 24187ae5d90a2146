//! CartesianEngine: pair every configured X axis with every Y axis, resolve
//! one scale per value axis from the union of the series bound to it, draw
//! each axis's furniture exactly once, and project every matching series,
//! in a fixed drawing order: grid lines, ticks, labels, series geometry,
//! then the axis lines on top.

use vstd::prelude::*;
use crate::axis::{
    AxisCategoryHelper, AxisHelper, AxisType, AxisValuesHelper, CartesianAxis, MAX_AXES,
    offsets_drawable,
};
use crate::axis::{cat_axis_line_prims, cat_labels_prims, cat_split_prims, cat_ticks_prims};
use crate::axis::{val_axis_line_prims, val_labels_prims, val_split_prims, val_ticks_prims};
use crate::element::Offsets;
use crate::primitives::{PrimV, Primitives, prims_view};
use crate::scale::{
    ScaleResult, get_scale_details, scale_post, seq_min, seq_max, the_scale, lemma_the_scale,
    lemma_seq_min_max, lemma_scale_helper_facts,
};
use crate::series::{
    Series, helper_covers, line_draw_prims, scatter_draw_prims, series_primary_col,
    series_secondary_col,
};
use crate::theme::Theme;
use crate::VAL_LIMIT;

verus! {

/// Most series one chart may hold.
pub const MAX_SERIES: usize = 10_000;

/// A configuration error, naming what is wrong: a plot area with no room in
/// one dimension, two category axis sets (unsupported), or a value axis
/// with no series bound to it when its scale is required.
#[derive(Debug, Clone, Copy, PartialEq, Eq, Structural)]
pub enum ChartError {
    DegenerateSpan(AxisType),
    CategoryCategoryPair,
    UnboundValueAxis(AxisType, usize),
}

/// The Cartesian coordinate system: its two axis sets and the series bound
/// to them.
#[derive(Debug, Clone)]
pub struct Cartesian {
    pub series: Vec<Series>,
    pub x_axis: CartesianAxis,
    pub y_axis: CartesianAxis,
}

/// The coordinate system of a chart.
#[derive(Debug, Clone)]
pub enum CoordinateSystem {
    Cartesian(Cartesian),
}

/// Whether a series binds to axis `j` of the X (or Y) dimension.
pub open spec fn series_matches_axis(s: Series, x_dim: bool, j: int) -> bool {
    if x_dim {
        s.spec_x_axis_index() == j
    } else {
        s.spec_y_axis_index() == j
    }
}

/// The column of a series that contributes to a value axis of a dimension:
/// the primary column, except for the X dimension of a value/value chart,
/// which reads the secondary column.
pub open spec fn series_axis_col(s: Series, primary: bool) -> Seq<i64> {
    if primary {
        series_primary_col(s)
    } else {
        series_secondary_col(s)
    }
}

/// Raw component-wise range union over the first `i` series bound to axis
/// `j` of a dimension; `None` while no bound series was seen.
pub open spec fn union_range_to(
    series: Seq<Series>,
    x_dim: bool,
    j: int,
    primary: bool,
    i: int,
) -> Option<(int, int)>
    decreases i,
{
    if i <= 0 {
        None
    } else {
        let rest = union_range_to(series, x_dim, j, primary, i - 1);
        if series_matches_axis(series[i - 1], x_dim, j) {
            let col = series_axis_col(series[i - 1], primary);
            let mn = seq_min(col);
            let mx = seq_max(col);
            match rest {
                None => Some((mn, mx)),
                Some((a, b)) => Some(
                    (
                        if mn < a {
                            mn
                        } else {
                            a
                        },
                        if mx > b {
                            mx
                        } else {
                            b
                        },
                    ),
                ),
            }
        } else {
            rest
        }
    }
}

/// Raw range union over every series bound to an axis.
pub open spec fn union_range(series: Seq<Series>, x_dim: bool, j: int, primary: bool) -> Option<
    (int, int),
> {
    union_range_to(series, x_dim, j, primary, series.len() as int)
}

/// The one scale the contract admits for an axis (meaningful when some
/// series is bound to it).
pub open spec fn scale_of_axis(series: Seq<Series>, x_dim: bool, j: int, primary: bool)
    -> ScaleResult {
    match union_range(series, x_dim, j, primary) {
        Some(r) => the_scale(r.0, r.1),
        None => arbitrary(),
    }
}

/// The first axis index of a dimension with no bound series, if any.
pub open spec fn first_unbound(
    series: Seq<Series>,
    x_dim: bool,
    n_axes: int,
    primary: bool,
    j: int,
) -> Option<int>
    decreases n_axes - j,
{
    if j >= n_axes {
        None
    } else if union_range(series, x_dim, j, primary) is None {
        Some(j)
    } else {
        first_unbound(series, x_dim, n_axes, primary, j + 1)
    }
}

/// The union bracket of every series bound to the axis.
pub proof fn lemma_union_covers(
    series: Seq<Series>,
    x_dim: bool,
    j: int,
    primary: bool,
    i: int,
    k: int,
)
    requires
        0 <= k < i <= series.len(),
        series_matches_axis(series[k], x_dim, j),
    ensures
        union_range_to(series, x_dim, j, primary, i) is Some,
        union_range_to(series, x_dim, j, primary, i) matches Some(r) && r.0 <= seq_min(
            series_axis_col(series[k], primary),
        ) && seq_max(series_axis_col(series[k], primary)) <= r.1,
    decreases i,
{
    if k < i - 1 {
        lemma_union_covers(series, x_dim, j, primary, i - 1, k);
    }
}

/// The union range stays inside the data bounds.
pub proof fn lemma_union_bounds(
    series: Seq<Series>,
    x_dim: bool,
    j: int,
    primary: bool,
    i: int,
)
    requires
        0 <= i <= series.len(),
        forall|k: int| 0 <= k < series.len() ==> (#[trigger] series[k]).wf(),
        forall|k: int|
            0 <= k < series.len() ==> series_axis_col(#[trigger] series[k], primary).len() >= 1,
        forall|k: int, v: int|
            0 <= k < series.len() && 0 <= v < series_axis_col(series[k], primary).len()
                ==> -VAL_LIMIT <= #[trigger] series_axis_col(series[k], primary)[v]
                <= VAL_LIMIT,
    ensures
        union_range_to(series, x_dim, j, primary, i) matches Some(r) ==> -VAL_LIMIT <= r.0
            <= r.1 <= VAL_LIMIT,
    decreases i,
{
    if i > 0 {
        lemma_union_bounds(series, x_dim, j, primary, i - 1);
        if series_matches_axis(series[i - 1], x_dim, j) {
            let col = series_axis_col(series[i - 1], primary);
            lemma_seq_min_max(col);
            let a = choose|a: int| 0 <= a < col.len() && col[a] == seq_min(col);
            let b = choose|b: int| 0 <= b < col.len() && col[b] == seq_max(col);
            assert(-VAL_LIMIT <= col[a] <= VAL_LIMIT);
            assert(-VAL_LIMIT <= col[b] <= VAL_LIMIT);
        }
    }
}

/// Resolve one scale per axis of a value dimension, reading each axis's
/// bound series; reports the first axis with no bound series instead.
fn resolve_scales(
    series: &Vec<Series>,
    x_dim: bool,
    n_axes: usize,
    primary: bool,
) -> (r: Result<Vec<ScaleResult>, usize>)
    requires
        series.len() <= MAX_SERIES,
        n_axes <= MAX_AXES,
        forall|k: int| 0 <= k < series.len() ==> (#[trigger] series@[k]).wf(),
        forall|k: int|
            0 <= k < series.len() ==> series_axis_col(#[trigger] series@[k], primary).len()
                >= 1,
        forall|k: int, v: int|
            0 <= k < series.len() && 0 <= v < series_axis_col(series@[k], primary).len()
                ==> -VAL_LIMIT <= #[trigger] series_axis_col(series@[k], primary)[v]
                <= VAL_LIMIT,
    ensures
        match r {
            Ok(scales) => {
                &&& first_unbound(series@, x_dim, n_axes as int, primary, 0) is None
                &&& forall|j: int|
                    0 <= j < n_axes ==> #[trigger] union_range(series@, x_dim, j, primary)
                        is Some
                &&& scales@.len() == n_axes
                &&& forall|j: int|
                    0 <= j < n_axes ==> #[trigger] scales@[j] == scale_of_axis(
                        series@,
                        x_dim,
                        j,
                        primary,
                    ) && scales@[j].wf() && (union_range(series@, x_dim, j, primary)
                        matches Some(u) && scale_post(u.0, u.1, scales@[j]))
            },
            Err(j) => first_unbound(series@, x_dim, n_axes as int, primary, 0) == Some(
                j as int,
            ),
        },
{
    let mut scales: Vec<ScaleResult> = Vec::new();
    let mut j: usize = 0;
    while j < n_axes
        invariant
            0 <= j <= n_axes <= MAX_AXES,
            series.len() <= MAX_SERIES,
            forall|k: int| 0 <= k < series.len() ==> (#[trigger] series@[k]).wf(),
            forall|k: int|
                0 <= k < series.len() ==> series_axis_col(#[trigger] series@[k], primary).len()
                    >= 1,
            forall|k: int, v: int|
                0 <= k < series.len() && 0 <= v < series_axis_col(series@[k], primary).len()
                    ==> -VAL_LIMIT <= #[trigger] series_axis_col(series@[k], primary)[v]
                    <= VAL_LIMIT,
            scales@.len() == j,
            forall|q: int|
                0 <= q < j ==> #[trigger] scales@[q] == scale_of_axis(series@, x_dim, q,
                    primary) && scales@[q].wf() && (union_range(series@, x_dim, q, primary)
                    matches Some(u) && scale_post(u.0, u.1, scales@[q])),
            forall|q: int| 0 <= q < j ==> union_range(series@, x_dim, q, primary) is Some,
            first_unbound(series@, x_dim, n_axes as int, primary, 0) == first_unbound(
                series@,
                x_dim,
                n_axes as int,
                primary,
                j as int,
            ),
        decreases n_axes - j,
    {
        let mut acc: Option<(i64, i64)> = None;
        let mut k: usize = 0;
        while k < series.len()
            invariant
                0 <= k <= series.len() <= MAX_SERIES,
                forall|q: int| 0 <= q < series.len() ==> (#[trigger] series@[q]).wf(),
                forall|q: int|
                    0 <= q < series.len() ==> series_axis_col(#[trigger] series@[q],
                        primary).len() >= 1,
                forall|q: int, v: int|
                    0 <= q < series.len() && 0 <= v < series_axis_col(series@[q],
                        primary).len() ==> -VAL_LIMIT <= #[trigger] series_axis_col(
                        series@[q],
                        primary,
                    )[v] <= VAL_LIMIT,
                match acc {
                    Some(p) => union_range_to(series@, x_dim, j as int, primary, k as int)
                        == Some((p.0 as int, p.1 as int)) && -VAL_LIMIT <= p.0 <= p.1
                        <= VAL_LIMIT,
                    None => union_range_to(series@, x_dim, j as int, primary, k as int)
                        is None,
                },
            decreases series.len() - k,
        {
            let s = &series[k];
            let idx = if x_dim {
                s.x_axis_index()
            } else {
                s.y_axis_index()
            };
            if idx == j {
                let (mn, mx) = s.get_raw_range(primary);
                proof {
                    let col = series_axis_col(series@[k as int], primary);
                    lemma_seq_min_max(col);
                    let a = choose|a: int| 0 <= a < col.len() && col[a] == seq_min(col);
                    let b = choose|b: int| 0 <= b < col.len() && col[b] == seq_max(col);
                    assert(-VAL_LIMIT <= col[a] <= VAL_LIMIT);
                    assert(-VAL_LIMIT <= col[b] <= VAL_LIMIT);
                }
                acc = match acc {
                    None => Some((mn, mx)),
                    Some((a, b)) => Some(
                        (
                            if mn < a {
                                mn
                            } else {
                                a
                            },
                            if mx > b {
                                mx
                            } else {
                                b
                            },
                        ),
                    ),
                };
            }
            k = k + 1;
        }
        match acc {
            None => {
                return Err(j);
            },
            Some((mn, mx)) => {
                let sc = get_scale_details(mn, mx);
                proof {
                    lemma_the_scale(mn as int, mx as int, sc);
                }
                scales.push(sc);
            },
        }
        j = j + 1;
    }
    Ok(scales)
}


/// Concatenation of `f(0) + f(1) + ... + f(n-1)`.
pub open spec fn concat_map(n: int, f: spec_fn(int) -> Seq<PrimV>) -> Seq<PrimV>
    decreases n,
{
    if n <= 0 {
        Seq::empty()
    } else {
        concat_map(n - 1, f) + f(n - 1)
    }
}

/// A non-empty, bounded, well-formed axis list.
pub open spec fn axes_wf(a: CartesianAxis) -> bool {
    match a {
        CartesianAxis::Category(v) => 1 <= v.len() <= MAX_AXES && forall|i: int|
            0 <= i < v.len() ==> (#[trigger] v[i]).wf(),
        CartesianAxis::Value(v) => 1 <= v.len() <= MAX_AXES && forall|i: int|
            0 <= i < v.len() ==> (#[trigger] v[i]).wf(),
    }
}

/// The grid lines of every axis of one dimension, in axis order.
pub open spec fn dim_split_prims(
    axes: CartesianAxis,
    at: AxisType,
    off: Offsets,
    th: Theme,
    scales: Seq<ScaleResult>,
) -> Seq<PrimV> {
    match axes {
        CartesianAxis::Category(v) => concat_map(
            v.len() as int,
            |i: int| cat_split_prims(v@[i], at, off, th),
        ),
        CartesianAxis::Value(v) => concat_map(
            v.len() as int,
            |i: int| val_split_prims(v@[i], at, off, th, scales[i]),
        ),
    }
}

/// Draw the grid lines of every axis of one dimension.
fn phase_split(
    axes: &CartesianAxis,
    at: &AxisType,
    scales: &Vec<ScaleResult>,
    primitives: &mut Vec<Primitives>,
    off: &Offsets,
    theme: &Theme,
)
    requires
        axes_wf(*axes),
        theme.wf(),
        offsets_drawable(*off),
        match *axes {
            CartesianAxis::Value(v) => scales@.len() == v.len() && (forall|j: int|
                0 <= j < v.len() ==> (#[trigger] scales@[j]).wf()),
            CartesianAxis::Category(_) => true,
        },
    ensures
        prims_view(final(primitives)@) == prims_view(old(primitives)@) + dim_split_prims(
            *axes,
            *at,
            *off,
            *theme,
            scales@,
        ),
{
    match axes {
        CartesianAxis::Category(v) => {
            let mut i: usize = 0;
            while i < v.len()
                invariant
                    0 <= i <= v.len() <= MAX_AXES,
                    forall|q: int| 0 <= q < v.len() ==> (#[trigger] v@[q]).wf(),
                    theme.wf(),
                    offsets_drawable(*off),
                    prims_view(primitives@) == prims_view(old(primitives)@) + concat_map(
                        i as int,
                        |q: int| cat_split_prims(v@[q], *at, *off, *theme),
                    ),
                decreases v.len() - i,
            {
                v[i].draw_split_lines(at, primitives, off, theme);
                proof {
                    assert(concat_map(i + 1, |q: int| cat_split_prims(v@[q], *at, *off, *theme)) == concat_map(
                        i as int,
                        |q: int| cat_split_prims(v@[q], *at, *off, *theme),
                    ) + cat_split_prims(v@[i as int], *at, *off, *theme));
                    assert(prims_view(primitives@) =~= prims_view(old(primitives)@)
                        + concat_map(i + 1, |q: int| cat_split_prims(v@[q], *at, *off, *theme)));
                }
                i = i + 1;
            }
        },
        CartesianAxis::Value(v) => {
            let mut i: usize = 0;
            while i < v.len()
                invariant
                    0 <= i <= v.len() <= MAX_AXES,
                    forall|q: int| 0 <= q < v.len() ==> (#[trigger] v@[q]).wf(),
                    scales@.len() == v.len(),
                    forall|j: int| 0 <= j < v.len() ==> (#[trigger] scales@[j]).wf(),
                    theme.wf(),
                    offsets_drawable(*off),
                    prims_view(primitives@) == prims_view(old(primitives)@) + concat_map(
                        i as int,
                        |q: int| val_split_prims(v@[q], *at, *off, *theme, scales@[q]),
                    ),
                decreases v.len() - i,
            {
                v[i].draw_split_lines(at, primitives, off, theme, &scales[i]);
                proof {
                    assert(concat_map(i + 1, |q: int| val_split_prims(v@[q], *at, *off, *theme, scales@[q])) == concat_map(
                        i as int,
                        |q: int| val_split_prims(v@[q], *at, *off, *theme, scales@[q]),
                    ) + val_split_prims(v@[i as int], *at, *off, *theme, scales@[i as int]));
                    assert(prims_view(primitives@) =~= prims_view(old(primitives)@)
                        + concat_map(i + 1, |q: int| val_split_prims(v@[q], *at, *off, *theme, scales@[q])));
                }
                i = i + 1;
            }
        },
    }
}

/// The boundary ticks of every axis of one dimension, in axis order.
pub open spec fn dim_ticks_prims(
    axes: CartesianAxis,
    at: AxisType,
    off: Offsets,
    th: Theme,
    scales: Seq<ScaleResult>,
) -> Seq<PrimV> {
    match axes {
        CartesianAxis::Category(v) => concat_map(
            v.len() as int,
            |i: int| cat_ticks_prims(v@[i], i, at, off, th),
        ),
        CartesianAxis::Value(v) => concat_map(
            v.len() as int,
            |i: int| val_ticks_prims(v@[i], i, at, off, th, scales[i]),
        ),
    }
}

/// Draw the boundary ticks of every axis of one dimension.
fn phase_ticks(
    axes: &CartesianAxis,
    at: &AxisType,
    scales: &Vec<ScaleResult>,
    primitives: &mut Vec<Primitives>,
    off: &Offsets,
    theme: &Theme,
)
    requires
        axes_wf(*axes),
        theme.wf(),
        offsets_drawable(*off),
        match *axes {
            CartesianAxis::Value(v) => scales@.len() == v.len() && (forall|j: int|
                0 <= j < v.len() ==> (#[trigger] scales@[j]).wf()),
            CartesianAxis::Category(_) => true,
        },
    ensures
        prims_view(final(primitives)@) == prims_view(old(primitives)@) + dim_ticks_prims(
            *axes,
            *at,
            *off,
            *theme,
            scales@,
        ),
{
    match axes {
        CartesianAxis::Category(v) => {
            let mut i: usize = 0;
            while i < v.len()
                invariant
                    0 <= i <= v.len() <= MAX_AXES,
                    forall|q: int| 0 <= q < v.len() ==> (#[trigger] v@[q]).wf(),
                    theme.wf(),
                    offsets_drawable(*off),
                    prims_view(primitives@) == prims_view(old(primitives)@) + concat_map(
                        i as int,
                        |q: int| cat_ticks_prims(v@[q], q, *at, *off, *theme),
                    ),
                decreases v.len() - i,
            {
                v[i].draw_axis_ticks(i, at, primitives, off, theme);
                proof {
                    assert(concat_map(i + 1, |q: int| cat_ticks_prims(v@[q], q, *at, *off, *theme)) == concat_map(
                        i as int,
                        |q: int| cat_ticks_prims(v@[q], q, *at, *off, *theme),
                    ) + cat_ticks_prims(v@[i as int], i as int, *at, *off, *theme));
                    assert(prims_view(primitives@) =~= prims_view(old(primitives)@)
                        + concat_map(i + 1, |q: int| cat_ticks_prims(v@[q], q, *at, *off, *theme)));
                }
                i = i + 1;
            }
        },
        CartesianAxis::Value(v) => {
            let mut i: usize = 0;
            while i < v.len()
                invariant
                    0 <= i <= v.len() <= MAX_AXES,
                    forall|q: int| 0 <= q < v.len() ==> (#[trigger] v@[q]).wf(),
                    scales@.len() == v.len(),
                    forall|j: int| 0 <= j < v.len() ==> (#[trigger] scales@[j]).wf(),
                    theme.wf(),
                    offsets_drawable(*off),
                    prims_view(primitives@) == prims_view(old(primitives)@) + concat_map(
                        i as int,
                        |q: int| val_ticks_prims(v@[q], q, *at, *off, *theme, scales@[q]),
                    ),
                decreases v.len() - i,
            {
                v[i].draw_axis_ticks(i, at, primitives, off, theme, &scales[i]);
                proof {
                    assert(concat_map(i + 1, |q: int| val_ticks_prims(v@[q], q, *at, *off, *theme, scales@[q])) == concat_map(
                        i as int,
                        |q: int| val_ticks_prims(v@[q], q, *at, *off, *theme, scales@[q]),
                    ) + val_ticks_prims(v@[i as int], i as int, *at, *off, *theme, scales@[i as int]));
                    assert(prims_view(primitives@) =~= prims_view(old(primitives)@)
                        + concat_map(i + 1, |q: int| val_ticks_prims(v@[q], q, *at, *off, *theme, scales@[q])));
                }
                i = i + 1;
            }
        },
    }
}

/// The labels of every axis of one dimension, in axis order.
pub open spec fn dim_labels_prims(
    axes: CartesianAxis,
    at: AxisType,
    off: Offsets,
    th: Theme,
    scales: Seq<ScaleResult>,
) -> Seq<PrimV> {
    match axes {
        CartesianAxis::Category(v) => concat_map(
            v.len() as int,
            |i: int| cat_labels_prims(v@[i], i, at, off, th),
        ),
        CartesianAxis::Value(v) => concat_map(
            v.len() as int,
            |i: int| val_labels_prims(v@[i], i, at, off, th, scales[i]),
        ),
    }
}

/// Draw the labels of every axis of one dimension.
fn phase_labels(
    axes: &CartesianAxis,
    at: &AxisType,
    scales: &Vec<ScaleResult>,
    primitives: &mut Vec<Primitives>,
    off: &Offsets,
    theme: &Theme,
)
    requires
        axes_wf(*axes),
        theme.wf(),
        offsets_drawable(*off),
        match *axes {
            CartesianAxis::Value(v) => scales@.len() == v.len() && (forall|j: int|
                0 <= j < v.len() ==> (#[trigger] scales@[j]).wf()),
            CartesianAxis::Category(_) => true,
        },
    ensures
        prims_view(final(primitives)@) == prims_view(old(primitives)@) + dim_labels_prims(
            *axes,
            *at,
            *off,
            *theme,
            scales@,
        ),
{
    match axes {
        CartesianAxis::Category(v) => {
            let mut i: usize = 0;
            while i < v.len()
                invariant
                    0 <= i <= v.len() <= MAX_AXES,
                    forall|q: int| 0 <= q < v.len() ==> (#[trigger] v@[q]).wf(),
                    theme.wf(),
                    offsets_drawable(*off),
                    prims_view(primitives@) == prims_view(old(primitives)@) + concat_map(
                        i as int,
                        |q: int| cat_labels_prims(v@[q], q, *at, *off, *theme),
                    ),
                decreases v.len() - i,
            {
                v[i].draw_labels(i, at, primitives, off, theme);
                proof {
                    assert(concat_map(i + 1, |q: int| cat_labels_prims(v@[q], q, *at, *off, *theme)) == concat_map(
                        i as int,
                        |q: int| cat_labels_prims(v@[q], q, *at, *off, *theme),
                    ) + cat_labels_prims(v@[i as int], i as int, *at, *off, *theme));
                    assert(prims_view(primitives@) =~= prims_view(old(primitives)@)
                        + concat_map(i + 1, |q: int| cat_labels_prims(v@[q], q, *at, *off, *theme)));
                }
                i = i + 1;
            }
        },
        CartesianAxis::Value(v) => {
            let mut i: usize = 0;
            while i < v.len()
                invariant
                    0 <= i <= v.len() <= MAX_AXES,
                    forall|q: int| 0 <= q < v.len() ==> (#[trigger] v@[q]).wf(),
                    scales@.len() == v.len(),
                    forall|j: int| 0 <= j < v.len() ==> (#[trigger] scales@[j]).wf(),
                    theme.wf(),
                    offsets_drawable(*off),
                    prims_view(primitives@) == prims_view(old(primitives)@) + concat_map(
                        i as int,
                        |q: int| val_labels_prims(v@[q], q, *at, *off, *theme, scales@[q]),
                    ),
                decreases v.len() - i,
            {
                v[i].draw_labels(i, at, primitives, off, theme, &scales[i]);
                proof {
                    assert(concat_map(i + 1, |q: int| val_labels_prims(v@[q], q, *at, *off, *theme, scales@[q])) == concat_map(
                        i as int,
                        |q: int| val_labels_prims(v@[q], q, *at, *off, *theme, scales@[q]),
                    ) + val_labels_prims(v@[i as int], i as int, *at, *off, *theme, scales@[i as int]));
                    assert(prims_view(primitives@) =~= prims_view(old(primitives)@)
                        + concat_map(i + 1, |q: int| val_labels_prims(v@[q], q, *at, *off, *theme, scales@[q])));
                }
                i = i + 1;
            }
        },
    }
}

/// The axis lines of every axis of one dimension, in axis order.
pub open spec fn dim_lines_prims(
    axes: CartesianAxis,
    at: AxisType,
    off: Offsets,
    th: Theme,
    scales: Seq<ScaleResult>,
) -> Seq<PrimV> {
    match axes {
        CartesianAxis::Category(v) => concat_map(
            v.len() as int,
            |i: int| cat_axis_line_prims(v@[i], i, at, off, th),
        ),
        CartesianAxis::Value(v) => concat_map(
            v.len() as int,
            |i: int| val_axis_line_prims(v@[i], i, at, off, th),
        ),
    }
}

/// Draw the axis lines of every axis of one dimension.
fn phase_lines(
    axes: &CartesianAxis,
    at: &AxisType,
    scales: &Vec<ScaleResult>,
    primitives: &mut Vec<Primitives>,
    off: &Offsets,
    theme: &Theme,
)
    requires
        axes_wf(*axes),
        theme.wf(),
        offsets_drawable(*off),
        match *axes {
            CartesianAxis::Value(v) => scales@.len() == v.len() && (forall|j: int|
                0 <= j < v.len() ==> (#[trigger] scales@[j]).wf()),
            CartesianAxis::Category(_) => true,
        },
    ensures
        prims_view(final(primitives)@) == prims_view(old(primitives)@) + dim_lines_prims(
            *axes,
            *at,
            *off,
            *theme,
            scales@,
        ),
{
    match axes {
        CartesianAxis::Category(v) => {
            let mut i: usize = 0;
            while i < v.len()
                invariant
                    0 <= i <= v.len() <= MAX_AXES,
                    forall|q: int| 0 <= q < v.len() ==> (#[trigger] v@[q]).wf(),
                    theme.wf(),
                    offsets_drawable(*off),
                    prims_view(primitives@) == prims_view(old(primitives)@) + concat_map(
                        i as int,
                        |q: int| cat_axis_line_prims(v@[q], q, *at, *off, *theme),
                    ),
                decreases v.len() - i,
            {
                v[i].draw_axis_line(i, at, primitives, off, theme);
                proof {
                    assert(concat_map(i + 1, |q: int| cat_axis_line_prims(v@[q], q, *at, *off, *theme)) == concat_map(
                        i as int,
                        |q: int| cat_axis_line_prims(v@[q], q, *at, *off, *theme),
                    ) + cat_axis_line_prims(v@[i as int], i as int, *at, *off, *theme));
                    assert(prims_view(primitives@) =~= prims_view(old(primitives)@)
                        + concat_map(i + 1, |q: int| cat_axis_line_prims(v@[q], q, *at, *off, *theme)));
                }
                i = i + 1;
            }
        },
        CartesianAxis::Value(v) => {
            let mut i: usize = 0;
            while i < v.len()
                invariant
                    0 <= i <= v.len() <= MAX_AXES,
                    forall|q: int| 0 <= q < v.len() ==> (#[trigger] v@[q]).wf(),
                    scales@.len() == v.len(),
                    forall|j: int| 0 <= j < v.len() ==> (#[trigger] scales@[j]).wf(),
                    theme.wf(),
                    offsets_drawable(*off),
                    prims_view(primitives@) == prims_view(old(primitives)@) + concat_map(
                        i as int,
                        |q: int| val_axis_line_prims(v@[q], q, *at, *off, *theme),
                    ),
                decreases v.len() - i,
            {
                v[i].draw_axis_line(i, at, primitives, off, theme);
                proof {
                    assert(concat_map(i + 1, |q: int| val_axis_line_prims(v@[q], q, *at, *off, *theme)) == concat_map(
                        i as int,
                        |q: int| val_axis_line_prims(v@[q], q, *at, *off, *theme),
                    ) + val_axis_line_prims(v@[i as int], i as int, *at, *off, *theme));
                    assert(prims_view(primitives@) =~= prims_view(old(primitives)@)
                        + concat_map(i + 1, |q: int| val_axis_line_prims(v@[q], q, *at, *off, *theme)));
                }
                i = i + 1;
            }
        },
    }
}


/// The union range of an axis, when one exists.
pub open spec fn union_val(series: Seq<Series>, x_dim: bool, j: int, primary: bool) -> (
    int,
    int,
) {
    match union_range(series, x_dim, j, primary) {
        Some(u) => u,
        None => (0, 0),
    }
}

/// Number of axes in a dimension.
pub open spec fn axes_len(a: CartesianAxis) -> int {
    match a {
        CartesianAxis::Category(v) => v.len() as int,
        CartesianAxis::Value(v) => v.len() as int,
    }
}

/// Which column feeds a dimension's value axes: the Y dimension always
/// reads primary columns; the X dimension reads primary columns when paired
/// with a category Y dimension and secondary columns between two value
/// dimensions.
pub open spec fn dim_primary(c: Cartesian, x_dim: bool) -> bool {
    if x_dim {
        c.y_axis is Category
    } else {
        true
    }
}

/// A resolved scale list agrees with the per-axis scale contract.
pub open spec fn dim_scales_ok(c: Cartesian, x_dim: bool, scales: Seq<ScaleResult>) -> bool {
    match (if x_dim {
        c.x_axis
    } else {
        c.y_axis
    }) {
        CartesianAxis::Value(v) => {
            &&& scales.len() == v.len()
            &&& forall|j: int|
                0 <= j < v.len() ==> #[trigger] scales[j] == scale_of_axis(
                    c.series@,
                    x_dim,
                    j,
                    dim_primary(c, x_dim),
                )
            &&& forall|j: int|
                0 <= j < v.len() ==> union_range(c.series@, x_dim, j, dim_primary(c, x_dim))
                    is Some && scale_post(
                    union_val(c.series@, x_dim, j, dim_primary(c, x_dim)).0,
                    union_val(c.series@, x_dim, j, dim_primary(c, x_dim)).1,
                    #[trigger] scales[j],
                )
        },
        CartesianAxis::Category(_) => scales.len() == 0,
    }
}

/// The primitives one series emits against a dimension pair.
pub open spec fn series_draw_prims(
    s: Series,
    si: int,
    xh: AxisHelper,
    yh: AxisHelper,
    off: Offsets,
    th: Theme,
) -> Seq<PrimV> {
    match s {
        Series::Line(l) => line_draw_prims(l, si, xh, yh, off, th),
        Series::Scatter(sc) => scatter_draw_prims(sc, si, xh, yh, off, th),
    }
}

/// The resolved dimension descriptor of axis `i`.
pub open spec fn helper_of(axes: CartesianAxis, i: int, scales: Seq<ScaleResult>) -> AxisHelper {
    match axes {
        CartesianAxis::Category(v) => AxisHelper::Category(
            AxisCategoryHelper { amount: v[i].data.len() as usize },
        ),
        CartesianAxis::Value(_) => AxisHelper::Values(AxisValuesHelper { scale: scales[i] }),
    }
}

/// The geometry of every series among the first `upto` that binds to the
/// axis pair `(xi, yj)`, in series-list order.
pub open spec fn pair_series_prims(
    series: Seq<Series>,
    xi: int,
    yj: int,
    xh: AxisHelper,
    yh: AxisHelper,
    off: Offsets,
    th: Theme,
    upto: int,
) -> Seq<PrimV>
    decreases upto,
{
    if upto <= 0 {
        Seq::empty()
    } else {
        pair_series_prims(series, xi, yj, xh, yh, off, th, upto - 1) + if series[
            upto - 1
        ].spec_x_axis_index() == xi && series[upto - 1].spec_y_axis_index() == yj {
            series_draw_prims(series[upto - 1], upto - 1, xh, yh, off, th)
        } else {
            Seq::empty()
        }
    }
}

/// The geometry of all series, pair by pair in X-major order.
pub open spec fn all_pairs_prims(
    series: Seq<Series>,
    x_axes: CartesianAxis,
    y_axes: CartesianAxis,
    xs: Seq<ScaleResult>,
    ys: Seq<ScaleResult>,
    off: Offsets,
    th: Theme,
) -> Seq<PrimV> {
    concat_map(
        axes_len(x_axes),
        |i: int|
            concat_map(
                axes_len(y_axes),
                |j: int|
                    pair_series_prims(
                        series,
                        i,
                        j,
                        helper_of(x_axes, i, xs),
                        helper_of(y_axes, j, ys),
                        off,
                        th,
                        series.len() as int,
                    ),
            ),
    )
}

/// A resolved scale covers the contributing column of every series bound to
/// its axis.
pub proof fn lemma_scale_covers_col(
    series: Seq<Series>,
    x_dim: bool,
    j: int,
    primary: bool,
    sc: ScaleResult,
    k: int,
)
    requires
        0 <= k < series.len(),
        series_matches_axis(series[k], x_dim, j),
        union_range(series, x_dim, j, primary) is Some,
        scale_post(
            union_val(series, x_dim, j, primary).0,
            union_val(series, x_dim, j, primary).1,
            sc,
        ),
        forall|q: int| 0 <= q < series.len() ==> (#[trigger] series[q]).wf(),
        forall|q: int|
            0 <= q < series.len() ==> series_axis_col(#[trigger] series[q], primary).len()
                >= 1,
        forall|q: int, v: int|
            0 <= q < series.len() && 0 <= v < series_axis_col(series[q], primary).len()
                ==> -VAL_LIMIT <= #[trigger] series_axis_col(series[q], primary)[v]
                <= VAL_LIMIT,
    ensures
        helper_covers(
            AxisHelper::Values(AxisValuesHelper { scale: sc }),
            series_axis_col(series[k], primary),
        ),
        (AxisValuesHelper { scale: sc }).wf(),
{
    let u = union_val(series, x_dim, j, primary);
    let col = series_axis_col(series[k], primary);
    lemma_union_covers(series, x_dim, j, primary, series.len() as int, k);
    lemma_union_bounds(series, x_dim, j, primary, series.len() as int);
    lemma_seq_min_max(col);
    lemma_scale_helper_facts(u.0, u.1, sc);
    assert forall|v: int| 0 <= v < col.len() implies crate::axis::scale_covers(
        sc,
        #[trigger] col[v] as int,
    ) by {
        assert(u.0 <= col[v] <= u.1);
        assert(crate::scale::scale_covers_v(sc, col[v] as int));
    }
}

/// All series columns a value dimension reads are non-empty and bounded.
pub proof fn lemma_series_cols_wf(series: Seq<Series>, primary: bool)
    requires
        forall|k: int| 0 <= k < series.len() ==> (#[trigger] series[k]).wf(),
    ensures
        forall|k: int|
            0 <= k < series.len() ==> series_axis_col(#[trigger] series[k], primary).len()
                >= 1,
        forall|k: int, v: int|
            0 <= k < series.len() && 0 <= v < series_axis_col(series[k], primary).len()
                ==> -VAL_LIMIT <= #[trigger] series_axis_col(series[k], primary)[v]
                <= VAL_LIMIT,
{
    assert forall|k: int|
        0 <= k < series.len() implies series_axis_col(#[trigger] series[k], primary).len()
        >= 1 by {
        match series[k] {
            Series::Line(l) => {},
            Series::Scatter(sc) => {},
        }
    }
    assert forall|k: int, v: int|
        0 <= k < series.len() && 0 <= v < series_axis_col(series[k], primary).len()
        implies -VAL_LIMIT <= #[trigger] series_axis_col(series[k], primary)[v]
        <= VAL_LIMIT by {
        match series[k] {
            Series::Line(l) => {},
            Series::Scatter(sc) => {},
        }
    }
}

impl Cartesian {
    /// Valid chart description: well-formed axes and series, and, against a
    /// category dimension, no series with more points than the axis it
    /// binds to has buckets.
    pub open spec fn wf(self) -> bool {
        &&& axes_wf(self.x_axis)
        &&& axes_wf(self.y_axis)
        &&& self.series.len() <= MAX_SERIES
        &&& forall|k: int| 0 <= k < self.series.len() ==> (#[trigger] self.series@[k]).wf()
        &&& match self.x_axis {
            CartesianAxis::Category(v) => forall|k: int|
                0 <= k < self.series.len() && (#[trigger] self.series@[k]).spec_x_axis_index()
                    < v.len() ==> series_primary_col(self.series@[k]).len() <= v[
                    self.series@[k].spec_x_axis_index()
                ].data.len(),
            CartesianAxis::Value(_) => true,
        }
        &&& match self.y_axis {
            CartesianAxis::Category(v) => forall|k: int|
                0 <= k < self.series.len() && (#[trigger] self.series@[k]).spec_y_axis_index()
                    < v.len() ==> series_primary_col(self.series@[k]).len() <= v[
                    self.series@[k].spec_y_axis_index()
                ].data.len(),
            CartesianAxis::Value(_) => true,
        }
    }

    /// Bind one more series to this coordinate system.
    pub fn add_series(&mut self, series: Series)
        ensures
            final(self).series@ == old(self).series@.push(series),
            final(self).x_axis == old(self).x_axis,
            final(self).y_axis == old(self).y_axis,
    {
        self.series.push(series);
    }

    /// Replace the bound series.
    pub fn set_series(&mut self, series: Vec<Series>)
        ensures
            final(self).series == series,
            final(self).x_axis == old(self).x_axis,
            final(self).y_axis == old(self).y_axis,
    {
        self.series = series;
    }

    /// Draw every matching series of every axis pair, X-major, in
    /// series-list order within a pair.
    fn draw_pairs(
        &self,
        xscales: &Vec<ScaleResult>,
        yscales: &Vec<ScaleResult>,
        primitives: &mut Vec<Primitives>,
        off: &Offsets,
        theme: &Theme,
    )
        requires
            self.wf(),
            theme.wf(),
            offsets_drawable(*off),
            !(self.x_axis is Category && self.y_axis is Category),
            dim_scales_ok(*self, true, xscales@),
            dim_scales_ok(*self, false, yscales@),
        ensures
            prims_view(final(primitives)@) == prims_view(old(primitives)@) + all_pairs_prims(
                self.series@,
                self.x_axis,
                self.y_axis,
                xscales@,
                yscales@,
                *off,
                *theme,
            ),
    {
        let ghost gseries = self.series@;
        let ghost gxs = xscales@;
        let ghost gys = yscales@;
        let x_len: usize = match &self.x_axis {
            CartesianAxis::Category(v) => v.len(),
            CartesianAxis::Value(v) => v.len(),
        };
        let y_len: usize = match &self.y_axis {
            CartesianAxis::Category(v) => v.len(),
            CartesianAxis::Value(v) => v.len(),
        };
        let mut i: usize = 0;
        while i < x_len
            invariant
                0 <= i <= x_len,
                x_len == axes_len(self.x_axis),
                y_len == axes_len(self.y_axis),
                self.wf(),
                theme.wf(),
                offsets_drawable(*off),
                !(self.x_axis is Category && self.y_axis is Category),
                dim_scales_ok(*self, true, gxs),
                dim_scales_ok(*self, false, gys),
                gseries == self.series@,
                gxs == xscales@,
                gys == yscales@,
                prims_view(primitives@) == prims_view(old(primitives)@) + concat_map(
                    i as int,
                    |q: int|
                        concat_map(
                            axes_len(self.y_axis),
                            |j: int|
                                pair_series_prims(
                                    gseries,
                                    q,
                                    j,
                                    helper_of(self.x_axis, q, gxs),
                                    helper_of(self.y_axis, j, gys),
                                    *off,
                                    *theme,
                                    gseries.len() as int,
                                ),
                        ),
                ),
            decreases x_len - i,
        {
            let hx: AxisHelper = match &self.x_axis {
                CartesianAxis::Category(v) => AxisHelper::Category(
                    AxisCategoryHelper { amount: v[i].data.len() },
                ),
                CartesianAxis::Value(_) => AxisHelper::Values(
                    AxisValuesHelper { scale: xscales[i] },
                ),
            };
            let mut j: usize = 0;
            while j < y_len
                invariant
                    0 <= i < x_len,
                    0 <= j <= y_len,
                    x_len == axes_len(self.x_axis),
                    y_len == axes_len(self.y_axis),
                    self.wf(),
                    theme.wf(),
                    offsets_drawable(*off),
                    !(self.x_axis is Category && self.y_axis is Category),
                    dim_scales_ok(*self, true, gxs),
                    dim_scales_ok(*self, false, gys),
                    gseries == self.series@,
                    gxs == xscales@,
                    gys == yscales@,
                    hx == helper_of(self.x_axis, i as int, gxs),
                    prims_view(primitives@) == prims_view(old(primitives)@) + concat_map(
                        i as int,
                        |q: int|
                            concat_map(
                                axes_len(self.y_axis),
                                |jj: int|
                                    pair_series_prims(
                                        gseries,
                                        q,
                                        jj,
                                        helper_of(self.x_axis, q, gxs),
                                        helper_of(self.y_axis, jj, gys),
                                        *off,
                                        *theme,
                                        gseries.len() as int,
                                    ),
                            ),
                    ) + concat_map(
                        j as int,
                        |jj: int|
                            pair_series_prims(
                                gseries,
                                i as int,
                                jj,
                                hx,
                                helper_of(self.y_axis, jj, gys),
                                *off,
                                *theme,
                                gseries.len() as int,
                            ),
                    ),
                decreases y_len - j,
            {
                let hy: AxisHelper = match &self.y_axis {
                    CartesianAxis::Category(v) => AxisHelper::Category(
                        AxisCategoryHelper { amount: v[j].data.len() },
                    ),
                    CartesianAxis::Value(_) => AxisHelper::Values(
                        AxisValuesHelper { scale: yscales[j] },
                    ),
                };
                proof {
                    if self.x_axis is Value {
                        lemma_series_cols_wf(gseries, dim_primary(*self, true));
                    }
                    if self.y_axis is Value {
                        lemma_series_cols_wf(gseries, dim_primary(*self, false));
                    }
                }
                let mut k: usize = 0;
                while k < self.series.len()
                    invariant
                        0 <= i < x_len,
                        0 <= j < y_len,
                        0 <= k <= self.series.len(),
                        x_len == axes_len(self.x_axis),
                        y_len == axes_len(self.y_axis),
                        self.wf(),
                        theme.wf(),
                        offsets_drawable(*off),
                        !(self.x_axis is Category && self.y_axis is Category),
                        dim_scales_ok(*self, true, gxs),
                        dim_scales_ok(*self, false, gys),
                        gseries == self.series@,
                        gxs == xscales@,
                        gys == yscales@,
                        hx == helper_of(self.x_axis, i as int, gxs),
                        hy == helper_of(self.y_axis, j as int, gys),
                        prims_view(primitives@) == prims_view(old(primitives)@) + concat_map(
                            i as int,
                            |q: int|
                                concat_map(
                                    axes_len(self.y_axis),
                                    |jj: int|
                                        pair_series_prims(
                                            gseries,
                                            q,
                                            jj,
                                            helper_of(self.x_axis, q, gxs),
                                            helper_of(self.y_axis, jj, gys),
                                            *off,
                                            *theme,
                                            gseries.len() as int,
                                        ),
                                ),
                        ) + concat_map(
                            j as int,
                            |jj: int|
                                pair_series_prims(
                                    gseries,
                                    i as int,
                                    jj,
                                    hx,
                                    helper_of(self.y_axis, jj, gys),
                                    *off,
                                    *theme,
                                    gseries.len() as int,
                                ),
                        ) + pair_series_prims(
                            gseries,
                            i as int,
                            j as int,
                            hx,
                            hy,
                            *off,
                            *theme,
                            k as int,
                        ),
                    decreases self.series.len() - k,
                {
                    let s = &self.series[k];
                    let sxi = s.x_axis_index();
                    let syi = s.y_axis_index();
                    if sxi == i && syi == j {
                        proof {
                            if self.x_axis is Value {
                                lemma_scale_covers_col(
                                    gseries,
                                    true,
                                    i as int,
                                    dim_primary(*self, true),
                                    gxs[i as int],
                                    k as int,
                                );
                            }
                            if self.y_axis is Value {
                                lemma_scale_covers_col(
                                    gseries,
                                    false,
                                    j as int,
                                    dim_primary(*self, false),
                                    gys[j as int],
                                    k as int,
                                );
                            }
                        }
                        match s {
                            Series::Line(l) => {
                                l.draw_line(k, &hx, &hy, off, primitives, theme);
                            },
                            Series::Scatter(sc) => {
                                sc.draw_scatter(k, &hx, &hy, off, primitives, theme);
                            },
                        }
                        proof {
                            assert(prims_view(primitives@) =~= prims_view(old(primitives)@)
                                + concat_map(
                                i as int,
                                |q: int|
                                    concat_map(
                                        axes_len(self.y_axis),
                                        |jj: int|
                                            pair_series_prims(
                                                gseries,
                                                q,
                                                jj,
                                                helper_of(self.x_axis, q, gxs),
                                                helper_of(self.y_axis, jj, gys),
                                                *off,
                                                *theme,
                                                gseries.len() as int,
                                            ),
                                    ),
                            ) + concat_map(
                                j as int,
                                |jj: int|
                                    pair_series_prims(
                                        gseries,
                                        i as int,
                                        jj,
                                        hx,
                                        helper_of(self.y_axis, jj, gys),
                                        *off,
                                        *theme,
                                        gseries.len() as int,
                                    ),
                            ) + pair_series_prims(
                                gseries,
                                i as int,
                                j as int,
                                hx,
                                hy,
                                *off,
                                *theme,
                                k + 1,
                            ));
                        }
                    } else {
                        proof {
                            assert(pair_series_prims(
                                gseries,
                                i as int,
                                j as int,
                                hx,
                                hy,
                                *off,
                                *theme,
                                k + 1,
                            ) =~= pair_series_prims(
                                gseries,
                                i as int,
                                j as int,
                                hx,
                                hy,
                                *off,
                                *theme,
                                k as int,
                            ));
                        }
                    }
                    k = k + 1;
                }
                proof {
                    assert(concat_map(
                        j + 1,
                        |jj: int|
                            pair_series_prims(
                                gseries,
                                i as int,
                                jj,
                                hx,
                                helper_of(self.y_axis, jj, gys),
                                *off,
                                *theme,
                                gseries.len() as int,
                            ),
                    ) =~= concat_map(
                        j as int,
                        |jj: int|
                            pair_series_prims(
                                gseries,
                                i as int,
                                jj,
                                hx,
                                helper_of(self.y_axis, jj, gys),
                                *off,
                                *theme,
                                gseries.len() as int,
                            ),
                    ) + pair_series_prims(
                        gseries,
                        i as int,
                        j as int,
                        hx,
                        hy,
                        *off,
                        *theme,
                        gseries.len() as int,
                    ));
                }
                j = j + 1;
            }
            proof {
                assert(concat_map(
                    i + 1,
                    |q: int|
                        concat_map(
                            axes_len(self.y_axis),
                            |jj: int|
                                pair_series_prims(
                                    gseries,
                                    q,
                                    jj,
                                    helper_of(self.x_axis, q, gxs),
                                    helper_of(self.y_axis, jj, gys),
                                    *off,
                                    *theme,
                                    gseries.len() as int,
                                ),
                        ),
                ) =~= concat_map(
                    i as int,
                    |q: int|
                        concat_map(
                            axes_len(self.y_axis),
                            |jj: int|
                                pair_series_prims(
                                    gseries,
                                    q,
                                    jj,
                                    helper_of(self.x_axis, q, gxs),
                                    helper_of(self.y_axis, jj, gys),
                                    *off,
                                    *theme,
                                    gseries.len() as int,
                                ),
                        ),
                ) + concat_map(
                    axes_len(self.y_axis),
                    |jj: int|
                        pair_series_prims(
                            gseries,
                            i as int,
                            jj,
                            helper_of(self.x_axis, i as int, gxs),
                            helper_of(self.y_axis, jj, gys),
                            *off,
                            *theme,
                            gseries.len() as int,
                        ),
                ));
                assert(concat_map(
                    axes_len(self.y_axis),
                    |jj: int|
                        pair_series_prims(
                            gseries,
                            i as int,
                            jj,
                            hx,
                            helper_of(self.y_axis, jj, gys),
                            *off,
                            *theme,
                            gseries.len() as int,
                        ),
                ) =~= concat_map(
                    axes_len(self.y_axis),
                    |jj: int|
                        pair_series_prims(
                            gseries,
                            i as int,
                            jj,
                            helper_of(self.x_axis, i as int, gxs),
                            helper_of(self.y_axis, jj, gys),
                            *off,
                            *theme,
                            gseries.len() as int,
                        ),
                ));
            }
            i = i + 1;
        }
    }
}




/// The unbound-axis error of one dimension, if any.
pub open spec fn dim_unbound_error(c: Cartesian, x_dim: bool) -> Option<ChartError> {
    match (if x_dim {
        c.x_axis
    } else {
        c.y_axis
    }) {
        CartesianAxis::Value(v) => match first_unbound(
            c.series@,
            x_dim,
            v.len() as int,
            dim_primary(c, x_dim),
            0,
        ) {
            Some(j) => Some(
                ChartError::UnboundValueAxis(
                    if x_dim {
                        AxisType::XAxis
                    } else {
                        AxisType::YAxis
                    },
                    j as usize,
                ),
            ),
            None => None,
        },
        CartesianAxis::Category(_) => None,
    }
}

/// The configuration error a chart description carries, if any, checked in
/// a fixed order: degenerate spans (X before Y), the unsupported
/// category/category pairing, then value axes without bound series (X
/// dimension before Y, in axis order).
pub open spec fn spec_chart_error(c: Cartesian, off: Offsets) -> Option<ChartError> {
    if off.x_span <= 0 {
        Some(ChartError::DegenerateSpan(AxisType::XAxis))
    } else if off.y_span <= 0 {
        Some(ChartError::DegenerateSpan(AxisType::YAxis))
    } else if c.x_axis is Category && c.y_axis is Category {
        Some(ChartError::CategoryCategoryPair)
    } else if dim_unbound_error(c, true) is Some {
        dim_unbound_error(c, true)
    } else {
        dim_unbound_error(c, false)
    }
}

/// The one scale list the contract admits for a dimension.
pub open spec fn dim_scales_seq(c: Cartesian, x_dim: bool) -> Seq<ScaleResult> {
    match (if x_dim {
        c.x_axis
    } else {
        c.y_axis
    }) {
        CartesianAxis::Value(v) => Seq::new(
            v.len() as nat,
            |j: int| scale_of_axis(c.series@, x_dim, j, dim_primary(c, x_dim)),
        ),
        CartesianAxis::Category(_) => Seq::empty(),
    }
}

/// Everything a valid chart draws, in the output order that renderers rely
/// on: grid lines of both dimensions, all ticks, all labels, the series
/// geometry pair by pair, and the axis lines on top.
pub open spec fn cartesian_prims(c: Cartesian, off: Offsets, th: Theme) -> Seq<PrimV> {
    let xs = dim_scales_seq(c, true);
    let ys = dim_scales_seq(c, false);
    dim_split_prims(c.x_axis, AxisType::XAxis, off, th, xs) + dim_split_prims(
        c.y_axis,
        AxisType::YAxis,
        off,
        th,
        ys,
    ) + dim_ticks_prims(c.x_axis, AxisType::XAxis, off, th, xs) + dim_ticks_prims(
        c.y_axis,
        AxisType::YAxis,
        off,
        th,
        ys,
    ) + dim_labels_prims(c.x_axis, AxisType::XAxis, off, th, xs) + dim_labels_prims(
        c.y_axis,
        AxisType::YAxis,
        off,
        th,
        ys,
    ) + all_pairs_prims(c.series@, c.x_axis, c.y_axis, xs, ys, off, th) + dim_lines_prims(
        c.x_axis,
        AxisType::XAxis,
        off,
        th,
        xs,
    ) + dim_lines_prims(c.y_axis, AxisType::YAxis, off, th, ys)
}

impl Cartesian {
    /// Turn this chart description into primitives: resolve one scale per
    /// value axis from its bound series, then draw grid lines, ticks,
    /// labels, series geometry and axis lines, in that order. A degenerate
    /// plot area, a category/category pairing, or a value axis with no
    /// bound series is reported as an error naming the culprit, and nothing
    /// is drawn.
    #[verifier::rlimit(100)]
    pub fn append_primitives(
        &self,
        primitives: &mut Vec<Primitives>,
        off: &Offsets,
        theme: &Theme,
    ) -> (r: Result<(), ChartError>)
        requires
            self.wf(),
            theme.wf(),
            off.wf(),
        ensures
            match r {
                Ok(_) => spec_chart_error(*self, *off) is None && prims_view(
                    final(primitives)@,
                ) == prims_view(old(primitives)@) + cartesian_prims(*self, *off, *theme),
                Err(e) => spec_chart_error(*self, *off) == Some(e) && final(primitives)@
                    == old(primitives)@,
            },
    {
        if off.x_span <= 0 {
            return Err(ChartError::DegenerateSpan(AxisType::XAxis));
        }
        if off.y_span <= 0 {
            return Err(ChartError::DegenerateSpan(AxisType::YAxis));
        }
        let both_category = match (&self.x_axis, &self.y_axis) {
            (CartesianAxis::Category(_), CartesianAxis::Category(_)) => true,
            _ => false,
        };
        if both_category {
            return Err(ChartError::CategoryCategoryPair);
        }
        let ghost gseries = self.series@;
        let x_primary = match &self.y_axis {
            CartesianAxis::Category(_) => true,
            CartesianAxis::Value(_) => false,
        };
        proof {
            lemma_series_cols_wf(gseries, true);
            lemma_series_cols_wf(gseries, false);
        }
        let xscales: Vec<ScaleResult> = match &self.x_axis {
            CartesianAxis::Value(v) => {
                match resolve_scales(&self.series, true, v.len(), x_primary) {
                    Ok(sc) => sc,
                    Err(j) => {
                        return Err(ChartError::UnboundValueAxis(AxisType::XAxis, j));
                    },
                }
            },
            CartesianAxis::Category(_) => Vec::new(),
        };
        let yscales: Vec<ScaleResult> = match &self.y_axis {
            CartesianAxis::Value(v) => {
                match resolve_scales(&self.series, false, v.len(), true) {
                    Ok(sc) => sc,
                    Err(j) => {
                        return Err(ChartError::UnboundValueAxis(AxisType::YAxis, j));
                    },
                }
            },
            CartesianAxis::Category(_) => Vec::new(),
        };
        proof {
            assert(xscales@ =~= dim_scales_seq(*self, true));
            assert(yscales@ =~= dim_scales_seq(*self, false));
            match &self.x_axis {
                CartesianAxis::Value(vx) => {
                    assert(x_primary == dim_primary(*self, true));
                    assert forall|j: int| 0 <= j < vx.len() implies #[trigger] xscales@[j]
                        == scale_of_axis(
                        self.series@,
                        true,
                        j,
                        dim_primary(*self, true),
                    ) && union_range(self.series@, true, j, dim_primary(*self, true)) is Some
                        && scale_post(
                        union_val(self.series@, true, j, dim_primary(*self, true)).0,
                        union_val(self.series@, true, j, dim_primary(*self, true)).1,
                        xscales@[j],
                    ) by {}
                },
                CartesianAxis::Category(_) => {},
            }
            match &self.y_axis {
                CartesianAxis::Value(vy) => {
                    assert forall|j: int| 0 <= j < vy.len() implies #[trigger] yscales@[j]
                        == scale_of_axis(
                        self.series@,
                        false,
                        j,
                        dim_primary(*self, false),
                    ) && union_range(self.series@, false, j, dim_primary(*self, false))
                        is Some && scale_post(
                        union_val(self.series@, false, j, dim_primary(*self, false)).0,
                        union_val(self.series@, false, j, dim_primary(*self, false)).1,
                        yscales@[j],
                    ) by {}
                },
                CartesianAxis::Category(_) => {},
            }
            assert(dim_scales_ok(*self, true, xscales@));
            assert(dim_scales_ok(*self, false, yscales@));
        }
        phase_split(&self.x_axis, &AxisType::XAxis, &xscales, primitives, off, theme);
        phase_split(&self.y_axis, &AxisType::YAxis, &yscales, primitives, off, theme);
        phase_ticks(&self.x_axis, &AxisType::XAxis, &xscales, primitives, off, theme);
        phase_ticks(&self.y_axis, &AxisType::YAxis, &yscales, primitives, off, theme);
        phase_labels(&self.x_axis, &AxisType::XAxis, &xscales, primitives, off, theme);
        phase_labels(&self.y_axis, &AxisType::YAxis, &yscales, primitives, off, theme);
        self.draw_pairs(&xscales, &yscales, primitives, off, theme);
        phase_lines(&self.x_axis, &AxisType::XAxis, &xscales, primitives, off, theme);
        phase_lines(&self.y_axis, &AxisType::YAxis, &yscales, primitives, off, theme);
        proof {
            assert(prims_view(primitives@) =~= prims_view(old(primitives)@)
                + cartesian_prims(*self, *off, *theme));
        }
        Ok(())
    }
}

impl CoordinateSystem {
    /// Dispatch to the one coordinate system a chart can hold today.
    #[verifier::rlimit(100)]
    pub fn append_primitives(
        &self,
        primitives: &mut Vec<Primitives>,
        off: &Offsets,
        theme: &Theme,
    ) -> (r: Result<(), ChartError>)
        requires
            self.wf(),
            theme.wf(),
            off.wf(),
        ensures
            match r {
                Ok(_) => spec_coordinate_error(*self, *off) is None && prims_view(
                    final(primitives)@,
                ) == prims_view(old(primitives)@) + coordinate_prims(*self, *off, *theme),
                Err(e) => spec_coordinate_error(*self, *off) == Some(e)
                    && final(primitives)@ == old(primitives)@,
            },
    {
        match self {
            CoordinateSystem::Cartesian(c) => c.append_primitives(primitives, off, theme),
        }
    }

    pub open spec fn wf(self) -> bool {
        match self {
            CoordinateSystem::Cartesian(c) => c.wf(),
        }
    }
}

/// The error of a coordinate system, if any.
pub open spec fn spec_coordinate_error(cs: CoordinateSystem, off: Offsets) -> Option<
    ChartError,
> {
    match cs {
        CoordinateSystem::Cartesian(c) => spec_chart_error(c, off),
    }
}

/// The primitives a coordinate system draws.
pub open spec fn coordinate_prims(cs: CoordinateSystem, off: Offsets, th: Theme) -> Seq<
    PrimV,
> {
    match cs {
        CoordinateSystem::Cartesian(c) => cartesian_prims(c, off, th),
    }
}



/// Law (scale independence): an axis's union range, and so its resolved
/// scale, reads only the series bound to that axis — changing any other
/// series leaves it untouched.
pub proof fn lemma_axis_scale_independent(
    s1: Seq<Series>,
    s2: Seq<Series>,
    x_dim: bool,
    j: int,
    primary: bool,
)
    requires
        s1.len() == s2.len(),
        forall|k: int|
            0 <= k < s1.len() ==> (series_matches_axis(#[trigger] s1[k], x_dim, j)
                <==> series_matches_axis(#[trigger] s2[k], x_dim, j)),
        forall|k: int|
            0 <= k < s1.len() && series_matches_axis(#[trigger] s1[k], x_dim, j) ==> s1[k]
                == s2[k],
    ensures
        union_range(s1, x_dim, j, primary) == union_range(s2, x_dim, j, primary),
        scale_of_axis(s1, x_dim, j, primary) == scale_of_axis(s2, x_dim, j, primary),
{
    lemma_union_range_independent(s1, s2, x_dim, j, primary, s1.len() as int);
}

proof fn lemma_union_range_independent(
    s1: Seq<Series>,
    s2: Seq<Series>,
    x_dim: bool,
    j: int,
    primary: bool,
    i: int,
)
    requires
        s1.len() == s2.len(),
        0 <= i <= s1.len(),
        forall|k: int|
            0 <= k < s1.len() ==> (series_matches_axis(#[trigger] s1[k], x_dim, j)
                <==> series_matches_axis(#[trigger] s2[k], x_dim, j)),
        forall|k: int|
            0 <= k < s1.len() && series_matches_axis(#[trigger] s1[k], x_dim, j) ==> s1[k]
                == s2[k],
    ensures
        union_range_to(s1, x_dim, j, primary, i) == union_range_to(s2, x_dim, j, primary, i),
    decreases i,
{
    if i > 0 {
        lemma_union_range_independent(s1, s2, x_dim, j, primary, i - 1);
    }
}

/// Law (series independence): what an axis pair draws reads only the series
/// bound to that pair — in two series lists that agree on every series
/// bound to the pair, the pair emits the same geometry.
pub proof fn lemma_pair_prims_independent(
    s1: Seq<Series>,
    s2: Seq<Series>,
    xi: int,
    yj: int,
    xh: AxisHelper,
    yh: AxisHelper,
    off: Offsets,
    th: Theme,
    upto: int,
)
    requires
        s1.len() == s2.len(),
        0 <= upto <= s1.len(),
        forall|k: int|
            0 <= k < s1.len() ==> ((#[trigger] s1[k]).spec_x_axis_index() == xi
                && s1[k].spec_y_axis_index() == yj <==> (#[trigger] s2[k]).spec_x_axis_index()
                == xi && s2[k].spec_y_axis_index() == yj),
        forall|k: int|
            0 <= k < s1.len() && (#[trigger] s1[k]).spec_x_axis_index() == xi
                && s1[k].spec_y_axis_index() == yj ==> s1[k] == s2[k],
    ensures
        pair_series_prims(s1, xi, yj, xh, yh, off, th, upto) == pair_series_prims(
            s2,
            xi,
            yj,
            xh,
            yh,
            off,
            th,
            upto,
        ),
    decreases upto,
{
    if upto > 0 {
        lemma_pair_prims_independent(s1, s2, xi, yj, xh, yh, off, th, upto - 1);
    }
}


} // verus!
