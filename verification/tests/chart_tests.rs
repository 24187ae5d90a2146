//! End-to-end engine behaviour: a full chart render, series-to-axis
//! filtering, theme fallback, and every configuration error.

use plllots::axis::{AxisHelper, AxisType, AxisValuesHelper, CartesianAxis, CategoryAxis,
    ValueAxis, project};
use plllots::cartesian::{Cartesian, ChartError, CoordinateSystem};
use plllots::chart::Chart;
use plllots::element::{Margins, MarginType, Offsets, PlotSize};
use plllots::primitives::Primitives;
use plllots::renderer::SvgRenderer;
use plllots::scale::ScaleResult;
use plllots::series::{Line, LineData, PlotData, Scatter, ScatterData, Series};
use plllots::theme::Theme;

const M: i64 = 1_000_000;

fn day_labels() -> Vec<String> {
    vec!["Mon", "Tue", "Wed", "Thu", "Fri", "Sat", "Sun"]
        .into_iter()
        .map(|s| s.to_string())
        .collect()
}

fn line_series(values: &[i64], y_axis_index: usize) -> Series {
    let mut l = Line::new(LineData::new(values.iter().map(|v| v * M).collect()));
    l.y_axis_index = y_axis_index;
    Series::Line(l)
}

fn demo_chart() -> Chart {
    let cartesian = Cartesian {
        series: vec![line_series(&[150, 230, 224, 218, 135, 147, 260], 0)],
        x_axis: CartesianAxis::Category(vec![CategoryAxis::new(day_labels())]),
        y_axis: CartesianAxis::Value(vec![ValueAxis::new()]),
    };
    Chart::new(PlotSize::default(), CoordinateSystem::Cartesian(cartesian))
}

/// Y pixel of a value (in units) on the default canvas with the (0, 300)
/// scale: the fraction v / 300 of the span, up from the bottom edge.
fn y_px(v: i64) -> i64 {
    940 * M - ((v as i128 * (880 * M) as i128) / 300) as i64
}

/// X pixel of category bucket `i` of 7 on the default canvas.
fn x_px(i: i64) -> i64 {
    100 * M + ((2 * i + 1) * (800 * M) as i64) / 14
}

#[test]
fn end_to_end_line_chart() {
    let prims = demo_chart().generate_primitives().expect("valid chart");
    // Order: y grid (7), x ticks (8), y ticks (7), x labels (7),
    // y labels (7), path + markers (2), x axis line (1). The category
    // axis draws no grid and the value axis no line under the default
    // theme.
    assert_eq!(prims.len(), 39);
    let path = match &prims[36] {
        Primitives::Path(p) => p,
        other => panic!("expected the series path, got {:?}", other),
    };
    assert_eq!(path.coords.len(), 7);
    let values = [150, 230, 224, 218, 135, 147, 260];
    for (i, pt) in path.coords.iter().enumerate() {
        assert_eq!(pt.x, x_px(i as i64), "x of point {}", i);
        assert_eq!(pt.y, y_px(values[i]), "y of point {}", i);
    }
    // The first point sits half a bucket past the plot edge.
    assert_eq!(path.coords[0].x, 100 * M + (800 * M) / 14);
    // Markers ride on the same points.
    match &prims[37] {
        Primitives::MultiCircle(m) => assert_eq!(m.coords, path.coords),
        other => panic!("expected markers, got {:?}", other),
    }
    // The axis line sits on the bottom edge.
    match &prims[38] {
        Primitives::Line(l) => {
            assert_eq!(l.coords.0.y, 940 * M);
            assert_eq!(l.coords.1.y, 940 * M);
        },
        other => panic!("expected the axis line, got {:?}", other),
    }
}

#[test]
fn value_label_texts() {
    let prims = demo_chart().generate_primitives().expect("valid chart");
    // Indices 29..36 hold the seven value labels 0, 50, ..., 300.
    let expect = ["0", "50", "100", "150", "200", "250", "300"];
    for (k, want) in expect.iter().enumerate() {
        match &prims[29 + k] {
            Primitives::Text(t) => assert_eq!(&t.text, want),
            other => panic!("expected a value label, got {:?}", other),
        }
    }
    // Indices 22..29 hold the category labels.
    match &prims[22] {
        Primitives::Text(t) => assert_eq!(t.text, "Mon"),
        other => panic!("expected a category label, got {:?}", other),
    }
}

#[test]
fn series_axis_filtering_is_independent() {
    let labels = CategoryAxis::new(day_labels());
    let build = |second: &[i64]| -> Chart {
        let cartesian = Cartesian {
            series: vec![
                line_series(&[150, 230, 224, 218, 135, 147, 260], 0),
                line_series(second, 1),
            ],
            x_axis: CartesianAxis::Category(vec![labels.clone()]),
            y_axis: CartesianAxis::Value(vec![ValueAxis::new(), ValueAxis::new()]),
        };
        Chart::new(PlotSize::default(), CoordinateSystem::Cartesian(cartesian))
    };
    let a = build(&[1500, 2300, 2240, 2180, 1350, 1470, 2600])
        .generate_primitives()
        .expect("valid chart");
    let b = build(&[1, 2, 3, 4, 5, 6, 7]).generate_primitives().expect("valid chart");
    let paths_a: Vec<&Primitives> = a
        .iter()
        .filter(|p| matches!(p, Primitives::Path(_)))
        .collect();
    let paths_b: Vec<&Primitives> = b
        .iter()
        .filter(|p| matches!(p, Primitives::Path(_)))
        .collect();
    assert_eq!(paths_a.len(), 2);
    assert_eq!(paths_b.len(), 2);
    // The first series' path ignores the second series' data entirely.
    assert_eq!(paths_a[0], paths_b[0]);
    // The second series' path does depend on its own data.
    assert_ne!(paths_a[1], paths_b[1]);
}

#[test]
fn theme_fallback_is_per_property() {
    let base = demo_chart().generate_primitives().expect("valid chart");
    let mut with_override = demo_chart();
    match &mut with_override.coordinate_system {
        CoordinateSystem::Cartesian(c) => match &mut c.y_axis {
            CartesianAxis::Value(v) => v[0].ticks_length = Some(10 * M),
            _ => unreachable!(),
        },
    }
    let over = with_override.generate_primitives().expect("valid chart");
    assert_eq!(base.len(), over.len());
    for (i, (p, q)) in base.iter().zip(over.iter()).enumerate() {
        if (15..22).contains(&i) {
            // Only the y ticks change: twice as long, everything else equal.
            match (p, q) {
                (Primitives::Line(l1), Primitives::Line(l2)) => {
                    assert_eq!(l1.stroke, l2.stroke);
                    assert_eq!(l1.stroke_color, l2.stroke_color);
                    assert_eq!(l1.coords.0, l2.coords.0);
                    assert_eq!(l1.coords.1.x - 5 * M, l2.coords.1.x);
                    assert_eq!(l1.coords.1.y, l2.coords.1.y);
                },
                other => panic!("expected tick lines, got {:?}", other),
            }
        } else {
            assert_eq!(p, q, "primitive {} must not change", i);
        }
    }
}

#[test]
fn degenerate_margins_are_an_error() {
    let mut chart = demo_chart();
    chart.margins = Margins {
        left: MarginType::Pixel(600 * M),
        top: MarginType::Pixel(60 * M),
        right: MarginType::Pixel(600 * M),
        bottom: MarginType::Pixel(60 * M),
    };
    assert_eq!(
        chart.generate_primitives().unwrap_err(),
        ChartError::DegenerateSpan(AxisType::XAxis)
    );
}

#[test]
fn category_category_is_an_error() {
    let cartesian = Cartesian {
        series: vec![line_series(&[1, 2, 3, 4, 5, 6, 7], 0)],
        x_axis: CartesianAxis::Category(vec![CategoryAxis::new(day_labels())]),
        y_axis: CartesianAxis::Category(vec![CategoryAxis::new(day_labels())]),
    };
    let chart = Chart::new(PlotSize::default(), CoordinateSystem::Cartesian(cartesian));
    assert_eq!(
        chart.generate_primitives().unwrap_err(),
        ChartError::CategoryCategoryPair
    );
}

#[test]
fn unbound_value_axis_is_an_error() {
    let cartesian = Cartesian {
        series: vec![line_series(&[150, 230, 224, 218, 135, 147, 260], 0)],
        x_axis: CartesianAxis::Category(vec![CategoryAxis::new(day_labels())]),
        y_axis: CartesianAxis::Value(vec![ValueAxis::new(), ValueAxis::new()]),
    };
    let chart = Chart::new(PlotSize::default(), CoordinateSystem::Cartesian(cartesian));
    assert_eq!(
        chart.generate_primitives().unwrap_err(),
        ChartError::UnboundValueAxis(AxisType::YAxis, 1)
    );
}

#[test]
fn value_projection_hits_span_edges_exactly() {
    let off = Offsets {
        x_axis_start: 100 * M,
        x_axis_end: 900 * M,
        x_span: 800 * M,
        y_axis_start: 60 * M,
        y_axis_end: 940 * M,
        y_span: 880 * M,
    };
    // The resolved scale 0..300 in steps of 50.
    let scale = ScaleResult { lo: 0, hi: 6, c10: 50, exp: 0 };
    let h = AxisHelper::Values(AxisValuesHelper { scale });
    assert_eq!(project(&AxisType::XAxis, &h, &off, 0, 0), 100 * M);
    assert_eq!(project(&AxisType::XAxis, &h, &off, 0, 300 * M), 900 * M);
    assert_eq!(project(&AxisType::YAxis, &h, &off, 0, 0), 940 * M);
    assert_eq!(project(&AxisType::YAxis, &h, &off, 0, 300 * M), 60 * M);
}

#[test]
fn scatter_series_emits_sized_circles() {
    let data = ScatterData {
        primary_data_index: 0,
        secondary_data_index: 1,
        symbol_size_index: Some(2),
        plot_data: vec![
            PlotData::Values(vec![150 * M, 230 * M, 260 * M]),
            PlotData::Values(vec![1 * M, 2 * M, 3 * M]),
            PlotData::Values(vec![11 * M, 12 * M, 13 * M]),
        ],
    };
    let cartesian = Cartesian {
        series: vec![Series::Scatter(Scatter::new(data))],
        x_axis: CartesianAxis::Category(vec![CategoryAxis::new(day_labels())]),
        y_axis: CartesianAxis::Value(vec![ValueAxis::new()]),
    };
    let chart = Chart::new(PlotSize::default(), CoordinateSystem::Cartesian(cartesian));
    let prims = chart.generate_primitives().expect("valid chart");
    let circles: Vec<&Primitives> = prims
        .iter()
        .filter(|p| matches!(p, Primitives::Circle(_)))
        .collect();
    assert_eq!(circles.len(), 3);
    match circles[1] {
        Primitives::Circle(c) => {
            // Radius comes from the third data dimension.
            assert_eq!(c.radius, 12 * M);
            assert_eq!(c.coord.x, x_px(1));
        },
        _ => unreachable!(),
    }
}

#[test]
fn renderer_handle_is_plain() {
    let r = SvgRenderer::new();
    assert_eq!(r, SvgRenderer::default());
}

#[test]
fn white_theme_defaults() {
    let th = Theme::white();
    assert_eq!(th.series_colors.len(), 12);
    assert!(th.cartesian_category_axis.axis_show);
    assert!(!th.cartesian_value_axis.axis_show);
    assert!(!th.cartesian_category_axis.split_lines_show);
    assert!(th.cartesian_value_axis.split_lines_show);
    assert_eq!(th.cartesian_category_axis.labels_font_size, 12 * M);
    assert_eq!(th.line.symbol_size, 2 * M);
    assert_eq!(th.scatter.symbol_size, 10 * M);
}

#[test]
fn value_x_category_y_scatter() {
    // The transposed frame: values run along X, categories along Y.
    let data = ScatterData {
        primary_data_index: 0,
        secondary_data_index: 1,
        symbol_size_index: None,
        plot_data: vec![
            PlotData::Values(vec![
                150 * M,
                230 * M,
                224 * M,
                218 * M,
                135 * M,
                147 * M,
                260 * M,
            ]),
            PlotData::Values(vec![1, 2, 3, 4, 5, 6, 7]),
        ],
    };
    let cartesian = Cartesian {
        series: vec![Series::Scatter(Scatter::new(data))],
        x_axis: CartesianAxis::Value(vec![ValueAxis::new()]),
        y_axis: CartesianAxis::Category(vec![CategoryAxis::new(day_labels())]),
    };
    let chart = Chart::new(PlotSize::default(), CoordinateSystem::Cartesian(cartesian));
    let prims = chart.generate_primitives().expect("valid chart");
    let circles: Vec<&Primitives> = prims
        .iter()
        .filter(|p| matches!(p, Primitives::Circle(_)))
        .collect();
    assert_eq!(circles.len(), 7);
    match circles[0] {
        Primitives::Circle(c) => {
            // The value 150 on the (0, 300) scale sits at half the X span,
            // and bucket 0 of 7 at half a bucket above the bottom edge.
            assert_eq!(c.coord.x, 100 * M + 400 * M);
            assert_eq!(c.coord.y, 940 * M - (880 * M) / 14);
        },
        _ => unreachable!(),
    }
}

#[test]
fn value_value_line() {
    let mut line = Line::new(LineData::from_table(vec![
        vec![150 * M, 230 * M, 260 * M],
        vec![10 * M, 20 * M, 40 * M],
    ]));
    line.symbol_show = Some(false);
    let cartesian = Cartesian {
        series: vec![Series::Line(line)],
        x_axis: CartesianAxis::Value(vec![ValueAxis::new()]),
        y_axis: CartesianAxis::Value(vec![ValueAxis::new()]),
    };
    let chart = Chart::new(PlotSize::default(), CoordinateSystem::Cartesian(cartesian));
    let prims = chart.generate_primitives().expect("valid chart");
    let path = prims
        .iter()
        .find_map(|p| match p {
            Primitives::Path(p) => Some(p),
            _ => None,
        })
        .expect("one path");
    assert_eq!(path.coords.len(), 3);
    // X runs over the secondary column on its own scale (0, 45, step 7.5);
    // the last point (40, 260) sits at 40/45 of the X span, rounded down.
    assert_eq!(path.coords[2].x, 100 * M + ((40i128 * (800 * M) as i128) / 45) as i64);
    // Y runs over the primary column on the (0, 300) scale.
    assert_eq!(path.coords[2].y, y_px(260));
}

#[test]
fn downsampled_line_in_a_chart() {
    let n: usize = 100;
    let labels: Vec<String> = (0..n).map(|i| format!("c{}", i)).collect();
    let values: Vec<i64> = (0..n as i64).map(|i| ((i * 31) % 97) * M).collect();
    let mut data = LineData::new(values.clone());
    data.lttb = Some(10);
    let mut line = Line::new(data);
    line.symbol_show = Some(false);
    let cartesian = Cartesian {
        series: vec![Series::Line(line)],
        x_axis: CartesianAxis::Category(vec![CategoryAxis::new(labels)]),
        y_axis: CartesianAxis::Value(vec![ValueAxis::new()]),
    };
    let chart = Chart::new(PlotSize::default(), CoordinateSystem::Cartesian(cartesian));
    let prims = chart.generate_primitives().expect("valid chart");
    let path = prims
        .iter()
        .find_map(|p| match p {
            Primitives::Path(p) => Some(p),
            _ => None,
        })
        .expect("one path");
    assert_eq!(path.coords.len(), 10);
    // The kept first and last points land in buckets 0 and 9 of 100.
    assert_eq!(path.coords[0].x, 100 * M + (800 * M) / 200);
    assert_eq!(path.coords[9].x, 100 * M + 19 * (800 * M) / 200);
}
