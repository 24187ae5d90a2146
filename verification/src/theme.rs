//! Chart-wide visual defaults, and the single fallback rule every stylable
//! property goes through: an explicit override wins, otherwise the theme
//! default for the axis or series kind applies — independently per
//! property.

use vstd::prelude::*;
use crate::primitives::{Brush, Cap, Color, Stroke};
use crate::element::PIX_LIMIT;

verus! {

/// The fallback rule: an explicit override, or the theme default.
pub open spec fn spec_resolve<T>(o: Option<T>, d: T) -> T {
    match o {
        Some(v) => v,
        None => d,
    }
}

/// Resolve one stylable property against its theme default.
pub fn resolve<T: Copy>(o: Option<T>, d: T) -> (r: T)
    ensures
        r == spec_resolve(o, d),
{
    match o {
        Some(v) => v,
        None => d,
    }
}

/// Theme defaults for one axis kind (category or value).
#[derive(Debug, Clone, Copy, PartialEq, Eq, Structural)]
pub struct CartesianAxisTheme {
    pub axis_show: bool,
    pub axis_stroke: Stroke,
    pub axis_color: Brush,
    pub axis_auto_offset: i64,
    pub ticks_show: bool,
    pub ticks_length: i64,
    pub ticks_stroke: Stroke,
    pub ticks_color: Brush,
    pub split_lines_show: bool,
    pub split_lines_color: Brush,
    pub split_lines_stroke: Stroke,
    pub labels_show: bool,
    pub labels_margin: i64,
    pub labels_color: Brush,
    pub labels_font_size: i64,
}

impl CartesianAxisTheme {
    pub open spec fn wf(self) -> bool {
        &&& 0 <= self.axis_auto_offset <= PIX_LIMIT
        &&& 0 <= self.ticks_length <= PIX_LIMIT
        &&& 0 <= self.labels_margin <= PIX_LIMIT
        &&& 0 <= self.labels_font_size <= PIX_LIMIT
    }
}

/// Theme defaults for line series.
#[derive(Debug, Clone, Copy, PartialEq, Eq, Structural)]
pub struct LineTheme {
    pub stroke: Stroke,
    pub symbol_show: bool,
    pub symbol_stroke: Stroke,
    pub symbol_fill_color: Brush,
    pub symbol_size: i64,
}

impl LineTheme {
    pub open spec fn wf(self) -> bool {
        0 <= self.symbol_size <= PIX_LIMIT
    }
}

/// Theme defaults for scatter series.
#[derive(Debug, Clone, Copy, PartialEq, Eq, Structural)]
pub struct ScatterTheme {
    pub stroke: Stroke,
    pub stroke_color: Brush,
    pub symbol_size: i64,
}

impl ScatterTheme {
    pub open spec fn wf(self) -> bool {
        0 <= self.symbol_size <= PIX_LIMIT
    }
}

/// The chart-wide theme: axis defaults per axis kind, series defaults per
/// series kind, and the ordered palette that series colors cycle through.
#[derive(Debug, Clone, PartialEq)]
pub struct Theme {
    pub background: Color,
    pub cartesian_category_axis: CartesianAxisTheme,
    pub cartesian_value_axis: CartesianAxisTheme,
    pub line: LineTheme,
    pub scatter: ScatterTheme,
    pub series_colors: Vec<Brush>,
}

impl Theme {
    pub open spec fn wf(self) -> bool {
        &&& self.cartesian_category_axis.wf()
        &&& self.cartesian_value_axis.wf()
        &&& self.line.wf()
        &&& self.scatter.wf()
        &&& self.series_colors.len() >= 1
    }

    /// The default light theme.
    pub fn white() -> (r: Theme)
        ensures
            r.wf(),
            r.background == (Color { r: 0xff, g: 0xff, b: 0xff, a: 0xff }),
            r.cartesian_category_axis == (CartesianAxisTheme {
                axis_show: true,
                axis_stroke: (Stroke {
                    width: 1_000_000i64,
                    start_cap: Cap::Square,
                    end_cap: Cap::Square,
                }),
                axis_color: Brush::Solid(Color { r: 0x6e, g: 0x70, b: 0x79, a: 0xff }),
                axis_auto_offset: 20_000_000i64,
                ticks_show: true,
                ticks_length: 5_000_000i64,
                ticks_stroke: (Stroke {
                    width: 1_000_000i64,
                    start_cap: Cap::Square,
                    end_cap: Cap::Square,
                }),
                ticks_color: Brush::Solid(Color { r: 0x6e, g: 0x70, b: 0x79, a: 0xff }),
                split_lines_show: false,
                split_lines_color: Brush::Solid(Color { r: 0xe0, g: 0xe6, b: 0xe1, a: 0xff }),
                split_lines_stroke: (Stroke {
                    width: 1_000_000i64,
                    start_cap: Cap::Square,
                    end_cap: Cap::Square,
                }),
                labels_show: true,
                labels_margin: 8_000_000i64,
                labels_color: Brush::Solid(Color { r: 0x6e, g: 0x70, b: 0x79, a: 0xff }),
                labels_font_size: 12_000_000i64,
            }),
            r.cartesian_value_axis == (CartesianAxisTheme {
                axis_show: false,
                split_lines_show: true,
                ..r.cartesian_category_axis
            }),
            r.line == (LineTheme {
                stroke: (Stroke { width: 2_000_000i64, start_cap: Cap::Butt, end_cap: Cap::Butt }),
                symbol_show: true,
                symbol_stroke: (Stroke {
                    width: 2_000_000i64,
                    start_cap: Cap::Butt,
                    end_cap: Cap::Butt,
                }),
                symbol_fill_color: Brush::Solid(Color { r: 0xff, g: 0xff, b: 0xff, a: 0xff }),
                symbol_size: 2_000_000i64,
            }),
            r.scatter == (ScatterTheme {
                stroke: (Stroke { width: 0i64, start_cap: Cap::Butt, end_cap: Cap::Butt }),
                stroke_color: Brush::Solid(Color { r: 0xee, g: 0xee, b: 0xee, a: 0xff }),
                symbol_size: 10_000_000i64,
            }),
            r.series_colors@ =~= seq![
                Brush::Solid(Color { r: 0x54, g: 0x70, b: 0xc6, a: 0xff }),
                Brush::Solid(Color { r: 0x91, g: 0xcc, b: 0x75, a: 0xff }),
                Brush::Solid(Color { r: 0xfa, g: 0xc8, b: 0x58, a: 0xff }),
                Brush::Solid(Color { r: 0xee, g: 0x66, b: 0x66, a: 0xff }),
                Brush::Solid(Color { r: 0x73, g: 0xc0, b: 0xde, a: 0xff }),
                Brush::Solid(Color { r: 0x3b, g: 0xa2, b: 0x72, a: 0xff }),
                Brush::Solid(Color { r: 0xfc, g: 0x84, b: 0x52, a: 0xff }),
                Brush::Solid(Color { r: 0x9a, g: 0x60, b: 0xb4, a: 0xff }),
                Brush::Solid(Color { r: 0xea, g: 0x7c, b: 0xcc, a: 0xff }),
                Brush::Solid(Color { r: 0x17, g: 0xa2, b: 0xb8, a: 0xff }),
                Brush::Solid(Color { r: 0xf3, g: 0x9c, b: 0x12, a: 0xff }),
                Brush::Solid(Color { r: 0x26, g: 0xde, b: 0x81, a: 0xff }),
            ],
    {
        let axis_stroke = Stroke::new(1_000_000).with_start_cap(Cap::Square).with_end_cap(
            Cap::Square,
        );
        let axis_color = Brush::Solid(Color::from_rgba8(0x6e, 0x70, 0x79, 0xff));
        let split_color = Brush::Solid(Color::from_rgba8(0xe0, 0xe6, 0xe1, 0xff));
        let category = CartesianAxisTheme {
            axis_show: true,
            axis_stroke,
            axis_color,
            axis_auto_offset: 20_000_000,
            ticks_show: true,
            ticks_length: 5_000_000,
            ticks_stroke: axis_stroke,
            ticks_color: axis_color,
            split_lines_show: false,
            split_lines_color: split_color,
            split_lines_stroke: axis_stroke,
            labels_show: true,
            labels_margin: 8_000_000,
            labels_color: axis_color,
            labels_font_size: 12_000_000,
        };
        let value = CartesianAxisTheme { axis_show: false, split_lines_show: true, ..category };
        let mut series_colors: Vec<Brush> = Vec::new();
        series_colors.push(Brush::Solid(Color::from_rgba8(0x54, 0x70, 0xc6, 0xff)));
        series_colors.push(Brush::Solid(Color::from_rgba8(0x91, 0xcc, 0x75, 0xff)));
        series_colors.push(Brush::Solid(Color::from_rgba8(0xfa, 0xc8, 0x58, 0xff)));
        series_colors.push(Brush::Solid(Color::from_rgba8(0xee, 0x66, 0x66, 0xff)));
        series_colors.push(Brush::Solid(Color::from_rgba8(0x73, 0xc0, 0xde, 0xff)));
        series_colors.push(Brush::Solid(Color::from_rgba8(0x3b, 0xa2, 0x72, 0xff)));
        series_colors.push(Brush::Solid(Color::from_rgba8(0xfc, 0x84, 0x52, 0xff)));
        series_colors.push(Brush::Solid(Color::from_rgba8(0x9a, 0x60, 0xb4, 0xff)));
        series_colors.push(Brush::Solid(Color::from_rgba8(0xea, 0x7c, 0xcc, 0xff)));
        series_colors.push(Brush::Solid(Color::from_rgba8(0x17, 0xa2, 0xb8, 0xff)));
        series_colors.push(Brush::Solid(Color::from_rgba8(0xf3, 0x9c, 0x12, 0xff)));
        series_colors.push(Brush::Solid(Color::from_rgba8(0x26, 0xde, 0x81, 0xff)));
        Theme {
            background: Color::from_rgba8(0xff, 0xff, 0xff, 0xff),
            cartesian_category_axis: category,
            cartesian_value_axis: value,
            line: LineTheme {
                stroke: Stroke::new(2_000_000),
                symbol_show: true,
                symbol_stroke: Stroke::new(2_000_000),
                symbol_fill_color: Brush::Solid(Color::from_rgba8(0xff, 0xff, 0xff, 0xff)),
                symbol_size: 2_000_000,
            },
            scatter: ScatterTheme {
                stroke: Stroke::new(0),
                stroke_color: Brush::Solid(Color::from_rgba8(0xee, 0xee, 0xee, 0xff)),
                symbol_size: 10_000_000,
            },
            series_colors,
        }
    }
}

} // verus!
