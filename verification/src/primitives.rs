//! The drawing primitives this core emits: lines, paths, circles and text
//! placements, positioned in micro-pixel space. A primitive is immutable
//! once emitted and carries every resolved value (color, stroke, final
//! coordinates) by value; renderers divide coordinates by 10^6 to reach
//! pixels.

use vstd::prelude::*;

verus! {

/// A point in micro-pixel space.
#[derive(Debug, Clone, Copy, PartialEq, Eq, Structural)]
pub struct Point {
    pub x: i64,
    pub y: i64,
}

/// Stroke end-cap shape.
#[derive(Debug, Clone, Copy, PartialEq, Eq, Structural)]
pub enum Cap {
    Butt,
    Square,
    Round,
}

/// Stroke style: width in micro-pixels and the two end caps.
#[derive(Debug, Clone, Copy, PartialEq, Eq, Structural)]
pub struct Stroke {
    pub width: i64,
    pub start_cap: Cap,
    pub end_cap: Cap,
}

impl Stroke {
    pub fn new(width: i64) -> (r: Stroke)
        ensures
            r == (Stroke { width, start_cap: Cap::Butt, end_cap: Cap::Butt }),
    {
        Stroke { width, start_cap: Cap::Butt, end_cap: Cap::Butt }
    }

    pub fn with_start_cap(self, cap: Cap) -> (r: Stroke)
        ensures
            r == (Stroke { start_cap: cap, ..self }),
    {
        Stroke { start_cap: cap, ..self }
    }

    pub fn with_end_cap(self, cap: Cap) -> (r: Stroke)
        ensures
            r == (Stroke { end_cap: cap, ..self }),
    {
        Stroke { end_cap: cap, ..self }
    }
}

/// An sRGB color with alpha, eight bits per channel.
#[derive(Debug, Clone, Copy, PartialEq, Eq, Structural)]
pub struct Color {
    pub r: u8,
    pub g: u8,
    pub b: u8,
    pub a: u8,
}

impl Color {
    pub fn from_rgba8(r: u8, g: u8, b: u8, a: u8) -> (c: Color)
        ensures
            c == (Color { r, g, b, a }),
    {
        Color { r, g, b, a }
    }
}

/// Paint for strokes and fills. Only solid colors are emitted today; the
/// enum leaves room for richer paints.
#[derive(Debug, Clone, Copy, PartialEq, Eq, Structural)]
pub enum Brush {
    Solid(Color),
}

/// Horizontal anchoring of a text primitive.
#[derive(Debug, Clone, Copy, PartialEq, Eq, Structural)]
pub enum Alignment {
    Start,
    End,
    Left,
    Middle,
    Right,
    Justified,
}

/// A single straight line segment.
#[derive(Debug, Clone, Copy, PartialEq, Eq)]
pub struct Line {
    pub stroke: Stroke,
    pub stroke_color: Brush,
    pub coords: (Point, Point),
}

/// A text placement; the rotation is in micro-radians.
#[derive(Debug, Clone, PartialEq)]
pub struct Text {
    pub text: String,
    pub fill_color: Brush,
    pub font_size: i64,
    pub text_anchor: Alignment,
    pub coord: Point,
    pub rotation: Option<i64>,
}

/// A polyline through the given points.
#[derive(Debug, Clone, PartialEq)]
pub struct Path {
    pub stroke: Stroke,
    pub stroke_color: Brush,
    pub coords: Vec<Point>,
}

/// A circle with an outline and a fill.
#[derive(Debug, Clone, Copy, PartialEq, Eq, Structural)]
pub struct Circle {
    pub stroke: Stroke,
    pub stroke_color: Brush,
    pub fill_color: Brush,
    pub coord: Point,
    pub radius: i64,
}

/// Several circles of one radius and style, one per point.
#[derive(Debug, Clone, PartialEq)]
pub struct MultiCircle {
    pub stroke: Stroke,
    pub stroke_color: Brush,
    pub fill_color: Brush,
    pub coords: Vec<Point>,
    pub radius: i64,
}

/// The sole output contract of this core: the ordered list of these values
/// is what a renderer consumes, later entries drawn on top.
#[derive(Debug, Clone, PartialEq)]
pub enum Primitives {
    Line(Line),
    Text(Text),
    Path(Path),
    Circle(Circle),
    MultiCircle(MultiCircle),
}

/// Mathematical mirror of [`Text`]: the string as a character sequence.
pub struct TextV {
    pub text: Seq<char>,
    pub fill_color: Brush,
    pub font_size: int,
    pub text_anchor: Alignment,
    pub coord: Point,
    pub rotation: Option<int>,
}

/// Mathematical mirror of [`Path`]: the points as a sequence.
pub struct PathV {
    pub stroke: Stroke,
    pub stroke_color: Brush,
    pub coords: Seq<Point>,
}

/// Mathematical mirror of [`MultiCircle`].
pub struct MultiCircleV {
    pub stroke: Stroke,
    pub stroke_color: Brush,
    pub fill_color: Brush,
    pub coords: Seq<Point>,
    pub radius: int,
}

/// Mathematical mirror of [`Primitives`]; contracts speak of sequences of
/// these.
pub enum PrimV {
    Line(Line),
    Text(TextV),
    Path(PathV),
    Circle(Circle),
    MultiCircle(MultiCircleV),
}

impl View for Text {
    type V = TextV;

    open spec fn view(&self) -> TextV {
        TextV {
            text: self.text@,
            fill_color: self.fill_color,
            font_size: self.font_size as int,
            text_anchor: self.text_anchor,
            coord: self.coord,
            rotation: match self.rotation {
                Some(r) => Some(r as int),
                None => None,
            },
        }
    }
}

impl View for Path {
    type V = PathV;

    open spec fn view(&self) -> PathV {
        PathV { stroke: self.stroke, stroke_color: self.stroke_color, coords: self.coords@ }
    }
}

impl View for MultiCircle {
    type V = MultiCircleV;

    open spec fn view(&self) -> MultiCircleV {
        MultiCircleV {
            stroke: self.stroke,
            stroke_color: self.stroke_color,
            fill_color: self.fill_color,
            coords: self.coords@,
            radius: self.radius as int,
        }
    }
}

impl View for Primitives {
    type V = PrimV;

    open spec fn view(&self) -> PrimV {
        match self {
            Primitives::Line(l) => PrimV::Line(*l),
            Primitives::Text(t) => PrimV::Text(t@),
            Primitives::Path(p) => PrimV::Path(p@),
            Primitives::Circle(c) => PrimV::Circle(*c),
            Primitives::MultiCircle(m) => PrimV::MultiCircle(m@),
        }
    }
}

impl DeepView for Primitives {
    type V = PrimV;

    open spec fn deep_view(&self) -> PrimV {
        self.view()
    }
}

/// The view of a primitive list: what every drawing contract is stated
/// over.
pub open spec fn prims_view(v: Seq<Primitives>) -> Seq<PrimV> {
    v.map_values(|p: Primitives| p@)
}

/// Appending one primitive appends its view.
pub proof fn lemma_prims_view_push(v: Seq<Primitives>, p: Primitives)
    ensures
        prims_view(v.push(p)) == prims_view(v).push(p@),
{
    assert(prims_view(v.push(p)) =~= prims_view(v).push(p@));
}

} // verus!
