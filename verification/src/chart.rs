//! The chart value: a canvas size, margins, one coordinate system and a
//! theme. A chart is constructed once and rendered any number of times;
//! every render recomputes the plot offsets and the resolved scales from
//! scratch and emits a fresh primitive list.

use vstd::prelude::*;
use crate::cartesian::{ChartError, CoordinateSystem, coordinate_prims, spec_coordinate_error};
use crate::element::{Margins, Offsets, PlotSize, margin_px};
use crate::primitives::{Primitives, prims_view};
use crate::theme::Theme;

verus! {

/// Per-render working data: the canvas, the margins, and the offsets they
/// resolve to.
#[derive(Debug, Clone)]
pub struct ChartHelper {
    pub plot_size: PlotSize,
    pub margins: Margins,
    pub offsets: Offsets,
}

/// The resolved plot offsets of a chart.
pub open spec fn spec_offsets(size: PlotSize, m: Margins) -> Offsets {
    Offsets {
        x_axis_start: margin_px(m.left, size.width as int) as i64,
        x_axis_end: (size.width - margin_px(m.right, size.width as int)) as i64,
        x_span: (size.width - margin_px(m.right, size.width as int) - margin_px(
            m.left,
            size.width as int,
        )) as i64,
        y_axis_start: margin_px(m.top, size.height as int) as i64,
        y_axis_end: (size.height - margin_px(m.bottom, size.height as int)) as i64,
        y_span: (size.height - margin_px(m.bottom, size.height as int) - margin_px(
            m.top,
            size.height as int,
        )) as i64,
    }
}

/// A complete chart description.
#[derive(Debug, Clone)]
pub struct Chart {
    pub size: PlotSize,
    pub margins: Margins,
    pub coordinate_system: CoordinateSystem,
    pub theme: Theme,
}

impl Chart {
    pub open spec fn wf(self) -> bool {
        &&& self.size.wf()
        &&& self.margins.wf()
        &&& self.coordinate_system.wf()
        &&& self.theme.wf()
    }

    /// A chart with the default margins and the light theme.
    pub fn new(size: PlotSize, coordinate_system: CoordinateSystem) -> (r: Chart)
        ensures
            r.size == size,
            r.coordinate_system == coordinate_system,
            r.margins == (Margins {
                left: crate::element::MarginType::Percentage(10_000_000i64),
                top: crate::element::MarginType::Pixel(60_000_000i64),
                right: crate::element::MarginType::Percentage(10_000_000i64),
                bottom: crate::element::MarginType::Pixel(60_000_000i64),
            }),
            r.theme.wf(),
    {
        Chart { size, margins: Margins::default(), coordinate_system, theme: Theme::white() }
    }

    /// Resolve the per-render working data.
    pub fn create_plot_helper(&self) -> (r: ChartHelper)
        requires
            self.size.wf(),
            self.margins.wf(),
        ensures
            r.plot_size == self.size,
            r.margins == self.margins,
            r.offsets == spec_offsets(self.size, self.margins),
            r.offsets.wf(),
    {
        let offsets = Offsets::from_margin(&self.size, &self.margins);
        ChartHelper { plot_size: self.size, margins: self.margins, offsets }
    }

    /// One render: the full primitive list of this chart, or the
    /// configuration error that prevents one.
    pub fn generate_primitives(&self) -> (r: Result<Vec<Primitives>, ChartError>)
        requires
            self.wf(),
        ensures
            match r {
                Ok(ps) => spec_coordinate_error(
                    self.coordinate_system,
                    spec_offsets(self.size, self.margins),
                ) is None && prims_view(ps@) == coordinate_prims(
                    self.coordinate_system,
                    spec_offsets(self.size, self.margins),
                    self.theme,
                ),
                Err(e) => spec_coordinate_error(
                    self.coordinate_system,
                    spec_offsets(self.size, self.margins),
                ) == Some(e),
            },
    {
        let helper = self.create_plot_helper();
        let mut primitives: Vec<Primitives> = Vec::new();
        match self.coordinate_system.append_primitives(
            &mut primitives,
            &helper.offsets,
            &self.theme,
        ) {
            Ok(_) => {
                proof {
                    assert(prims_view(primitives@) =~= coordinate_prims(
                        self.coordinate_system,
                        spec_offsets(self.size, self.margins),
                        self.theme,
                    ));
                }
                Ok(primitives)
            },
            Err(e) => Err(e),
        }
    }
}

} // verus!
