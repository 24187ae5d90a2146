//! Plain decimal formatting of scaled label values.

use plllots::fmt::format_value;
use plllots::element::{Margins, Offsets, PlotSize};

const M: i64 = 1_000_000;

#[test]
fn integers_format_plainly() {
    assert_eq!(format_value(50, 0), "50");
    assert_eq!(format_value(300, 0), "300");
    assert_eq!(format_value(0, 3), "0");
    assert_eq!(format_value(12, 2), "1200");
}

#[test]
fn fractions_strip_trailing_zeros() {
    assert_eq!(format_value(15, -1), "1.5");
    assert_eq!(format_value(50, -4), "0.005");
    assert_eq!(format_value(100, -4), "0.01");
    assert_eq!(format_value(26, -3), "0.026");
    assert_eq!(format_value(50, -1), "5");
}

#[test]
fn negatives_carry_a_sign() {
    assert_eq!(format_value(-15, -1), "-1.5");
    assert_eq!(format_value(-300, 0), "-300");
}

#[test]
fn default_margins_resolve_to_offsets() {
    let off = Offsets::from_margin(&PlotSize::default(), &Margins::default());
    assert_eq!(off.x_axis_start, 100 * M);
    assert_eq!(off.x_axis_end, 900 * M);
    assert_eq!(off.x_span, 800 * M);
    assert_eq!(off.y_axis_start, 60 * M);
    assert_eq!(off.y_axis_end, 940 * M);
    assert_eq!(off.y_span, 880 * M);
}
