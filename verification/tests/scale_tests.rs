//! Scale engine behaviour on concrete data ranges. Values are micro-units:
//! one data unit is 1_000_000.

use plllots::scale::{calculate_axis_ticks, get_raw_range, get_scale_details, ScaleResult};

const M: i64 = 1_000_000;

fn units(vals: &[i64]) -> Vec<i64> {
    vals.iter().map(|v| v * M).collect()
}

fn triple(r: ScaleResult) -> (i64, i64, i64) {
    (
        r.min_micro().expect("representable minimum"),
        r.max_micro().expect("representable maximum"),
        r.step_micro().expect("representable step"),
    )
}

#[test]
fn basic() {
    let data = units(&[150, 230, 224, 218, 135, 147, 260]);
    let (min, max) = get_raw_range(&data);
    let (min, max, step) = triple(get_scale_details(min, max));
    assert_eq!(min, 0);
    assert_eq!(max, 300 * M);
    assert_eq!(step, 50 * M);
}

#[test]
fn basic2() {
    let data = units(&[820, 932, 901, 934, 1290, 1330, 1320]);
    let (min, max) = get_raw_range(&data);
    let (min, max, step) = triple(get_scale_details(min, max));
    assert_eq!(min, 0);
    assert_eq!(max, 1500 * M);
    assert_eq!(step, 300 * M);
}

#[test]
fn basic3() {
    let data = units(&[200, 560, 750, 580, 300, -250, 450]);
    let (min, max) = get_raw_range(&data);
    let (min, max, step) = triple(get_scale_details(min, max));
    assert_eq!(min, -400 * M);
    assert_eq!(max, 800 * M);
    assert_eq!(step, 200 * M);
}

#[test]
fn basic4() {
    // 0.0150, 0.0230, 0.0224, 0.0218, 0.0135, 0.0147, 0.0260
    let data = vec![15000, 23000, 22400, 21800, 13500, 14700, 26000];
    let (min, max) = get_raw_range(&data);
    let (min, max, step) = triple(get_scale_details(min, max));
    assert_eq!(min, 0);
    assert_eq!(max, 30000); // 0.03
    assert_eq!(step, 5000); // 0.005
}

#[test]
fn neg_basic() {
    let data = units(&[-150, -230, -224, -218, -135, -147, -260]);
    let (min, max) = get_raw_range(&data);
    let (min, max, step) = triple(get_scale_details(min, max));
    assert_eq!(min, -300 * M);
    assert_eq!(max, 0);
    assert_eq!(step, 50 * M);
}

#[test]
fn mod_basic() {
    let data = units(&[150, 230, 224, 218, 135, 147, 260]);
    let (min, max, step) = triple(calculate_axis_ticks(&data));
    assert_eq!(min, 0);
    assert_eq!(max, 300 * M);
    assert_eq!(step, 50 * M);
}

#[test]
fn mod_basic2() {
    let data = units(&[820, 932, 901, 934, 1290, 1330, 1320]);
    let (min, max, step) = triple(calculate_axis_ticks(&data));
    assert_eq!(min, 0);
    assert_eq!(max, 1500 * M);
    assert_eq!(step, 300 * M);
}

#[test]
fn mod_basic3() {
    let data = units(&[200, 560, 750, 580, 250, 300, 450, 300, 100]);
    let (min, max, step) = triple(calculate_axis_ticks(&data));
    assert_eq!(min, 0);
    assert_eq!(max, 900 * M);
    assert_eq!(step, 150 * M);
}

#[test]
fn mod_basic4() {
    let data = vec![15000, 23000, 22400, 21800, 13500, 14700, 26000];
    let (min, max, step) = triple(calculate_axis_ticks(&data));
    assert_eq!(min, 0);
    assert_eq!(max, 30000);
    assert_eq!(step, 5000);
}

#[test]
fn mod_neg_basic() {
    let data = units(&[-150, -230, -224, -218, -135, -147, -260]);
    let (min, max, step) = triple(calculate_axis_ticks(&data));
    assert_eq!(min, -300 * M);
    assert_eq!(max, 0);
    assert_eq!(step, 50 * M);
}

#[test]
fn epsilon_pushes_exact_multiple_outward() {
    // A maximum right on a step multiple is nudged past it by epsilon, so
    // the resolved bound overshoots by one step: 100..750 resolves with
    // step 150 up to 900, not 750.
    let data = units(&[200, 560, 750, 580, 250, 300, 450, 300, 100]);
    let (min, max) = get_raw_range(&data);
    assert_eq!((min, max), (100 * M, 750 * M));
    let (lo, hi, step) = triple(get_scale_details(min, max));
    assert_eq!((lo, hi, step), (0, 900 * M, 150 * M));
}

#[test]
fn degenerate_zero_range() {
    // min == max == 0 expands symmetrically by a nominal one-unit step.
    let r = get_scale_details(0, 0);
    let (min, max, step) = triple(r);
    assert_eq!(min, -M);
    assert_eq!(max, M);
    assert_eq!(step, M);
}

#[test]
fn single_value_range_includes_zero() {
    // min == max == 5: the one-signed range is clamped to include zero.
    let (min, max, step) = triple(get_scale_details(5 * M, 5 * M));
    assert_eq!(min, 0);
    assert_eq!(max, 5 * M);
    assert_eq!(step, M);
}

#[test]
fn mixed_sign_case() {
    let (min, max, step) = triple(get_scale_details(-250 * M, 750 * M));
    assert_eq!(min, -400 * M);
    assert_eq!(max, 800 * M);
    assert_eq!(step, 200 * M);
}

#[test]
fn sub_micro_step_is_unrepresentable() {
    // A four-micro-unit range needs a step below micro resolution; the
    // getters say so instead of rounding.
    let r = get_scale_details(0, 4);
    assert!(r.step_micro().is_none());
    assert!(r.exp < -6);
}
