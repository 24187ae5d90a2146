//! Downsampler behaviour: the million-point silhouette cases and the edge
//! cases of the passthrough rule.

use plllots::lttb::{lttb, lttb_optimized_memory};

fn sine_columns() -> (Vec<i64>, Vec<i64>) {
    // x = i, y = sin(0.1 * i), both in micro-units.
    let mut xs: Vec<i64> = Vec::with_capacity(1_000_000);
    let mut ys: Vec<i64> = Vec::with_capacity(1_000_000);
    for i in 0..1_000_000i64 {
        xs.push(i * 1_000_000);
        ys.push(((i as f64 * 0.1).sin() * 1_000_000.0) as i64);
    }
    (xs, ys)
}

#[test]
fn test_naive_version() {
    let (xs, ys) = sine_columns();
    let (prim, sec) = lttb(&ys, &xs, 1000);
    assert_eq!(prim.len(), 1000);
    assert_eq!(sec[0], 0);
    assert_eq!(sec[sec.len() - 1], 999_999_000_000);
}

#[test]
fn test_memory_version() {
    let (xs, ys) = sine_columns();
    let (prim, sec) = lttb_optimized_memory(&ys, &xs, 1000);
    assert_eq!(prim.len(), 1000);
    assert_eq!(sec[0], 0);
    assert_eq!(sec[sec.len() - 1], 999_999_000_000);
}

#[test]
fn both_variants_select_the_same_points() {
    let (xs, ys) = sine_columns();
    let a = lttb(&ys[..10_000].to_vec(), &xs[..10_000].to_vec(), 100);
    let b = lttb_optimized_memory(&ys[..10_000].to_vec(), &xs[..10_000].to_vec(), 100);
    assert_eq!(a.0, b.0);
    assert_eq!(a.1, b.1);
}

#[test]
fn threshold_at_or_above_len_is_passthrough() {
    let p = vec![1, 5, 3, 9, 2];
    let s = vec![10, 20, 30, 40, 50];
    let (rp, rs) = lttb(&p, &s, 5);
    assert_eq!(rp, p);
    assert_eq!(rs, s);
    let (rp, rs) = lttb(&p, &s, 9);
    assert_eq!(rp, p);
    assert_eq!(rs, s);
    let (rp, rs) = lttb(&p, &s, 0);
    assert_eq!(rp, p);
    assert_eq!(rs, s);
}

#[test]
fn two_point_threshold_keeps_endpoints() {
    let p = vec![1, 100, -50, 70, 2];
    let s = vec![0, 1, 2, 3, 4];
    let (rp, rs) = lttb(&p, &s, 2);
    assert_eq!(rp, vec![1, 2]);
    assert_eq!(rs, vec![0, 4]);
}

#[test]
fn short_input_is_passthrough() {
    let p = vec![7, 8];
    let s = vec![1, 2];
    let (rp, rs) = lttb(&p, &s, 0);
    assert_eq!(rp, p);
    assert_eq!(rs, s);
}

#[test]
fn output_len_is_threshold_and_endpoints_kept() {
    let p: Vec<i64> = (0..100).map(|i| (i * 37) % 101).collect();
    let s: Vec<i64> = (0..100).collect();
    let (rp, rs) = lttb(&p, &s, 10);
    assert_eq!(rp.len(), 10);
    assert_eq!(rs.len(), 10);
    assert_eq!(rp[0], p[0]);
    assert_eq!(rs[0], s[0]);
    assert_eq!(rp[9], p[99]);
    assert_eq!(rs[9], s[99]);
}

#[test]
fn peak_is_kept() {
    // A single sharp peak among flat data must survive downsampling.
    let mut p: Vec<i64> = vec![0; 50];
    p[25] = 1_000_000;
    let s: Vec<i64> = (0..50).collect();
    let (rp, _rs) = lttb(&p, &s, 5);
    assert!(rp.contains(&1_000_000));
}
