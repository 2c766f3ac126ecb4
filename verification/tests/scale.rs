//! Tests of the fixed-point scales: decibel conversion, hue mapping, and
//! cell geometry.

use spectrogram::decibel::db_of_power;
use spectrogram::render::{cell_width_mpx, hue_of_db, target_rows};

#[test]
fn silence_maps_to_floor() {
    assert_eq!(db_of_power(0), -100);
    assert_eq!(db_of_power(1), -100);
}

#[test]
fn decade_boundaries() {
    assert_eq!(db_of_power(10), -90);
    assert_eq!(db_of_power(100), -80);
    assert_eq!(db_of_power(1_000), -70);
    assert_eq!(db_of_power(10_000_000_000), 0);
}

#[test]
fn whole_db_thresholds() {
    assert_eq!(db_of_power(9), -91);
    assert_eq!(db_of_power(1_258), -70);
    assert_eq!(db_of_power(1_259), -69);
    assert_eq!(db_of_power(3_161), -66);
    assert_eq!(db_of_power(3_162), -65);
}

#[test]
fn top_of_range_is_finite() {
    assert_eq!(db_of_power(u64::MAX), 92);
}

#[test]
fn db_scale_is_monotone_on_samples() {
    let samples: [u64; 12] = [
        0,
        1,
        2,
        9,
        10,
        99,
        1_258,
        1_259,
        100_000,
        10_000_000_000,
        1 << 60,
        u64::MAX,
    ];
    let mut prev: i32 = i32::MIN;
    for p in samples {
        let v = db_of_power(p);
        assert!(v >= prev);
        prev = v;
    }
}

#[test]
fn hue_endpoints() {
    assert_eq!(hue_of_db(-100), 0);
    assert_eq!(hue_of_db(0), 10_000);
}

#[test]
fn hue_midpoint() {
    assert_eq!(hue_of_db(-50), 5_000);
}

#[test]
fn hue_clamps_outside_domain() {
    assert_eq!(hue_of_db(-150), 0);
    assert_eq!(hue_of_db(50), 10_000);
    assert_eq!(hue_of_db(i32::MIN), 0);
    assert_eq!(hue_of_db(i32::MAX), 10_000);
}

#[test]
fn viewport_row_budget() {
    assert_eq!(target_rows(500), 100);
    assert_eq!(target_rows(7), 1);
    assert_eq!(target_rows(4), 0);
    assert_eq!(target_rows(0), 0);
    assert_eq!(target_rows(-120), 0);
}

#[test]
fn cell_width_formula() {
    // One viewport-512th per sample, doubled: 256 bins span the viewport.
    assert_eq!(cell_width_mpx(512_000), 2_000);
    assert_eq!(cell_width_mpx(256_000), 1_000);
    assert_eq!(cell_width_mpx(1_024_000), 4_000);
    assert_eq!(cell_width_mpx(0), 0);
    // Rounds down before doubling.
    assert_eq!(cell_width_mpx(1_000), 2);
}
