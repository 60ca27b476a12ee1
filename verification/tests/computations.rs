//! Sampling and vector-geometry checks on exact fixed-point values
//! (coordinates count millionths of a physical unit).

use acoustic_field::geometry::{compute_angle_cosine, compute_distance_between, Point3};
use acoustic_field::sampling::{compute_linear_sampling, sample_coordinate};

fn p(x: i64, y: i64, z: i64) -> Point3 {
    Point3 { x, y, z }
}

#[test]
fn test_compute_distance() {
    assert_eq!(compute_distance_between(&p(0, 0, 0), &p(0, 0, 0)), 0);
    assert_eq!(
        compute_distance_between(&p(0, 17_000_000, 0), &p(0, 0, 0)),
        17_000_000
    );
    // 7 * sqrt(3) units, floored onto the fixed-point lattice.
    assert_eq!(
        compute_distance_between(
            &p(-3_000_000, -3_000_000, -3_000_000),
            &p(4_000_000, 4_000_000, 4_000_000)
        ),
        12_124_355
    );
}

#[test]
fn test_compute_distance_symmetric() {
    let a = p(1_000_000, -2_000_000, 3_000_000);
    let b = p(-4_000_000, 5_000_000, -6_000_000);
    assert_eq!(
        compute_distance_between(&a, &b),
        compute_distance_between(&b, &a)
    );
    assert!(compute_distance_between(&a, &b) > 0);
    assert_eq!(compute_distance_between(&a, &a), 0);
    // The 3-4-5 right triangle is exact.
    assert_eq!(
        compute_distance_between(&p(0, 0, 0), &p(3_000_000, 4_000_000, 0)),
        5_000_000
    );
}

#[test]
fn test_compute_angle() {
    // Perpendicular directions: the cosine is exactly zero (an angle of
    // half pi).
    assert_eq!(
        compute_angle_cosine(&p(0, 0, 0), &p(1_000_000, 0, 0), &p(0, 0, 1_000_000)),
        0
    );
    assert_eq!(
        compute_angle_cosine(
            &p(10_000_000, 6_000_000, -4_000_000),
            &p(10_000_000, 6_000_000, -6_000_000),
            &p(10_000_000, 7_000_000_000, -4_000_000)
        ),
        0
    );
    // Cosine of a quarter pi between (2,0,0) and (2,2,0), floored.
    assert_eq!(
        compute_angle_cosine(
            &p(7_000_000, -77_000_000, 777_000_000),
            &p(9_000_000, -77_000_000, 777_000_000),
            &p(9_000_000, -75_000_000, 777_000_000)
        ),
        707_106
    );
    // Between (2,0,0) and (2,4,0): 1/sqrt(5), floored.
    assert_eq!(
        compute_angle_cosine(
            &p(7_000_000, -77_000_000, 777_000_000),
            &p(9_000_000, -77_000_000, 777_000_000),
            &p(9_000_000, -73_000_000, 777_000_000)
        ),
        447_213
    );
}

#[test]
fn test_compute_angle_symmetric() {
    let o = p(1_000_000, 2_000_000, 3_000_000);
    let a = p(5_000_000, -1_000_000, 2_000_000);
    let b = p(-2_000_000, 4_000_000, 7_000_000);
    assert_eq!(
        compute_angle_cosine(&o, &a, &b),
        compute_angle_cosine(&o, &b, &a)
    );
}

#[test]
fn test_compute_linear_sampling() {
    // A degenerate axis always yields the exact midpoint.
    for index in [-3i64, 0, 1, 7] {
        let r = compute_linear_sampling(index, 0, 0, 3_000_000, 5_000_000);
        assert_eq!(r.num, 8_000_000);
        assert_eq!(r.den, 2);
        let r = compute_linear_sampling(index, 0, 0, -5_000_000, -3_000_000);
        assert_eq!(r.num, -8_000_000);
        assert_eq!(r.den, 2);
    }

    // Exact at the ends, linear in between, extrapolating outside.
    let expect = [
        (0i64, 0i64),
        (1, 100_000_000),
        (2, 200_000_000),
        (3, 300_000_000),
        (4, 400_000_000),
        (5, 500_000_000),
        (6, 600_000_000),
    ];
    for (index, value) in expect {
        let r = compute_linear_sampling(index, 1, 5, 100_000_000, 500_000_000);
        assert_eq!(r.den, 4);
        assert_eq!(r.num, value * 4 / 1);
    }

    // Reversed end values: anti-monotonic.
    let expect_rev = [
        (0i64, 600_000_000i64),
        (1, 500_000_000),
        (2, 400_000_000),
        (3, 300_000_000),
        (4, 200_000_000),
        (5, 100_000_000),
        (6, 0),
    ];
    for (index, value) in expect_rev {
        let r = compute_linear_sampling(index, 1, 5, 500_000_000, 100_000_000);
        assert_eq!(r.den, 4);
        assert_eq!(r.num, value * 4);
    }
}

#[test]
fn test_sample_coordinate_covers_box_and_padding() {
    // Three samples over [-0.01, 0.01]: the ends exact, the middle the
    // midpoint, and the padding samples one step outside.
    assert_eq!(sample_coordinate(1, 1, 3, -10_000, 10_000), -10_000);
    assert_eq!(sample_coordinate(2, 1, 3, -10_000, 10_000), 0);
    assert_eq!(sample_coordinate(3, 1, 3, -10_000, 10_000), 10_000);
    assert_eq!(sample_coordinate(0, 1, 3, -10_000, 10_000), -20_000);
    assert_eq!(sample_coordinate(4, 1, 3, -10_000, 10_000), 20_000);
    // A one-sample axis sits at the box midpoint whatever the index.
    assert_eq!(sample_coordinate(0, 1, 1, 40_000, 60_000), 50_000);
    assert_eq!(sample_coordinate(1, 1, 1, 40_000, 60_000), 50_000);
    assert_eq!(sample_coordinate(2, 1, 1, 40_000, 60_000), 50_000);
}

#[test]
fn test_linear_sampling_monotonic() {
    let mut last = i64::MIN;
    for index in 0..8i64 {
        let r = compute_linear_sampling(index, 1, 7, -2_000_000, 9_000_000);
        assert_eq!(r.den, 6);
        assert!(r.num > last);
        last = r.num;
    }
    let mut last = i64::MAX;
    for index in 0..8i64 {
        let r = compute_linear_sampling(index, 1, 7, 9_000_000, -2_000_000);
        assert!(r.num < last);
        last = r.num;
    }
}
