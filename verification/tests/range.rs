//! The bounded-range draw: bounds, exact values, and explicit rejection of
//! invalid intervals.

use randlib::Rand;

#[test]
fn range_bounds_many_draws() {
    let mut g = Rand::from_seed(2024);
    let cases: [(usize, usize); 6] =
        [(0, 0), (0, 1), (5, 5), (10, 20), (0, 999), (usize::MAX - 3, usize::MAX)];
    for &(min, max) in cases.iter() {
        for _ in 0..2000 {
            let v: usize = g.rand_range(min, max);
            assert!(min <= v && v <= max);
        }
    }
}

#[test]
fn range_exact() {
    let mut g = Rand::from_seed(777);
    assert_eq!(g.rand_range(10, 20), 10usize);
}

#[test]
fn range_min_eq_max() {
    let mut g = Rand::from_seed(31337);
    for _ in 0..100 {
        assert_eq!(g.rand_range(55, 55), 55usize);
    }
}

#[test]
fn range_invalid_rejected() {
    let mut g = Rand::from_seed(1);
    let before: u128 = g.state();
    assert_eq!(g.checked_rand_range(5, 3), None);
    assert_eq!(g.state(), before);
}

#[test]
fn range_full_span_rejected() {
    let mut g = Rand::from_seed(1);
    let before: u128 = g.state();
    assert_eq!(g.checked_rand_range(0, usize::MAX), None);
    assert_eq!(g.state(), before);
}

#[test]
fn checked_range_valid_matches_unchecked() {
    let mut a = Rand::from_seed(777);
    let mut b = Rand::from_seed(777);
    let unchecked: usize = a.rand_range(10, 20);
    assert_eq!(b.checked_rand_range(10, 20), Some(unchecked));
    assert_eq!(a.state(), b.state());
}
