//! Draws of every width from fixed states, checked against hand-computed
//! values of the linear congruential recurrence.

use randlib::Rand;
use randlib::PRIME_A;
use randlib::PRIME_B;

/// One linear congruential step, computed by hand for comparison.
fn manual_step(s: u128) -> u128 {
    PRIME_A.wrapping_mul(s).wrapping_add(PRIME_B)
}

#[test]
fn determinism_same_seed_same_sequence() {
    let mut a = Rand::from_seed(42);
    let mut b = Rand::from_seed(42);
    assert_eq!(a.rand(), b.rand());
    assert_eq!(a.rand_bool(), b.rand_bool());
    assert_eq!(a.rand_u8(), b.rand_u8());
    assert_eq!(a.rand_u16(), b.rand_u16());
    assert_eq!(a.rand_u32(), b.rand_u32());
    assert_eq!(a.rand_u64(), b.rand_u64());
    assert_eq!(a.rand_u128(), b.rand_u128());
    assert_eq!(a.rand_i8(), b.rand_i8());
    assert_eq!(a.rand_i16(), b.rand_i16());
    assert_eq!(a.rand_i32(), b.rand_i32());
    assert_eq!(a.rand_i64(), b.rand_i64());
    assert_eq!(a.rand_i128(), b.rand_i128());
    assert_eq!(a.rand_usize(), b.rand_usize());
    assert_eq!(a.rand_range(3, 999), b.rand_range(3, 999));
    assert_eq!(a.state(), b.state());
}

#[test]
fn step_independence_u8_then_u16() {
    let seed: u128 = 12345;
    let mut g = Rand::from_seed(seed);
    let first: u8 = g.rand_u8();
    let second: u16 = g.rand_u16();

    let s1: u128 = manual_step(seed);
    let s2: u128 = manual_step(s1);
    assert_eq!(first, ((s1 >> 64) % 0x100) as u8);
    // The second draw reads the twice-stepped state with the u16 formula...
    assert_eq!(second, ((s2 >> 64) % 0x1_0000) as u16);
    // ...not the u8 formula, and not the once-stepped state.
    assert_ne!(second, ((s2 >> 64) % 0x100) as u16);
    assert_ne!(second, ((s1 >> 64) % 0x1_0000) as u16);
    assert_eq!(g.state(), s2);
}

#[test]
fn rand_exact() {
    let mut g = Rand::from_seed(12345);
    let v: usize = g.rand();
    assert_eq!(v, 8694908929633316555usize);
}

#[test]
fn rand_usize_exact() {
    let mut g = Rand::from_seed(12345);
    let v: usize = g.rand_usize();
    assert_eq!(v, 8694908929633316555usize);
}

#[test]
fn rand_equals_rand_usize() {
    let mut a = Rand::from_seed(808);
    let mut b = Rand::from_seed(808);
    assert_eq!(a.rand(), b.rand_usize());
}

#[test]
fn rand_bool_exact() {
    let mut g = Rand::from_seed(12345);
    assert!(!g.rand_bool());
}

#[test]
fn rand_u8_exact() {
    let mut g = Rand::from_seed(12345);
    assert_eq!(g.rand_u8(), 197u8);
}

#[test]
fn rand_u16_exact() {
    let mut g = Rand::from_seed(12345);
    assert_eq!(g.rand_u16(), 965u16);
}

#[test]
fn rand_u32_exact() {
    let mut g = Rand::from_seed(12345);
    assert_eq!(g.rand_u32(), 965u32);
}

#[test]
fn rand_u64_exact() {
    let mut g = Rand::from_seed(12345);
    assert_eq!(g.rand_u64(), 8694908929633316555u64);
}

#[test]
fn rand_u128_exact() {
    let mut g = Rand::from_seed(12345);
    assert_eq!(g.rand_u128(), 12813457802186781042004739071394655919u128);
}

#[test]
fn rand_i8_exact() {
    let mut g = Rand::from_seed(12345);
    assert_eq!(g.rand_i8(), -59i8);
}

#[test]
fn rand_i16_exact() {
    let mut g = Rand::from_seed(12345);
    assert_eq!(g.rand_i16(), 965i16);
}

#[test]
fn rand_i32_exact() {
    let mut g = Rand::from_seed(12345);
    assert_eq!(g.rand_i32(), 965i32);
}

#[test]
fn rand_i64_exact() {
    let mut g = Rand::from_seed(12345);
    assert_eq!(g.rand_i64(), 8694908929633316555i64);
}

#[test]
fn rand_i128_exact() {
    let mut g = Rand::from_seed(12345);
    assert_eq!(g.rand_i128(), 12813457802186781042004739071394655919i128);
}

#[test]
fn state_copy_seeds_equal_generator() {
    let mut a = Rand::from_seed(7);
    assert_eq!(a.state(), 7);
    let _: usize = a.rand();
    let mut b = Rand::from_seed(a.state());
    assert_eq!(a.rand_u64(), b.rand_u64());
}

#[test]
fn end_to_end_seed_12345() {
    let mut a = Rand::from_seed(12345);
    let mut b = Rand::from_seed(12345);
    let first: (u32, u32) = (a.rand_u32(), b.rand_u32());
    let second: (u32, u32) = (a.rand_u32(), b.rand_u32());
    let third: (u32, u32) = (a.rand_u32(), b.rand_u32());
    assert_eq!(first.0, first.1);
    assert_eq!(second.0, second.1);
    assert_eq!(third.0, third.1);
    assert_eq!(first.0, 965u32);
    assert_eq!(second.0, 3105686415u32);
    assert_eq!(third.0, 510979238u32);
}

#[test]
fn ambient_construction_draws() {
    let mut g = Rand::new();
    let _: usize = g.rand();
    let mut d = Rand::default();
    let _: bool = d.rand_bool();
}
