use speaki_sim::fx::{abs64, clamp_i128, isqrt, muldiv, sat_add, sat_sub, scale_milli, COORD_LIMIT};

#[test]
fn sat_add_plain_and_saturating() {
    assert_eq!(sat_add(2000, 3000), 5000);
    assert_eq!(sat_add(-2000, 500), -1500);
    assert_eq!(sat_add(COORD_LIMIT, COORD_LIMIT), COORD_LIMIT);
    assert_eq!(sat_add(-COORD_LIMIT, -COORD_LIMIT), -COORD_LIMIT);
}

#[test]
fn sat_sub_plain_and_saturating() {
    assert_eq!(sat_sub(2000, 3000), -1000);
    assert_eq!(sat_sub(COORD_LIMIT, -COORD_LIMIT), COORD_LIMIT);
    assert_eq!(sat_sub(-COORD_LIMIT, COORD_LIMIT), -COORD_LIMIT);
}

#[test]
fn scale_milli_is_truncating_per_mille() {
    assert_eq!(scale_milli(1000, 700), 700);
    assert_eq!(scale_milli(-1000, 700), -700);
    assert_eq!(scale_milli(999, 500), 499);
    assert_eq!(scale_milli(-999, 500), -499);
    assert_eq!(scale_milli(150_000, 1200), 180_000);
}

#[test]
fn muldiv_rounds_toward_zero() {
    assert_eq!(muldiv(7, 3, 2), 10);
    assert_eq!(muldiv(-7, 3, 2), -10);
    assert_eq!(muldiv(100_000, 50, 100), 50_000);
}

#[test]
fn clamp_into_range() {
    assert_eq!(clamp_i128(0), 0);
    assert_eq!(clamp_i128((COORD_LIMIT as i128) + 1), COORD_LIMIT);
    assert_eq!(clamp_i128(-(COORD_LIMIT as i128) - 1), -COORD_LIMIT);
}

#[test]
fn abs64_both_signs() {
    assert_eq!(abs64(-5), 5);
    assert_eq!(abs64(5), 5);
    assert_eq!(abs64(0), 0);
}

#[test]
fn isqrt_exact_squares_and_between() {
    assert_eq!(isqrt(0), 0);
    assert_eq!(isqrt(1), 1);
    assert_eq!(isqrt(3), 1);
    assert_eq!(isqrt(4), 2);
    assert_eq!(isqrt(99), 9);
    assert_eq!(isqrt(100), 10);
    assert_eq!(isqrt(1_000_000_000_000), 1_000_000);
    assert_eq!(isqrt(2_000_000_000_000_000_000_000_000_000_000u128), 1_414_213_562_373_095);
}
