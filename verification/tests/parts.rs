use fast_multiplication::calculate_base;
use fast_multiplication::combine;
use fast_multiplication::split;

#[test]
fn split_round_trip_positive() {
    let parts = split(123_456, 100);
    assert_eq!(parts, [56, 34, 12]);
    assert_eq!(parts[0] + parts[1] * 100 + parts[2] * 100 * 100, 123_456);
}

#[test]
fn split_round_trip_negative_limbs_carry_sign() {
    let parts = split(-1_234_567, 100);
    assert_eq!(parts, [-67, -45, -123]);
    assert_eq!(parts[0] + parts[1] * 100 + parts[2] * 100 * 100, -1_234_567);
}

#[test]
fn split_of_value_below_base_keeps_it_low() {
    assert_eq!(split(42, 1000), [42, 0, 0]);
    assert_eq!(split(-7, 10), [-7, 0, 0]);
}

#[test]
fn split_round_trip_at_exact_cube() {
    // The high limb may reach the base itself at an exact cube.
    let parts = split(1000, 10);
    assert_eq!(parts, [0, 0, 10]);
    assert_eq!(parts[0] + parts[1] * 10 + parts[2] * 10 * 10, 1000);
}

#[test]
fn base_covers_the_larger_operand() {
    assert_eq!(calculate_base(123_456, 789), 100);
    assert_eq!(calculate_base(999_999_999, 999_999_999), 1_000);
    assert_eq!(calculate_base(10, 10), 10);
    assert_eq!(calculate_base(-123_456_789_012, 15), 10_000);
}

#[test]
fn combine_evaluates_coefficients_at_base() {
    assert_eq!(combine([1, 2, 3, 4, 5], 10), Some(54_321));
    assert_eq!(combine([0, 0, 0, 0, 0], 7), Some(0));
    assert_eq!(combine([5, -4, 3, -2, 1], 10), Some(5 - 40 + 300 - 2000 + 10000));
}

#[test]
fn combine_reports_overflow() {
    assert_eq!(combine([i128::MAX, 1, 0, 0, 0], 10), None);
}
