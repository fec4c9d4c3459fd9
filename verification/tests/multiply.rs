use fast_multiplication::multiply;

#[test]
fn multiplies_small_operands() {
    assert_eq!(multiply(123, 456), Some(56088));
}

#[test]
fn multiplies_nine_digit_operands() {
    assert_eq!(
        multiply(999_999_999, 999_999_999),
        Some(999_999_998_000_000_001)
    );
}

#[test]
fn multiplies_mixed_signs() {
    assert_eq!(
        multiply(-123_456_789, 987_654_321),
        Some(-121_932_631_112_635_269)
    );
}

#[test]
fn zero_operand_gives_zero() {
    assert_eq!(multiply(0, 123_456_789), Some(0));
    assert_eq!(multiply(123_456_789, 0), Some(0));
    assert_eq!(multiply(0, 0), Some(0));
}

#[test]
fn zero_absorbs_extreme_operands() {
    assert_eq!(multiply(0, i128::MAX), Some(0));
    assert_eq!(multiply(i128::MIN, 0), Some(0));
}

#[test]
fn reports_overflow_instead_of_wrapping() {
    // The exact product has 39 digits and exceeds the i128 range.
    assert_eq!(
        multiply(12_345_678_901_234_567_890, 98_765_432_109_876_543_210),
        None
    );
}

#[test]
fn single_digit_fast_path_matches_direct_product() {
    for a in -9..=9i128 {
        assert_eq!(multiply(a, 1_000_000_007), Some(a * 1_000_000_007));
        assert_eq!(multiply(1_000_000_007, a), Some(1_000_000_007 * a));
    }
}

#[test]
fn boundary_at_ten_exercises_splitting() {
    assert_eq!(multiply(10, 10), Some(100));
    assert_eq!(multiply(-10, 10), Some(-100));
    assert_eq!(multiply(10, -10), Some(-100));
    assert_eq!(multiply(-10, -10), Some(100));
}

#[test]
fn sign_correctness_on_concrete_pairs() {
    let pairs = [
        (123_456_789i128, 987_654i128),
        (31_415_926i128, 27_182_818i128),
        (10i128, 99_999_999_999i128),
    ];
    for (a, b) in pairs {
        let p = multiply(a, b).unwrap();
        assert_eq!(multiply(-a, b), Some(-p));
        assert_eq!(multiply(a, -b), Some(-p));
        assert_eq!(multiply(-a, -b), Some(p));
    }
}

#[test]
fn matches_schoolbook_reference_products() {
    let values = [
        11i128,
        97,
        1_234,
        99_999,
        1_000_000,
        123_456_789_012,
        -77_777_777,
        -10,
        -999_999_999_999,
    ];
    for &a in &values {
        for &b in &values {
            assert_eq!(multiply(a, b), Some(a * b));
        }
    }
}

#[test]
fn multiplies_operands_at_the_promised_window() {
    let limit = 1_000_000_000_000_000_000i128;
    assert_eq!(multiply(limit, limit), Some(limit * limit));
    assert_eq!(multiply(-limit, limit), Some(-(limit * limit)));
}
