use loan_vault::arith::{distance, magnitude, mul_div_floor};

#[test]
fn magnitude_of_both_signs_and_of_the_least_value() {
    assert_eq!(magnitude(0), 0);
    assert_eq!(magnitude(42), 42);
    assert_eq!(magnitude(-42), 42);
    assert_eq!(magnitude(i128::MAX), i128::MAX as u128);
    assert_eq!(magnitude(i128::MIN), 1u128 << 127);
}

#[test]
fn mul_div_floor_rounds_down() {
    assert_eq!(mul_div_floor(7, 9, 4), Some(15));
    assert_eq!(mul_div_floor(0, 9, 4), Some(0));
    assert_eq!(mul_div_floor(1, 1, 2), Some(0));
    assert_eq!(mul_div_floor(1500, 999_999, 1_000_000), Some(1499));
}

#[test]
fn mul_div_floor_is_exact_where_the_product_is_wider_than_the_type() {
    assert_eq!(mul_div_floor(u128::MAX, 2, 2), Some(u128::MAX));
    assert_eq!(mul_div_floor(u128::MAX, u64::MAX as u128, u64::MAX), Some(u128::MAX));
    let e30: u128 = 1_000_000_000_000_000_000_000_000_000_000;
    let e20: u128 = 100_000_000_000_000_000_000;
    let e19: u64 = 10_000_000_000_000_000_000;
    assert_eq!(mul_div_floor(e30, e20, e19), Some(e30 * 10));
    assert_eq!(
        mul_div_floor(e30, 500 * 31_536_000, 315_360_000_000),
        Some(e30 / 20)
    );
    assert_eq!(mul_div_floor(u128::MAX, 7, 10), Some(238197656844656924424362225202237748018));
}

#[test]
fn mul_div_floor_gives_none_where_the_quotient_does_not_fit() {
    assert_eq!(mul_div_floor(u128::MAX, u128::MAX, 1), None);
    assert_eq!(mul_div_floor(u128::MAX, 10, 3), None);
    assert_eq!(mul_div_floor(u128::MAX, 2, 1), None);
    assert_eq!(mul_div_floor(1u128 << 127, 2, 1), None);
    assert_eq!(mul_div_floor(1u128 << 127, 2, 2), Some(1u128 << 127));
    assert_eq!(mul_div_floor(u128::MAX, u128::MAX, u64::MAX), None);
}

#[test]
fn distance_is_as_wide_as_the_whole_range() {
    assert_eq!(distance(5, 3), 2);
    assert_eq!(distance(3, 5), 2);
    assert_eq!(distance(-5, 3), 8);
    assert_eq!(distance(-5, -3), 2);
    assert_eq!(distance(7, 7), 0);
    assert_eq!(distance(i128::MAX, i128::MIN), u128::MAX);
    assert_eq!(distance(i128::MIN, i128::MAX), u128::MAX);
    assert_eq!(distance(i128::MIN, 0), 1u128 << 127);
    assert_eq!(distance(0, i128::MAX), i128::MAX as u128);
}
