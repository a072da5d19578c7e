use loan_vault::terms::{
    covers_total_due, has_min_collateral, is_liquidatable, within_max_leverage, INTEREST_RATE_BPS,
    LOAN_TERM, MAX_LEVERAGE, MIN_COLLATERAL_RATIO, PRICE_SCALE,
};

const YEAR: u64 = 31_536_000;

#[test]
fn the_terms_are_those_of_the_ledger() {
    assert_eq!(MIN_COLLATERAL_RATIO, 150);
    assert_eq!(MAX_LEVERAGE, 300);
    assert_eq!(INTEREST_RATE_BPS, 500);
    assert_eq!(LOAN_TERM, 31_536_000);
    assert_eq!(PRICE_SCALE, 1_000_000);
}

#[test]
fn collateral_ratio_bound_is_inclusive() {
    assert!(has_min_collateral(1500, 1000));
    assert!(has_min_collateral(150, 100));
    assert!(has_min_collateral(3, 2));
    assert!(has_min_collateral(2000, 1000));
}

#[test]
fn collateral_ratio_of_149_is_refused() {
    // 1499 * 100 / 1000 = 149
    assert!(!has_min_collateral(1499, 1000));
    // 149 * 100 / 100 = 149
    assert!(!has_min_collateral(149, 100));
    // 2 * 100 / 2 = 100
    assert!(!has_min_collateral(2, 2));
    assert!(!has_min_collateral(1000, 1000));
}

#[test]
fn collateral_ratio_truncates_before_it_is_compared() {
    // 4 * 100 / 3 = 133, 5 * 100 / 3 = 166
    assert!(!has_min_collateral(4, 3));
    assert!(has_min_collateral(5, 3));
    // 1 * 100 / 1 = 100
    assert!(!has_min_collateral(1, 1));
    assert!(has_min_collateral(2, 1));
}

#[test]
fn collateral_ratio_of_the_largest_amounts() {
    assert!(!has_min_collateral(i128::MAX, i128::MAX));
    assert!(has_min_collateral(i128::MAX, i128::MAX / 3 * 2));
    assert!(!has_min_collateral(i128::MAX / 3 * 2, i128::MAX));
    assert!(has_min_collateral(i128::MAX, 1));
}

#[test]
fn collateral_that_is_not_positive_never_suffices() {
    assert!(!has_min_collateral(0, 1));
    assert!(!has_min_collateral(-1500, 1000));
    assert!(!has_min_collateral(i128::MIN, 1));
}

#[test]
fn leverage_bound_is_inclusive() {
    // 300 * 100 / 100 = 300
    assert!(within_max_leverage(300, 100));
    // 30099 * 100 / 10000 = 300
    assert!(within_max_leverage(30_099, 10_000));
    // 301 * 100 / 100 = 301
    assert!(!within_max_leverage(301, 100));
    assert!(!within_max_leverage(30_100, 10_000));
    assert!(!within_max_leverage(400, 100));
    assert!(within_max_leverage(1000, 2000));
}

#[test]
fn leverage_of_the_largest_amounts() {
    assert!(within_max_leverage(i128::MAX, i128::MAX));
    assert!(!within_max_leverage(i128::MAX, 1));
    assert!(within_max_leverage(1, i128::MAX));
    assert!(within_max_leverage(0, 1));
    assert!(within_max_leverage(-5, 1));
}

#[test]
fn nothing_but_the_principal_is_due_at_once() {
    assert!(covers_total_due(1000, 1000, 500, 77, 77));
    assert!(!covers_total_due(999, 1000, 500, 77, 77));
}

#[test]
fn a_year_at_five_percent() {
    // 1000 * 500 * 31_536_000 / (31_536_000 * 10_000) = 50
    assert!(covers_total_due(1050, 1000, 500, 0, YEAR));
    assert!(!covers_total_due(1049, 1000, 500, 0, YEAR));
    assert!(covers_total_due(2000, 1000, 500, 0, YEAR));
}

#[test]
fn interest_is_rounded_down() {
    // 1000 * 500 * 630_719 / 315_360_000_000 = 0, and with 630_720 it is 1
    assert!(covers_total_due(1000, 1000, 500, 0, 630_719));
    assert!(!covers_total_due(1000, 1000, 500, 0, 630_720));
    assert!(covers_total_due(1001, 1000, 500, 0, 630_720));
    // half a year: 25
    assert!(covers_total_due(1025, 1000, 500, 10, 10 + YEAR / 2));
    assert!(!covers_total_due(1024, 1000, 500, 10, 10 + YEAR / 2));
}

#[test]
fn interest_on_a_principal_whose_product_is_wider_than_the_type() {
    let principal: i128 = 1_000_000_000_000_000_000_000_000_000_000;
    let due = principal + principal / 20;
    assert!(covers_total_due(due, principal, 500, 0, YEAR));
    assert!(!covers_total_due(due - 1, principal, 500, 0, YEAR));
}

#[test]
fn what_is_due_can_be_more_than_any_amount() {
    assert!(!covers_total_due(i128::MAX, i128::MAX, 500, 0, YEAR));
    assert!(!covers_total_due(i128::MAX, i128::MAX, u32::MAX, 0, u64::MAX));
    assert!(covers_total_due(i128::MAX, i128::MAX, 500, 5, 5));
    assert!(covers_total_due(i128::MAX, i128::MAX, 0, 0, u64::MAX));
}

#[test]
fn a_clock_that_ran_backwards_makes_interest_negative() {
    // 10^12 * 500 * (-100) / 315_360_000_000 = -158_548 (rounded towards zero)
    let principal: i128 = 1_000_000_000_000;
    assert!(covers_total_due(principal - 158_548, principal, 500, 100, 0));
    assert!(!covers_total_due(principal - 158_549, principal, 500, 100, 0));
    // 1000 * 500 * (-1) / 315_360_000_000 = 0 (rounded towards zero, not down)
    assert!(covers_total_due(1000, 1000, 500, 1, 0));
    assert!(!covers_total_due(999, 1000, 500, 1, 0));
}

#[test]
fn negative_interest_can_outweigh_the_principal() {
    // 1000 * 500 * (-2 * 630_720_000) / 315_360_000_000 = -2000
    assert!(covers_total_due(-1000, 1000, 500, 2 * 630_720_000, 0));
    assert!(!covers_total_due(-1001, 1000, 500, 2 * 630_720_000, 0));
    assert!(covers_total_due(i128::MIN, i128::MAX, u32::MAX, u64::MAX, 0));
}

#[test]
fn liquidation_threshold_at_par() {
    // 1500 * 1_000_000 / 1_000_000 * 100 / 1000 = 150
    assert!(!is_liquidatable(1500, 1000, 1_000_000));
    // 1499 * 100 / 1000 = 149
    assert!(is_liquidatable(1499, 1000, 1_000_000));
}

#[test]
fn liquidation_follows_the_price() {
    // 1500 * 999_999 / 1_000_000 = 1499, and 1499 * 100 / 1000 = 149
    assert!(is_liquidatable(1500, 1000, 999_999));
    // 2000 * 750_000 / 1_000_000 = 1500
    assert!(!is_liquidatable(2000, 1000, 750_000));
    // 2000 * 749_999 / 1_000_000 = 1499
    assert!(is_liquidatable(2000, 1000, 749_999));
    assert!(!is_liquidatable(1000, 1000, 1_500_000));
    assert!(is_liquidatable(1000, 1000, 1_499_999));
}

#[test]
fn liquidation_divides_twice() {
    // 3 * 500_000 / 1_000_000 = 1, and 1 * 100 / 1 = 100: the value is
    // rounded before the ratio is taken
    assert!(is_liquidatable(3, 1, 500_000));
    // 3 * 1_000_000 / 1_000_000 = 3, and 3 * 100 / 2 = 150
    assert!(!is_liquidatable(3, 2, 1_000_000));
}

#[test]
fn liquidation_at_prices_that_are_not_positive() {
    assert!(is_liquidatable(2000, 1000, 0));
    assert!(is_liquidatable(2000, 1000, -1_000_000));
    assert!(is_liquidatable(i128::MAX, 1, i128::MIN));
}

#[test]
fn liquidation_of_the_largest_amounts() {
    assert!(!is_liquidatable(i128::MAX, i128::MAX, i128::MAX));
    // the value of an odd amount at 1.5 is rounded down, and the ratio with it
    assert!(is_liquidatable(i128::MAX, i128::MAX, 1_500_000));
    assert!(!is_liquidatable(i128::MAX - 1, i128::MAX - 1, 1_500_000));
    assert!(is_liquidatable(i128::MAX - 1, i128::MAX - 1, 1_499_999));
    assert!(is_liquidatable(1, i128::MAX, i128::MAX));
}

#[test]
fn what_is_due_on_a_principal_that_is_not_positive() {
    // -1000 + (-1000 * 500 * 31_536_000 / 315_360_000_000) = -1050
    assert!(covers_total_due(-1050, -1000, 500, 0, YEAR));
    assert!(!covers_total_due(-1051, -1000, 500, 0, YEAR));
    // with the clock run backwards by a year: -1000 + 50 = -950
    assert!(covers_total_due(-950, -1000, 500, YEAR, 0));
    assert!(!covers_total_due(-951, -1000, 500, YEAR, 0));
    // -10^12 * 500 * 100 / 315_360_000_000 = -158_548
    assert!(covers_total_due(-1_000_000_158_548, -1_000_000_000_000, 500, 0, 100));
    assert!(!covers_total_due(-1_000_000_158_549, -1_000_000_000_000, 500, 0, 100));
    assert!(covers_total_due(0, 0, 500, 0, YEAR));
    assert!(!covers_total_due(-1, 0, 500, 0, YEAR));
    assert!(covers_total_due(i128::MIN, i128::MIN, 500, 3, 3));
    assert!(covers_total_due(i128::MIN, i128::MIN, u32::MAX, 0, u64::MAX));
    assert!(!covers_total_due(i128::MAX, i128::MIN, u32::MAX, u64::MAX, 0));
}

#[test]
fn liquidation_of_collateral_that_is_not_positive() {
    assert!(is_liquidatable(0, 1000, 5));
    assert!(is_liquidatable(-2000, 1000, 750_000));
    // -2000 * -750_000 / 1_000_000 * 100 / 1000 = 150
    assert!(!is_liquidatable(-2000, 1000, -750_000));
    assert!(is_liquidatable(-2000, 1000, -749_999));
    assert!(!is_liquidatable(i128::MIN, i128::MAX, i128::MIN));
}
