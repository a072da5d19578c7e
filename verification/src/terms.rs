//! The terms of a loan: collateral ratio, leverage, interest and the value of
//! collateral at a price, each as a formula over the integers and as a
//! decision that is computed without overflow.
//!
//! Every formula multiplies before it divides, and every division rounds
//! towards zero.

use vstd::prelude::*;
use vstd::arithmetic::div_mod::lemma_fundamental_div_mod;
use crate::arith::abs;
use crate::arith::distance;
use crate::arith::lemma_quotient_at_least;
use crate::arith::magnitude;
use crate::arith::mul_div_floor;
use crate::arith::trunc_div;

verus! {

/// Least collateral ratio, in percent, at which a loan is granted and below
/// which it may be liquidated.
pub const MIN_COLLATERAL_RATIO: i128 = 150;

/// Greatest leverage, in percent, at which a loan is granted.
pub const MAX_LEVERAGE: i128 = 300;

/// Annual interest rate of every loan, in basis points.
pub const INTEREST_RATE_BPS: u32 = 500;

/// Term of every loan, in seconds: 365 days.
pub const LOAN_TERM: u64 = 31_536_000;

/// Seconds in a year of 365 days.
pub const SECONDS_PER_YEAR: u64 = 31_536_000;

/// Basis points in a whole.
pub const BPS_PER_WHOLE: u64 = 10_000;

/// Units of price that stand for 1.0: prices carry six decimal places.
pub const PRICE_SCALE: u64 = 1_000_000;

/// Collateral as a percentage of principal.
pub open spec fn collateral_ratio(collateral: int, principal: int) -> int
    recommends
        principal > 0,
{
    trunc_div(collateral * 100, principal)
}

/// Principal as a percentage of collateral.
pub open spec fn leverage(principal: int, collateral: int) -> int
    recommends
        collateral > 0,
{
    trunc_div(principal * 100, collateral)
}

/// Interest accrued on `principal` over `elapsed` seconds at `rate_bps`
/// basis points a year: linear, with a single division at the end.
pub open spec fn accrued_interest(principal: int, rate_bps: int, elapsed: int) -> int {
    trunc_div(principal * rate_bps * elapsed, SECONDS_PER_YEAR * BPS_PER_WHOLE)
}

/// What must be paid to close a loan: principal and accrued interest.
pub open spec fn total_due(principal: int, rate_bps: int, elapsed: int) -> int {
    principal + accrued_interest(principal, rate_bps, elapsed)
}

/// The value of `collateral` at `price`.
pub open spec fn collateral_value(collateral: int, price: int) -> int {
    trunc_div(collateral * price, PRICE_SCALE as int)
}

/// The collateral ratio of a loan with its collateral valued at `price`.
pub open spec fn priced_collateral_ratio(collateral: int, price: int, principal: int) -> int
    recommends
        principal > 0,
{
    collateral_ratio(collateral_value(collateral, price), principal)
}

/// Whether `collateral` is at least `MIN_COLLATERAL_RATIO` percent of `principal`.
pub fn has_min_collateral(collateral: i128, principal: i128) -> (ok: bool)
    requires
        principal > 0,
    ensures
        ok == (collateral_ratio(collateral as int, principal as int) >= MIN_COLLATERAL_RATIO),
{
    if collateral <= 0 {
        proof {
            lemma_quotient_at_least(-(collateral * 100), principal as int, 0);
        }
        return false;
    }
    let c: u128 = collateral as u128;
    let p: u128 = principal as u128;
    proof {
        lemma_quotient_at_least(collateral * 100, principal as int, 150);
    }
    // 100 c / p >= 150 means 2 c >= 3 p: the principal and half of it, rounded up
    c >= p + (p + 1) / 2
}

/// Whether `principal` is at most `MAX_LEVERAGE` percent of `collateral`.
pub fn within_max_leverage(principal: i128, collateral: i128) -> (ok: bool)
    requires
        collateral > 0,
    ensures
        ok == (leverage(principal as int, collateral as int) <= MAX_LEVERAGE),
{
    if principal <= 0 {
        proof {
            lemma_quotient_at_least(-(principal * 100), collateral as int, 0);
        }
        return true;
    }
    let p: u128 = principal as u128;
    let c: u128 = collateral as u128;
    let whole: u128 = p / c;
    let rest: u128 = p % c;
    proof {
        lemma_fundamental_div_mod(p as int, c as int);
        lemma_quotient_at_least(principal * 100, collateral as int, 301);
        assert(p == c * whole + rest);
        assert(whole < 3 ==> p * 100 < 301 * c) by (nonlinear_arith)
            requires
                p == c * whole + rest,
                0 <= rest < c,
                whole >= 0,
        ;
        assert(whole > 3 ==> p * 100 >= 301 * c) by (nonlinear_arith)
            requires
                p == c * whole + rest,
                0 <= rest < c,
                whole >= 0,
        ;
        lemma_quotient_at_least(c - 1, 100, rest as int);
        assert(whole == 3 ==> p * 100 == 300 * c + 100 * rest) by (nonlinear_arith)
            requires
                p == c * whole + rest,
        ;
    }
    // 100 p / c <= 300 means 100 p < 301 c; with p = 3 c + rest, that is 100 rest < c
    if whole < 3 {
        true
    } else if whole > 3 {
        false
    } else {
        rest <= (c - 1) / 100
    }
}

/// The size of the interest accrued on `principal` over `span` seconds in
/// either direction: the interest itself where principal and elapsed time
/// have the same sign, and its negative where they have not.
proof fn lemma_interest_by_size(principal: int, rate_bps: int, elapsed: int, size: int, span: int)
    requires
        rate_bps >= 0,
        size == abs(principal),
        span == abs(elapsed),
    ensures
        size * (rate_bps * span) >= 0,
        size * (rate_bps * span) / (SECONDS_PER_YEAR * BPS_PER_WHOLE) >= 0,
        accrued_interest(principal, rate_bps, elapsed) == if (principal >= 0) == (elapsed >= 0) {
            size * (rate_bps * span) / (SECONDS_PER_YEAR * BPS_PER_WHOLE)
        } else {
            -(size * (rate_bps * span) / (SECONDS_PER_YEAR * BPS_PER_WHOLE))
        },
{
    let product = principal * rate_bps * elapsed;
    let sized = size * (rate_bps * span);
    assert(sized >= 0) by (nonlinear_arith)
        requires
            sized == size * (rate_bps * span),
            size >= 0,
            rate_bps >= 0,
            span >= 0,
    ;
    lemma_quotient_at_least(sized, SECONDS_PER_YEAR * BPS_PER_WHOLE, 0);
    if (principal >= 0) == (elapsed >= 0) {
        assert(product == sized) by (nonlinear_arith)
            requires
                product == principal * rate_bps * elapsed,
                sized == size * (rate_bps * span),
                (size == principal && span == elapsed) || (size == -principal && span == -elapsed),
        ;
    } else {
        assert(product == -sized) by (nonlinear_arith)
            requires
                product == principal * rate_bps * elapsed,
                sized == size * (rate_bps * span),
                (size == principal && span == -elapsed) || (size == -principal && span == elapsed),
        ;
    }
}

/// Whether `amount` pays off a loan of `principal` that was granted at
/// `start_time`, when the ledger's time is `now`. A clock that ran backwards
/// makes the elapsed time, and with it the interest, negative.
pub fn covers_total_due(
    amount: i128,
    principal: i128,
    rate_bps: u32,
    start_time: u64,
    now: u64,
) -> (ok: bool)
    ensures
        ok == (amount >= total_due(principal as int, rate_bps as int, now - start_time)),
{
    let forward: bool = now >= start_time;
    let span: u64 = if forward {
        now - start_time
    } else {
        start_time - now
    };
    assert(rate_bps * span <= u128::MAX) by (nonlinear_arith)
        requires
            0 <= rate_bps <= u32::MAX,
            0 <= span <= u64::MAX,
    ;
    let factor: u128 = (rate_bps as u128) * (span as u128);
    let size: u128 = magnitude(principal);
    let accrued = mul_div_floor(size, factor, SECONDS_PER_YEAR * BPS_PER_WHOLE);
    let rising: bool = (principal >= 0) == forward;
    proof {
        lemma_interest_by_size(
            principal as int,
            rate_bps as int,
            now - start_time,
            size as int,
            span as int,
        );
    }
    // interest that does not fit in 128 bits outweighs principal and amount
    match accrued {
        None => !rising,
        Some(interest) => if rising {
            amount >= principal && distance(amount, principal) >= interest
        } else {
            amount >= principal || distance(amount, principal) <= interest
        },
    }
}

/// Whether a loan may be liquidated at `price`: whether its collateral, valued
/// at that price, is less than `MIN_COLLATERAL_RATIO` percent of its principal.
pub fn is_liquidatable(collateral: i128, principal: i128, price: i128) -> (ok: bool)
    requires
        principal > 0,
    ensures
        ok == (priced_collateral_ratio(collateral as int, price as int, principal as int)
            < MIN_COLLATERAL_RATIO),
{
    let ghost product: int = collateral * price;
    let ghost value: int = collateral_value(collateral as int, price as int);
    if (collateral <= 0 || price <= 0) && (collateral >= 0 || price >= 0) {
        proof {
            assert(product <= 0) by (nonlinear_arith)
                requires
                    product == collateral * price,
                    (collateral <= 0 || price <= 0) && (collateral >= 0 || price >= 0),
            ;
            lemma_quotient_at_least(-product, PRICE_SCALE as int, 0);
            lemma_quotient_at_least(-(value * 100), principal as int, 0);
        }
        return true;
    }
    let p: u128 = principal as u128;
    let valued = mul_div_floor(magnitude(collateral), magnitude(price), PRICE_SCALE);
    proof {
        assert(product == abs(collateral as int) * abs(price as int) && product > 0)
            by (nonlinear_arith)
            requires
                product == collateral * price,
                (collateral > 0 && price > 0) || (collateral < 0 && price < 0),
        ;
        lemma_quotient_at_least(product, PRICE_SCALE as int, 0);
        lemma_quotient_at_least(value * 100, principal as int, 150);
    }
    // 100 value / p < 150 means 2 value < 3 p
    match valued {
        None => false,
        Some(value) => value < p + (p + 1) / 2,
    }
}

} // verus!
