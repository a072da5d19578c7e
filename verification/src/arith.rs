//! Exact integer arithmetic on 128-bit amounts.
//!
//! Amounts are signed 128-bit fixed-point integers. The formulas of the
//! ledger multiply before they divide, so an intermediate product may need
//! far more than 128 bits although the quotient fits. The functions here
//! compute such quotients exactly, without ever forming the wide product.

use vstd::prelude::*;
use vstd::arithmetic::div_mod::lemma_fundamental_div_mod;
use vstd::arithmetic::div_mod::lemma_fundamental_div_mod_converse;

verus! {

/// Division that rounds towards zero, as machine integers divide.
pub open spec fn trunc_div(a: int, d: int) -> int
    recommends
        d > 0,
{
    if a >= 0 {
        a / d
    } else {
        -((-a) / d)
    }
}

/// The absolute value of an integer.
pub open spec fn abs(x: int) -> int {
    if x >= 0 {
        x
    } else {
        -x
    }
}

/// The absolute value of `x`; unlike `i128`, `u128` can hold that of `i128::MIN`.
pub fn magnitude(x: i128) -> (m: u128)
    ensures
        m == abs(x as int),
{
    if x >= 0 {
        x as u128
    } else {
        let above: i128 = x + 1;
        let below: i128 = -above;
        below as u128 + 1
    }
}

/// The distance between `a` and `b`, which can be twice as wide as either.
pub fn distance(a: i128, b: i128) -> (d: u128)
    ensures
        d == abs(a - b),
{
    let (high, low) = if a >= b {
        (a, b)
    } else {
        (b, a)
    };
    if low >= 0 || high < 0 {
        (high - low) as u128
    } else {
        high as u128 + magnitude(low)
    }
}

/// A quotient reaches `k` exactly when the dividend reaches `k` times the divisor.
pub proof fn lemma_quotient_at_least(x: int, d: int, k: int)
    requires
        d > 0,
    ensures
        (x / d >= k) <==> (x >= k * d),
{
    lemma_fundamental_div_mod(x, d);
    assert((x / d >= k) <==> (x >= k * d)) by (nonlinear_arith)
        requires
            d > 0,
            x == d * (x / d) + x % d,
            0 <= x % d < d,
    ;
}

/// A multiple of `a` is divided by `d` by dividing `a` first: the quotient
/// of `a` is multiplied, and the multiple of its remainder is divided.
pub proof fn lemma_quotient_of_multiple(a: int, m: int, d: int)
    requires
        d > 0,
    ensures
        a * m / d == (a / d) * m + ((a % d) * m) / d,
{
    let q = a / d;
    let r = a % d;
    let s = r * m;
    lemma_fundamental_div_mod(a, d);
    lemma_fundamental_div_mod(s, d);
    assert(a * m == (q * m + s / d) * d + s % d) by (nonlinear_arith)
        requires
            a == d * q + r,
            s == r * m,
            s == d * (s / d) + s % d,
    ;
    lemma_fundamental_div_mod_converse(a * m, d, q * m + s / d, s % d);
}

/// The quotient of `a * b` by `d`, from the quotients and remainders of `a`
/// and of `b` by `d`.
proof fn lemma_product_split(a: int, b: int, d: int)
    requires
        d > 0,
    ensures
        a * b / d == (a / d) * b + (a % d) * (b / d) + ((a % d) * (b % d)) / d,
{
    let r = a % d;
    lemma_quotient_of_multiple(a, b, d);
    lemma_quotient_of_multiple(b, r, d);
    assert(r * b == b * r) by (nonlinear_arith);
    assert((b / d) * r == r * (b / d)) by (nonlinear_arith);
    assert((b % d) * r == r * (b % d)) by (nonlinear_arith);
}

/// `floor(a * b / d)`, or `None` where that quotient does not fit in 128
/// bits. The product itself may be as wide as 256 bits.
pub fn mul_div_floor(a: u128, b: u128, d: u64) -> (q: Option<u128>)
    requires
        d > 0,
    ensures
        q == (if a * b / (d as int) <= u128::MAX {
            Some((a * b / (d as int)) as u128)
        } else {
            None
        }),
{
    let wide: u128 = d as u128;
    let qa: u128 = a / wide;
    let ra: u128 = a % wide;
    let qb: u128 = b / wide;
    let rb: u128 = b % wide;
    proof {
        lemma_product_split(a as int, b as int, d as int);
        assert(ra * rb <= u128::MAX) by (nonlinear_arith)
            requires
                0 <= ra < 0x1_0000_0000_0000_0000,
                0 <= rb < 0x1_0000_0000_0000_0000,
        ;
        assert(qa * b >= 0 && ra * qb >= 0 && ra * rb >= 0) by (nonlinear_arith)
            requires
                qa >= 0,
                b >= 0,
                ra >= 0,
                qb >= 0,
                rb >= 0,
        ;
        assert((ra * rb) / (d as int) >= 0) by (nonlinear_arith)
            requires
                ra * rb >= 0,
                d > 0,
        ;
    }
    let low: u128 = (ra * rb) / wide;
    let high = match qa.checked_mul(b) {
        Some(v) => v,
        None => { return None; },
    };
    let mid = match ra.checked_mul(qb) {
        Some(v) => v,
        None => { return None; },
    };
    let upper = match high.checked_add(mid) {
        Some(v) => v,
        None => { return None; },
    };
    upper.checked_add(low)
}

} // verus!
