//! Token amounts, rates and fees as mathematical integers, and their
//! computation in `i128`.

use vstd::arithmetic::power::{lemma_pow_increases, pow};
use vstd::prelude::*;

verus! {

/// Basis points that make up a whole: 10000 bps = 100%.
pub const BPS_DENOMINATOR: i128 = 10_000;

/// Whether an integer can be held as a token amount.
pub open spec fn fits_i128(x: int) -> bool {
    i128::MIN <= x <= i128::MAX
}

/// Quotient of `a` by a positive `b`, rounded toward zero.
pub open spec fn trunc_div(a: int, b: int) -> int {
    if a >= 0 {
        a / b
    } else {
        -((-a) / b)
    }
}

/// The number closest to `x` that an `i32` holds.
pub open spec fn clamp_i32(x: int) -> int {
    if x < i32::MIN {
        i32::MIN as int
    } else if x > i32::MAX {
        i32::MAX as int
    } else {
        x
    }
}

/// `fee_bps` basis points of `amount`, rounded toward zero.
pub open spec fn fee_on(amount: int, fee_bps: int) -> int {
    trunc_div(amount * fee_bps, 10_000)
}

/// What is left of `amount_out` once `slippage_bps` basis points of it are
/// given up, rounded toward zero.
pub open spec fn min_out_after(amount_out: int, slippage_bps: int) -> int {
    trunc_div(amount_out * (10_000 - slippage_bps), 10_000)
}

/// Units of token_out per unit of token_in, as a fixed-point number with
/// `precision` decimal places, rounded toward zero.
pub open spec fn rate_of(amount_in: int, amount_out: int, precision: nat) -> int {
    trunc_div(amount_out * pow(10, precision), amount_in)
}

/// What `amount_out` exceeds `amount_in` by, in basis points of `amount_in`,
/// rounded toward zero.
pub open spec fn impact_of(amount_in: int, amount_out: int) -> int {
    trunc_div((amount_out - amount_in) * 10_000, amount_in)
}

/// Powers of ten up to 10^38 are token amounts.
pub proof fn lemma_pow10_fits(exp: nat)
    requires
        exp <= 38,
    ensures
        1 <= pow(10, exp) <= i128::MAX,
{
    reveal_with_fuel(pow, 39);
    lemma_pow_increases(10, 0, exp);
    lemma_pow_increases(10, exp, 38);
}

/// `a` divided by a positive `b`, rounded toward zero.
fn divide(a: i128, b: i128) -> (r: i128)
    requires
        b > 0,
    ensures
        r == trunc_div(a as int, b as int),
{
    a / b
}

/// The fee of `fee_bps` basis points on `amount`; `None` when the product of
/// the two leaves the range of `i128`.
pub fn fee_amount(amount: i128, fee_bps: u32) -> (r: Option<i128>)
    ensures
        r is Some <==> fits_i128(amount * fee_bps),
        r matches Some(fee) ==> fee == fee_on(amount as int, fee_bps as int),
{
    match amount.checked_mul(fee_bps as i128) {
        Some(product) => Some(divide(product, BPS_DENOMINATOR)),
        None => None,
    }
}

/// The least output to accept under a tolerance of `slippage_bps` basis
/// points; `None` when a product on the way leaves the range of `i128`.
pub fn min_amount_out(amount_out: i128, slippage_bps: u32) -> (r: Option<i128>)
    ensures
        r is Some <==> fits_i128(amount_out * (10_000 - slippage_bps)),
        r matches Some(least) ==> least == min_out_after(amount_out as int, slippage_bps as int),
{
    match amount_out.checked_mul(BPS_DENOMINATOR - slippage_bps as i128) {
        Some(product) => Some(divide(product, BPS_DENOMINATOR)),
        None => None,
    }
}

/// The exchange rate with `scale` as the fixed-point unit; `None` when the
/// scaled output leaves the range of `i128`.
pub fn exchange_rate(amount_in: i128, amount_out: i128, scale: i128) -> (r: Option<i128>)
    requires
        amount_in > 0,
    ensures
        r is Some <==> fits_i128(amount_out * scale),
        r matches Some(rate) ==> rate == trunc_div(amount_out * scale, amount_in as int),
{
    match amount_out.checked_mul(scale) {
        Some(scaled) => Some(divide(scaled, amount_in)),
        None => None,
    }
}

/// The price impact in basis points, or the bound of `i32` that it is beyond;
/// `None` when an amount on the way leaves the range of `i128`.
pub fn price_impact_bps(amount_in: i128, amount_out: i128) -> (r: Option<i32>)
    requires
        amount_in > 0,
    ensures
        r is Some <==> fits_i128(amount_out - amount_in) && fits_i128(
            (amount_out - amount_in) * 10_000,
        ),
        r matches Some(impact) ==> impact == clamp_i32(
            impact_of(amount_in as int, amount_out as int),
        ),
{
    let gain = match amount_out.checked_sub(amount_in) {
        Some(gain) => gain,
        None => {
            return None;
        },
    };
    match gain.checked_mul(BPS_DENOMINATOR) {
        Some(product) => {
            let impact: i128 = divide(product, amount_in);
            if impact < i32::MIN as i128 {
                Some(i32::MIN)
            } else if impact > i32::MAX as i128 {
                Some(i32::MAX)
            } else {
                Some(impact as i32)
            }
        },
        None => None,
    }
}

} // verus!
