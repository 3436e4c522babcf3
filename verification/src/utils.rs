//! Checked integer arithmetic and basis-point ratios shared by every operation.
//!
//! Nothing here wraps or truncates: a product of two 64-bit quantities is
//! formed in 128 bits, divided with floor division, and narrowed only when the
//! quotient fits.

use vstd::prelude::*;

verus! {

/// Denominator of every basis-point ratio.
pub const BPS_DENOMINATOR: u64 = 10000;

/// Why a calculation or a validation in this module failed.
#[derive(Clone, Copy, Debug, PartialEq, Eq, Structural)]
pub enum ErrorCode {
    MathOverflow,
    DivisionByZero,
    StalePrice,
    InvalidPriceConfidence,
    MarketDurationTooShort,
    MarketDurationTooLong,
}

/// Where a market stands relative to its deadline and its resolution.
#[derive(Clone, Copy, Debug, PartialEq, Eq, Structural)]
pub enum MarketStatus {
    Active,
    Expired,
    Resolved,
}

/// A price reported by a feed.
#[derive(Clone, Copy, Debug, PartialEq, Eq, Structural)]
pub struct PriceData {
    pub price: u64,
    pub confidence: u64,
    pub timestamp: i64,
}

/// `floor(a * b / d)` over the integers.
pub open spec fn mul_div(a: int, b: int, d: int) -> int {
    (a * b) / d
}

/// What `mul_div_floor` returns: the quotient where the divisor is non-zero
/// and the quotient fits in 64 bits.
pub open spec fn checked_mul_div(a: u64, b: u64, d: u64) -> Option<u64> {
    if d != 0 && mul_div(a as int, b as int, d as int) <= u64::MAX {
        Some(mul_div(a as int, b as int, d as int) as u64)
    } else {
        None
    }
}

/// The product of two 64-bit quantities fits in 128 bits.
pub proof fn lemma_product_fits(a: u64, b: u64)
    ensures
        0 <= a * b <= u128::MAX,
{
    assert(0 <= a * b <= 0xffff_ffff_ffff_ffff * 0xffff_ffff_ffff_ffff) by (nonlinear_arith)
        requires
            0 <= a <= 0xffff_ffff_ffff_ffff,
            0 <= b <= 0xffff_ffff_ffff_ffff,
    ;
}

/// A share of `b` taken in proportion `a / d` never exceeds `b` while
/// `a <= d`.
pub proof fn lemma_mul_div_bounded(a: int, b: int, d: int)
    requires
        0 <= a <= d,
        0 <= b,
        0 < d,
    ensures
        0 <= mul_div(a, b, d) <= b,
{
    assert(0 <= a * b <= d * b) by (nonlinear_arith)
        requires
            0 <= a <= d,
            0 <= b,
    ;
    assert((a * b) / d <= (d * b) / d) by {
        vstd::arithmetic::div_mod::lemma_div_is_ordered(a * b, d * b, d);
    }
    assert((d * b) / d == b) by {
        vstd::arithmetic::div_mod::lemma_div_multiples_vanish(b, d);
        assert(d * b == b * d) by (nonlinear_arith);
    }
    assert(0 <= (a * b) / d) by {
        vstd::arithmetic::div_mod::lemma_div_pos_is_pos(a * b, d);
    }
}

/// A quotient is bounded by what bounds the dividend: `x <= q * d` gives
/// `x / d <= q`.
pub proof fn lemma_quotient_bounded(x: int, q: int, d: int)
    requires
        0 <= x <= q * d,
        0 < d,
    ensures
        x / d <= q,
{
    vstd::arithmetic::div_mod::lemma_div_is_ordered(x, q * d, d);
    vstd::arithmetic::div_mod::lemma_div_multiples_vanish(q, d);
    assert(q * d == d * q) by (nonlinear_arith);
}

/// `floor(a * b / d)`, computed in 128 bits; `None` where `d` is zero or the
/// quotient does not fit in 64 bits.
pub fn mul_div_floor(a: u64, b: u64, d: u64) -> (q: Option<u64>)
    ensures
        q == checked_mul_div(a, b, d),
{
    if d == 0 {
        return None;
    }
    proof {
        lemma_product_fits(a, b);
    }
    let product: u128 = (a as u128) * (b as u128);
    let quotient: u128 = product / (d as u128);
    if quotient > u64::MAX as u128 {
        None
    } else {
        Some(quotient as u64)
    }
}

/// The payout per staked unit, in basis points: the whole pool over the
/// winning side's stake. Zero where the pool or the winning side is empty.
pub open spec fn payout_ratio(total_yes_amount: u64, total_no_amount: u64, winning_side: bool) -> Result<u64, ErrorCode> {
    let total = total_yes_amount + total_no_amount;
    let winning = if winning_side { total_yes_amount } else { total_no_amount };
    if total > u64::MAX {
        Err(ErrorCode::MathOverflow)
    } else if total == 0 || winning == 0 {
        Ok(0)
    } else if mul_div(total, BPS_DENOMINATOR as int, winning as int) > u64::MAX {
        Err(ErrorCode::MathOverflow)
    } else {
        Ok(mul_div(total, BPS_DENOMINATOR as int, winning as int) as u64)
    }
}

pub fn calculate_payout_ratio(total_yes_amount: u64, total_no_amount: u64, winning_side: bool) -> (ratio: Result<u64, ErrorCode>)
    ensures
        ratio == payout_ratio(total_yes_amount, total_no_amount, winning_side),
{
    let total_pool = match total_yes_amount.checked_add(total_no_amount) {
        Some(total) => total,
        None => { return Err(ErrorCode::MathOverflow); },
    };
    if total_pool == 0 {
        return Ok(0);
    }
    let winning_amount = if winning_side { total_yes_amount } else { total_no_amount };
    if winning_amount == 0 {
        return Ok(0);
    }
    match mul_div_floor(total_pool, BPS_DENOMINATOR, winning_amount) {
        Some(ratio) => Ok(ratio),
        None => Err(ErrorCode::MathOverflow),
    }
}

/// A stake multiplied by a basis-point payout ratio.
pub open spec fn user_payout(user_bet_amount: u64, payout_ratio: u64) -> Result<u64, ErrorCode> {
    match checked_mul_div(user_bet_amount, payout_ratio, BPS_DENOMINATOR) {
        Some(payout) => Ok(payout),
        None => Err(ErrorCode::MathOverflow),
    }
}

pub fn calculate_user_payout(user_bet_amount: u64, payout_ratio: u64) -> (payout: Result<u64, ErrorCode>)
    ensures
        payout == user_payout(user_bet_amount, payout_ratio),
{
    match mul_div_floor(user_bet_amount, payout_ratio, BPS_DENOMINATOR) {
        Some(payout) => Ok(payout),
        None => Err(ErrorCode::MathOverflow),
    }
}

/// The fee on `total_amount` at `fee_basis_points`, rounded down.
pub open spec fn platform_fee(total_amount: u64, fee_basis_points: u16) -> Result<u64, ErrorCode> {
    match checked_mul_div(total_amount, fee_basis_points as u64, BPS_DENOMINATOR) {
        Some(fee) => Ok(fee),
        None => Err(ErrorCode::MathOverflow),
    }
}

pub fn calculate_platform_fee(total_amount: u64, fee_basis_points: u16) -> (fee: Result<u64, ErrorCode>)
    ensures
        fee == platform_fee(total_amount, fee_basis_points),
{
    match mul_div_floor(total_amount, fee_basis_points as u64, BPS_DENOMINATOR) {
        Some(fee) => Ok(fee),
        None => Err(ErrorCode::MathOverflow),
    }
}

/// A fee at a rate of at most 100% never exceeds the amount it is taken from.
pub proof fn lemma_platform_fee_bounded(total_amount: u64, fee_basis_points: u16)
    requires
        fee_basis_points <= BPS_DENOMINATOR,
    ensures
        platform_fee(total_amount, fee_basis_points) is Ok,
        platform_fee(total_amount, fee_basis_points)->Ok_0 <= total_amount,
{
    lemma_mul_div_bounded(fee_basis_points as int, total_amount as int, BPS_DENOMINATOR as int);
    assert(total_amount * fee_basis_points == fee_basis_points * total_amount) by (nonlinear_arith);
}

/// Whether a market's deadline has been reached.
pub fn is_market_expired(current_timestamp: i64, expiry_timestamp: i64) -> (expired: bool)
    ensures
        expired == (current_timestamp >= expiry_timestamp),
{
    current_timestamp >= expiry_timestamp
}

/// Whether a resolution time has been recorded.
pub fn is_market_resolved(resolution_timestamp: i64) -> (resolved: bool)
    ensures
        resolved == (resolution_timestamp > 0),
{
    resolution_timestamp > 0
}

/// A price is usable while it is no older than `max_staleness` and carries a
/// confidence.
pub open spec fn price_data_verdict(price_data: PriceData, max_staleness: i64, current_timestamp: i64) -> Result<(), ErrorCode> {
    let age = current_timestamp - price_data.timestamp;
    if age < i64::MIN || age > i64::MAX {
        Err(ErrorCode::MathOverflow)
    } else if age > max_staleness {
        Err(ErrorCode::StalePrice)
    } else if price_data.confidence == 0 {
        Err(ErrorCode::InvalidPriceConfidence)
    } else {
        Ok(())
    }
}

pub fn validate_price_data(price_data: &PriceData, max_staleness: i64, current_timestamp: i64) -> (verdict: Result<(), ErrorCode>)
    ensures
        verdict == price_data_verdict(*price_data, max_staleness, current_timestamp),
{
    let age = match current_timestamp.checked_sub(price_data.timestamp) {
        Some(age) => age,
        None => { return Err(ErrorCode::MathOverflow); },
    };
    if age > max_staleness {
        return Err(ErrorCode::StalePrice);
    }
    if price_data.confidence == 0 {
        return Err(ErrorCode::InvalidPriceConfidence);
    }
    Ok(())
}

/// The larger of the base minimum and a thousandth of the market's liquidity.
pub fn calculate_minimum_bet_amount(base_minimum: u64, market_liquidity: u64) -> (minimum: u64)
    ensures
        minimum >= base_minimum,
        minimum >= market_liquidity / 1000,
        minimum == base_minimum || minimum == market_liquidity / 1000,
{
    let dynamic_minimum = market_liquidity / 1000;
    if base_minimum >= dynamic_minimum {
        base_minimum
    } else {
        dynamic_minimum
    }
}

/// The implied odds of the two sides in basis points; an empty market stands
/// at even odds.
pub open spec fn market_odds(yes_amount: u64, no_amount: u64) -> Result<(u64, u64), ErrorCode> {
    let total = yes_amount + no_amount;
    if total > u64::MAX {
        Err(ErrorCode::MathOverflow)
    } else if total == 0 {
        Ok((5000, 5000))
    } else {
        let yes_odds = mul_div(yes_amount as int, BPS_DENOMINATOR as int, total);
        Ok((yes_odds as u64, (BPS_DENOMINATOR - yes_odds) as u64))
    }
}

/// The odds of a non-empty market are two basis-point shares of one whole.
pub proof fn lemma_market_odds_sum(yes_amount: u64, no_amount: u64)
    requires
        0 < yes_amount + no_amount <= u64::MAX,
    ensures
        0 <= mul_div(yes_amount as int, BPS_DENOMINATOR as int, yes_amount + no_amount) <= BPS_DENOMINATOR,
        market_odds(yes_amount, no_amount) matches Ok(odds) && odds.0 + odds.1 == BPS_DENOMINATOR,
{
    lemma_mul_div_bounded(yes_amount as int, BPS_DENOMINATOR as int, yes_amount + no_amount);
}

pub fn calculate_market_odds(yes_amount: u64, no_amount: u64) -> (odds: Result<(u64, u64), ErrorCode>)
    ensures
        odds == market_odds(yes_amount, no_amount),
{
    let total = match yes_amount.checked_add(no_amount) {
        Some(total) => total,
        None => { return Err(ErrorCode::MathOverflow); },
    };
    if total == 0 {
        return Ok((5000, 5000));
    }
    proof {
        lemma_market_odds_sum(yes_amount, no_amount);
    }
    match mul_div_floor(yes_amount, BPS_DENOMINATOR, total) {
        Some(yes_odds) => Ok((yes_odds, BPS_DENOMINATOR - yes_odds)),
        None => Err(ErrorCode::MathOverflow),
    }
}

/// A market's duration must lie between the two bounds.
pub open spec fn market_parameters_verdict(expiry_timestamp: i64, current_timestamp: i64, minimum_duration: i64, maximum_duration: i64) -> Result<(), ErrorCode> {
    let duration = expiry_timestamp - current_timestamp;
    if duration < i64::MIN || duration > i64::MAX {
        Err(ErrorCode::MathOverflow)
    } else if duration < minimum_duration {
        Err(ErrorCode::MarketDurationTooShort)
    } else if duration > maximum_duration {
        Err(ErrorCode::MarketDurationTooLong)
    } else {
        Ok(())
    }
}

pub fn validate_market_parameters(expiry_timestamp: i64, current_timestamp: i64, minimum_duration: i64, maximum_duration: i64) -> (verdict: Result<(), ErrorCode>)
    ensures
        verdict == market_parameters_verdict(expiry_timestamp, current_timestamp, minimum_duration, maximum_duration),
{
    let duration = match expiry_timestamp.checked_sub(current_timestamp) {
        Some(duration) => duration,
        None => { return Err(ErrorCode::MathOverflow); },
    };
    if duration < minimum_duration {
        return Err(ErrorCode::MarketDurationTooShort);
    }
    if duration > maximum_duration {
        return Err(ErrorCode::MarketDurationTooLong);
    }
    Ok(())
}

/// Resolution takes precedence over expiry, and expiry over activity.
pub fn get_market_status(current_timestamp: i64, expiry_timestamp: i64, resolution_timestamp: i64) -> (status: MarketStatus)
    ensures
        status == if resolution_timestamp > 0 {
            MarketStatus::Resolved
        } else if current_timestamp >= expiry_timestamp {
            MarketStatus::Expired
        } else {
            MarketStatus::Active
        },
{
    if is_market_resolved(resolution_timestamp) {
        MarketStatus::Resolved
    } else if is_market_expired(current_timestamp, expiry_timestamp) {
        MarketStatus::Expired
    } else {
        MarketStatus::Active
    }
}

} // verus!
