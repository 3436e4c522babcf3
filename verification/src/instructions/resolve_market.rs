//! Resolving a market: the oracle names the outcome and takes its fee.

use vstd::prelude::*;
use crate::authority::{authority_label, authority_signer_seeds, owned_seeds, signer_seeds, SignedTransfer};
use crate::error::PredictionMarketError;
use crate::state::{Identity, Market, MarketStatus, MAX_ORACLE_DATA_LEN, OUTCOME_A, OUTCOME_B};
use crate::utils::{calculate_platform_fee, is_market_expired, lemma_platform_fee_bounded, platform_fee};

verus! {

/// The caller and the market it wants to resolve.
#[derive(Clone, Debug, PartialEq, Eq)]
pub struct ResolveMarket {
    /// The caller, who must be the market's oracle.
    pub oracle: Identity,
    pub market: Market,
}

/// How a market was resolved.
#[derive(Clone, Copy, Debug, PartialEq, Eq)]
pub struct MarketResolvedEvent {
    pub market: Identity,
    pub outcome: u8,
    /// The stake on the winning outcome.
    pub winning_pool: u64,
    /// The stake on the other outcome.
    pub losing_pool: u64,
    pub oracle_fee: u64,
    pub resolution_timestamp: i64,
}

impl ResolveMarket {
    /// What resolving to `outcome` at time `now` does: the records afterwards
    /// and the event, or the reason for the refusal.
    ///
    /// A resolution is refused, in this order, from anyone but the oracle,
    /// before the deadline, by a market that is resolved or otherwise not
    /// active, for an outcome that does not exist, for missing or oversized
    /// evidence, and where the fee cannot be formed.
    pub open spec fn resolution(self, outcome: u8, oracle_data: Vec<u8>, now: i64) -> Result<(ResolveMarket, MarketResolvedEvent), PredictionMarketError> {
        if self.oracle != self.market.oracle {
            Err(PredictionMarketError::InvalidOracle)
        } else if now < self.market.resolution_time {
            Err(PredictionMarketError::MarketNotExpired)
        } else if self.market.status == MarketStatus::Resolved {
            Err(PredictionMarketError::MarketAlreadyResolved)
        } else if self.market.status != MarketStatus::Active {
            Err(PredictionMarketError::MarketNotActive)
        } else if outcome != OUTCOME_A && outcome != OUTCOME_B {
            Err(PredictionMarketError::InvalidOutcome)
        } else if oracle_data@.len() == 0 || oracle_data@.len() > MAX_ORACLE_DATA_LEN {
            Err(PredictionMarketError::InvalidOracleData)
        } else if self.market.total_stake() > u64::MAX {
            Err(PredictionMarketError::MathOverflow)
        } else {
            match platform_fee(self.market.total_stake() as u64, self.market.oracle_fee_bps) {
                Err(_) => Err(PredictionMarketError::MathOverflow),
                Ok(fee) => if fee > self.market.total_stake() {
                    Err(PredictionMarketError::MathOverflow)
                } else {
                    Ok((
                        ResolveMarket {
                            oracle: self.oracle,
                            market: Market {
                                status: MarketStatus::Resolved,
                                winning_outcome: Some(outcome),
                                resolution_timestamp: now,
                                oracle_data,
                                total_payout_pool: (self.market.total_stake() - fee) as u64,
                                winning_pool: self.market.stake(outcome),
                                ..self.market
                            },
                        },
                        MarketResolvedEvent {
                            market: self.market.address,
                            outcome,
                            winning_pool: self.market.stake(outcome),
                            losing_pool: self.market.stake((1 - outcome) as u8),
                            oracle_fee: fee,
                            resolution_timestamp: now,
                        },
                    ))
                },
            }
        }
    }
}

/// Resolves the market to `outcome` at time `now`, with the oracle's
/// evidence.
///
/// On success the market is `Resolved`, the payout pool is what is staked
/// less the oracle fee, and the winning pool is the stake on `outcome`. The
/// transfer, present exactly when the fee is positive, orders the fee out of
/// the vault, signed with the vault authority's seeds. On refusal nothing
/// has changed.
pub fn resolve_market(ctx: &mut ResolveMarket, outcome: u8, oracle_data: Vec<u8>, now: i64) -> (result: Result<(MarketResolvedEvent, Option<SignedTransfer>), PredictionMarketError>)
    ensures
        match old(ctx).resolution(outcome, oracle_data, now) {
            Ok((after, event)) => {
                &&& *final(ctx) == after
                &&& result matches Ok((emitted, fee_transfer))
                &&& emitted == event
                &&& fee_transfer is Some <==> event.oracle_fee > 0
                &&& fee_transfer matches Some(transfer) ==> {
                    &&& transfer.amount == event.oracle_fee
                    &&& transfer.signer_seeds.deep_view() == signer_seeds(
                        owned_seeds(authority_label(), old(ctx).market.address@),
                        old(ctx).market.authority_bump,
                    )
                }
                &&& old(ctx).market.wf() ==> final(ctx).market.wf()
            },
            Err(reason) => result == Err::<(MarketResolvedEvent, Option<SignedTransfer>), PredictionMarketError>(reason) && *final(ctx) == *old(ctx),
        },
{
    if !(ctx.oracle == ctx.market.oracle) {
        return Err(PredictionMarketError::InvalidOracle);
    }
    if !is_market_expired(now, ctx.market.resolution_time) {
        return Err(PredictionMarketError::MarketNotExpired);
    }
    if ctx.market.status == MarketStatus::Resolved {
        return Err(PredictionMarketError::MarketAlreadyResolved);
    }
    if ctx.market.status != MarketStatus::Active {
        return Err(PredictionMarketError::MarketNotActive);
    }
    if outcome != OUTCOME_A && outcome != OUTCOME_B {
        return Err(PredictionMarketError::InvalidOutcome);
    }
    if oracle_data.len() == 0 || oracle_data.len() > MAX_ORACLE_DATA_LEN {
        return Err(PredictionMarketError::InvalidOracleData);
    }
    let total_pool = match ctx.market.stake_a.checked_add(ctx.market.stake_b) {
        Some(total) => total,
        None => { return Err(PredictionMarketError::MathOverflow); },
    };
    let oracle_fee = match calculate_platform_fee(total_pool, ctx.market.oracle_fee_bps) {
        Ok(fee) => fee,
        Err(_) => { return Err(PredictionMarketError::MathOverflow); },
    };
    let total_payout_pool = match total_pool.checked_sub(oracle_fee) {
        Some(rest) => rest,
        None => { return Err(PredictionMarketError::MathOverflow); },
    };
    let (winning_pool, losing_pool) = if outcome == OUTCOME_A {
        (ctx.market.stake_a, ctx.market.stake_b)
    } else {
        (ctx.market.stake_b, ctx.market.stake_a)
    };
    let fee_transfer = if oracle_fee > 0 {
        Some(SignedTransfer { amount: oracle_fee, signer_seeds: authority_signer_seeds(&ctx.market) })
    } else {
        None
    };
    ctx.market.status = MarketStatus::Resolved;
    ctx.market.winning_outcome = Some(outcome);
    ctx.market.resolution_timestamp = now;
    ctx.market.oracle_data = oracle_data;
    ctx.market.total_payout_pool = total_payout_pool;
    ctx.market.winning_pool = winning_pool;
    Ok((
        MarketResolvedEvent {
            market: ctx.market.address,
            outcome,
            winning_pool,
            losing_pool,
            oracle_fee,
            resolution_timestamp: now,
        },
        fee_transfer,
    ))
}

/// Resolution fixes the payout pool and the winning pool from the stakes and
/// leaves the stakes as they were; the oracle fee and the payout pool add up
/// to everything staked.
pub proof fn lemma_resolution_keeps_stakes(ctx: ResolveMarket, outcome: u8, oracle_data: Vec<u8>, now: i64)
    requires
        ctx.resolution(outcome, oracle_data, now) is Ok,
    ensures
        ({
            let (after, event) = ctx.resolution(outcome, oracle_data, now)->Ok_0;
            &&& after.market.stake_a == ctx.market.stake_a
            &&& after.market.stake_b == ctx.market.stake_b
            &&& after.market.total_payout_pool + event.oracle_fee == ctx.market.total_stake()
            &&& after.market.winning_pool == ctx.market.stake(outcome)
            &&& event.winning_pool + event.losing_pool == ctx.market.total_stake()
            &&& ctx.market.wf() ==> after.market.wf()
        }),
{
}

/// A well-formed active market is resolved whenever its oracle asks at or
/// after the deadline, for an outcome that exists, with evidence of one to
/// 256 bytes: the fee can always be formed, it is at most what is staked,
/// and the payout pool is the rest.
pub proof fn lemma_resolution_is_accepted(ctx: ResolveMarket, outcome: u8, oracle_data: Vec<u8>, now: i64)
    requires
        ctx.market.wf(),
        ctx.market.status == MarketStatus::Active,
        ctx.oracle == ctx.market.oracle,
        now >= ctx.market.resolution_time,
        outcome == OUTCOME_A || outcome == OUTCOME_B,
        0 < oracle_data@.len() <= MAX_ORACLE_DATA_LEN,
    ensures
        ctx.resolution(outcome, oracle_data, now) matches Ok((after, event)) && {
            &&& event.oracle_fee == (ctx.market.total_stake() * ctx.market.oracle_fee_bps) / 10000
            &&& after.market.total_payout_pool == ctx.market.total_stake() - event.oracle_fee
            &&& after.market.winning_pool == ctx.market.stake(outcome)
            &&& after.market.winning_outcome == Some(outcome)
            &&& after.market.status == MarketStatus::Resolved
            &&& after.market.resolution_timestamp == now
            &&& after.market.oracle_data == oracle_data
        },
{
    lemma_platform_fee_bounded(ctx.market.total_stake() as u64, ctx.market.oracle_fee_bps);
}

} // verus!
