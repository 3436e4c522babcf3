//! Redeeming pool shares for a part of the pool's balance.

use vstd::prelude::*;
use crate::authority::{owned_seeds, pool_label, pool_signer_seeds, signer_seeds, SignedTransfer};
use crate::error::PredictionMarketError;
use crate::state::{Identity, LiquidityPool, Market, MarketStatus, UserPosition};
use crate::instructions::add_liquidity::AddLiquidity;
use crate::utils::{checked_mul_div, lemma_quotient_bounded, mul_div_floor, BPS_DENOMINATOR};

verus! {

/// The records a withdrawal touches, and the pool's balance as the ledger
/// reports it.
#[derive(Clone, Debug, PartialEq, Eq)]
pub struct RemoveLiquidity {
    /// The provider who withdraws.
    pub user: Identity,
    pub market: Market,
    pub pool: LiquidityPool,
    pub user_position: UserPosition,
    /// What the pool's account holds before the withdrawal.
    pub pool_balance: u64,
}

/// What a withdrawal did.
#[derive(Clone, Copy, Debug, PartialEq, Eq)]
pub struct LiquidityRemovedEvent {
    pub user: Identity,
    pub market: Identity,
    /// The shares redeemed.
    pub liquidity_amount: u64,
    /// What the provider receives, after the fee.
    pub withdrawal_amount: u64,
    pub fee_amount: u64,
    pub timestamp: i64,
}

/// What `shares` redeem to before the fee: their proportion of the pool's
/// balance, rounded down.
pub open spec fn gross_withdrawal(shares: u64, pool_balance: u64, supply: u64) -> Option<u64> {
    checked_mul_div(shares, pool_balance, supply)
}

/// The fee on a withdrawal, rounded down.
pub open spec fn withdrawal_fee(gross: u64, fee_rate: u16) -> Option<u64> {
    checked_mul_div(gross, fee_rate as u64, BPS_DENOMINATOR)
}

impl RemoveLiquidity {
    /// What redeeming `liquidity_amount` shares at time `now` does: the
    /// records afterwards and the event, or the reason for the refusal.
    ///
    /// A withdrawal is refused, in this order, by a market that is not
    /// active, for a position of another provider, for no shares, for more
    /// shares than the provider holds, by a pool without liquidity, where
    /// what the shares redeem to does not fit in 64 bits, is nothing, or is
    /// more than the pool holds, and where the fee or a new total would not
    /// fit in 64 bits or fall below zero.
    pub open spec fn withdrawal(self, liquidity_amount: u64, now: i64) -> Result<(RemoveLiquidity, LiquidityRemovedEvent), PredictionMarketError> {
        if self.market.status != MarketStatus::Active {
            Err(PredictionMarketError::MarketNotActive)
        } else if self.user_position.user != self.user {
            Err(PredictionMarketError::InvalidUser)
        } else if liquidity_amount == 0 {
            Err(PredictionMarketError::InvalidAmount)
        } else if self.user_position.liquidity_provided < liquidity_amount {
            Err(PredictionMarketError::InsufficientLiquidity)
        } else if self.pool.total_supply == 0 || self.market.total_liquidity == 0 {
            Err(PredictionMarketError::NoLiquidityInPool)
        } else {
            match gross_withdrawal(liquidity_amount, self.pool_balance, self.pool.total_supply) {
                None => Err(PredictionMarketError::MathOverflow),
                Some(gross) => if gross == 0 {
                    Err(PredictionMarketError::InvalidWithdrawalAmount)
                } else if self.pool_balance < gross {
                    Err(PredictionMarketError::InsufficientPoolBalance)
                } else {
                    match withdrawal_fee(gross, self.pool.withdrawal_fee_rate) {
                        None => Err(PredictionMarketError::MathOverflow),
                        Some(fee) => {
                            let net = gross - fee;
                            if net < 0
                                || self.user_position.total_withdrawn + net > u64::MAX
                                || self.pool.total_supply < liquidity_amount
                                || self.pool.fee_collected + fee > u64::MAX
                                || self.market.total_liquidity < liquidity_amount {
                                Err(PredictionMarketError::MathOverflow)
                            } else {
                                Ok((
                                    RemoveLiquidity {
                                        user: self.user,
                                        market: Market {
                                            total_liquidity: (self.market.total_liquidity - liquidity_amount) as u64,
                                            ..self.market
                                        },
                                        pool: LiquidityPool {
                                            total_supply: (self.pool.total_supply - liquidity_amount) as u64,
                                            fee_collected: (self.pool.fee_collected + fee) as u64,
                                            ..self.pool
                                        },
                                        user_position: UserPosition {
                                            liquidity_provided: (self.user_position.liquidity_provided - liquidity_amount) as u64,
                                            total_withdrawn: (self.user_position.total_withdrawn + net) as u64,
                                            last_update_time: now,
                                            ..self.user_position
                                        },
                                        pool_balance: self.pool_balance,
                                    },
                                    LiquidityRemovedEvent {
                                        user: self.user,
                                        market: self.market.address,
                                        liquidity_amount,
                                        withdrawal_amount: net as u64,
                                        fee_amount: fee,
                                        timestamp: now,
                                    },
                                ))
                            }
                        },
                    }
                },
            }
        }
    }
}

/// Redeems `liquidity_amount` of the caller's shares at time `now`.
///
/// On success the caller's shares, the share supply and the market's
/// liquidity counter have gone down by `liquidity_amount`, the fee has been
/// added to the pool's collected fees, and the transfer orders the net
/// amount out of the pool, signed with the pool's seeds. On refusal nothing
/// has changed.
pub fn remove_liquidity(ctx: &mut RemoveLiquidity, liquidity_amount: u64, now: i64) -> (result: Result<(LiquidityRemovedEvent, SignedTransfer), PredictionMarketError>)
    ensures
        match old(ctx).withdrawal(liquidity_amount, now) {
            Ok((after, event)) => {
                &&& *final(ctx) == after
                &&& result matches Ok((emitted, transfer))
                &&& emitted == event
                &&& transfer.amount == event.withdrawal_amount
                &&& old(ctx).market.wf() ==> final(ctx).market.wf()
                &&& transfer.signer_seeds.deep_view() == signer_seeds(
                    owned_seeds(pool_label(), old(ctx).pool.market@),
                    old(ctx).pool.bump,
                )
            },
            Err(reason) => result == Err::<(LiquidityRemovedEvent, SignedTransfer), PredictionMarketError>(reason) && *final(ctx) == *old(ctx),
        },
{
    if ctx.market.status != MarketStatus::Active {
        return Err(PredictionMarketError::MarketNotActive);
    }
    if !(ctx.user_position.user == ctx.user) {
        return Err(PredictionMarketError::InvalidUser);
    }
    if liquidity_amount == 0 {
        return Err(PredictionMarketError::InvalidAmount);
    }
    if ctx.user_position.liquidity_provided < liquidity_amount {
        return Err(PredictionMarketError::InsufficientLiquidity);
    }
    if ctx.pool.total_supply == 0 || ctx.market.total_liquidity == 0 {
        return Err(PredictionMarketError::NoLiquidityInPool);
    }
    let gross = match mul_div_floor(liquidity_amount, ctx.pool_balance, ctx.pool.total_supply) {
        Some(gross) => gross,
        None => { return Err(PredictionMarketError::MathOverflow); },
    };
    if gross == 0 {
        return Err(PredictionMarketError::InvalidWithdrawalAmount);
    }
    if ctx.pool_balance < gross {
        return Err(PredictionMarketError::InsufficientPoolBalance);
    }
    let fee = match mul_div_floor(gross, ctx.pool.withdrawal_fee_rate as u64, BPS_DENOMINATOR) {
        Some(fee) => fee,
        None => { return Err(PredictionMarketError::MathOverflow); },
    };
    let net = gross.checked_sub(fee);
    let total_supply = ctx.pool.total_supply.checked_sub(liquidity_amount);
    let fee_collected = ctx.pool.fee_collected.checked_add(fee);
    let total_liquidity = ctx.market.total_liquidity.checked_sub(liquidity_amount);
    match (net, total_supply, fee_collected, total_liquidity) {
        (Some(net), Some(total_supply), Some(fee_collected), Some(total_liquidity)) => {
            let total_withdrawn = match ctx.user_position.total_withdrawn.checked_add(net) {
                Some(total) => total,
                None => { return Err(PredictionMarketError::MathOverflow); },
            };
            let signing = pool_signer_seeds(&ctx.pool);
            ctx.user_position.liquidity_provided = ctx.user_position.liquidity_provided - liquidity_amount;
            ctx.user_position.total_withdrawn = total_withdrawn;
            ctx.user_position.last_update_time = now;
            ctx.pool.total_supply = total_supply;
            ctx.pool.fee_collected = fee_collected;
            ctx.market.total_liquidity = total_liquidity;
            Ok((
                LiquidityRemovedEvent {
                    user: ctx.user,
                    market: ctx.market.address,
                    liquidity_amount,
                    withdrawal_amount: net,
                    fee_amount: fee,
                    timestamp: now,
                },
                SignedTransfer { amount: net, signer_seeds: signing },
            ))
        },
        _ => Err(PredictionMarketError::MathOverflow),
    }
}

/// Depositing and at once redeeming the shares that the deposit minted
/// returns no more than was deposited, fee included, in a pool whose balance
/// is backed by its recorded liquidity: `balance_before`, what the pool's
/// account held before the deposit, is at most the market's liquidity
/// counter, and is nothing while no shares are outstanding.
pub proof fn lemma_round_trip_returns_no_more(
    add: AddLiquidity,
    amount: u64,
    now: i64,
    balance_before: u64,
    later: i64,
)
    requires
        add.deposit(amount, now) is Ok,
        balance_before <= add.market.total_liquidity,
        add.pool.total_supply == 0 ==> balance_before == 0,
        balance_before + amount <= u64::MAX,
    ensures
        ({
            let (after, event) = add.deposit(amount, now)->Ok_0;
            let redeem = RemoveLiquidity {
                user: add.user,
                market: after.market,
                pool: after.pool,
                user_position: after.liquidity_provider->Some_0,
                pool_balance: (balance_before + amount) as u64,
            };
            redeem.withdrawal(event.lp_tokens_minted, later) matches Ok((_, removed))
                ==> removed.withdrawal_amount + removed.fee_amount <= amount
        }),
{
    let (after, event) = add.deposit(amount, now)->Ok_0;
    let minted = event.lp_tokens_minted as int;
    let supply = add.pool.total_supply as int;
    let liquidity = add.market.total_liquidity as int;
    let balance = balance_before + amount;
    let redeem = RemoveLiquidity {
        user: add.user,
        market: after.market,
        pool: after.pool,
        user_position: after.liquidity_provider->Some_0,
        pool_balance: balance as u64,
    };
    if redeem.withdrawal(event.lp_tokens_minted, later) is Ok {
        assert(minted * balance <= amount * (supply + minted)) by {
            if supply == 0 {
                assert(minted == amount);
                assert(balance == amount);
            } else {
                assert(liquidity > 0);
                assert(minted == (amount * supply) / liquidity);
                assert(minted * liquidity <= amount * supply) by {
                    vstd::arithmetic::div_mod::lemma_fundamental_div_mod(amount * supply, liquidity);
                    assert(liquidity * minted == minted * liquidity) by (nonlinear_arith);
                    assert(0 <= (amount * supply) % liquidity) by {
                        vstd::arithmetic::div_mod::lemma_mod_pos_bound(amount * supply, liquidity);
                    }
                }
                assert(minted * balance <= minted * liquidity + minted * amount) by (nonlinear_arith)
                    requires
                        0 <= minted,
                        balance <= liquidity + amount,
                ;
                assert(amount * (supply + minted) == amount * supply + minted * amount) by (nonlinear_arith);
            }
        }
        assert(0 <= minted * balance) by (nonlinear_arith)
            requires
                0 <= minted,
                0 <= balance,
        ;
        assert(after.pool.total_supply == supply + minted);
        assert(supply + minted > 0);
        lemma_quotient_bounded(minted * balance, amount as int, supply + minted);
    }
}

/// No withdrawal moves the stakes of the bettors.
pub proof fn lemma_withdrawal_keeps_stakes(ctx: RemoveLiquidity, liquidity_amount: u64, now: i64)
    requires
        ctx.withdrawal(liquidity_amount, now) is Ok,
    ensures
        ctx.withdrawal(liquidity_amount, now)->Ok_0.0.market.stake_a == ctx.market.stake_a,
        ctx.withdrawal(liquidity_amount, now)->Ok_0.0.market.stake_b == ctx.market.stake_b,
        ctx.market.wf() ==> ctx.withdrawal(liquidity_amount, now)->Ok_0.0.market.wf(),
{
}

/// A market that is not active gives up no liquidity: whatever else holds of
/// the request, it is refused with `MarketNotActive`.
pub proof fn lemma_inactive_market_keeps_liquidity(ctx: RemoveLiquidity, liquidity_amount: u64, now: i64)
    requires
        ctx.market.status != MarketStatus::Active,
    ensures
        ctx.withdrawal(liquidity_amount, now) == Err::<(RemoveLiquidity, LiquidityRemovedEvent), PredictionMarketError>(
            PredictionMarketError::MarketNotActive,
        ),
{
}

} // verus!
