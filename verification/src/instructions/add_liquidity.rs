//! Depositing liquidity into a market's pool.

use vstd::prelude::*;
use crate::error::PredictionMarketError;
use crate::state::{Identity, LiquidityPool, Market, MarketStatus, UserPosition};
use crate::utils::{checked_mul_div, lemma_mul_div_bounded, mul_div, mul_div_floor};

verus! {

/// The records a deposit touches.
#[derive(Clone, Debug, PartialEq, Eq)]
pub struct AddLiquidity {
    /// The depositor.
    pub user: Identity,
    pub market: Market,
    pub pool: LiquidityPool,
    /// The depositor's liquidity position, absent before the first deposit.
    pub liquidity_provider: Option<UserPosition>,
}

/// What a deposit did: how it was split over the reserves and what was minted.
#[derive(Clone, Copy, Debug, PartialEq, Eq)]
pub struct LiquidityAddedEvent {
    pub market: Identity,
    pub user: Identity,
    pub amount: u64,
    pub amount_a: u64,
    pub amount_b: u64,
    pub lp_tokens_minted: u64,
    pub timestamp: i64,
}

/// The part of a deposit that goes to reserve A. An empty pool is seeded in
/// halves, rounding toward B; otherwise the deposit follows the ratio of the
/// reserves, so that it does not move the implied price.
pub open spec fn deposit_to_a(amount: u64, reserve_a: u64, reserve_b: u64) -> int {
    if reserve_a + reserve_b == 0 {
        (amount / 2) as int
    } else {
        mul_div(amount as int, reserve_a as int, reserve_a + reserve_b)
    }
}

/// The part of a deposit that goes to reserve B: whatever A did not take.
pub open spec fn deposit_to_b(amount: u64, reserve_a: u64, reserve_b: u64) -> int {
    amount - deposit_to_a(amount, reserve_a, reserve_b)
}

/// The shares issued for a deposit: one per unit while none are outstanding,
/// else in proportion to the liquidity already recorded. `None` where that
/// proportion cannot be formed.
pub open spec fn shares_minted(amount: u64, supply: u64, liquidity: u64) -> Option<u64> {
    if supply == 0 {
        Some(amount)
    } else {
        checked_mul_div(amount, supply, liquidity)
    }
}

/// Both parts of a deposit are non-negative and add up to the deposit.
pub proof fn lemma_deposit_split(amount: u64, reserve_a: u64, reserve_b: u64)
    ensures
        0 <= deposit_to_a(amount, reserve_a, reserve_b) <= amount,
        0 <= deposit_to_b(amount, reserve_a, reserve_b) <= amount,
        deposit_to_a(amount, reserve_a, reserve_b) + deposit_to_b(amount, reserve_a, reserve_b) == amount,
{
    if reserve_a + reserve_b != 0 {
        lemma_mul_div_bounded(reserve_a as int, amount as int, reserve_a + reserve_b);
        assert(amount * reserve_a == reserve_a * amount) by (nonlinear_arith);
    }
}

impl AddLiquidity {
    /// The shares and the deposits that the depositor has on record.
    pub open spec fn held(self) -> (u64, u64) {
        match self.liquidity_provider {
            Some(position) => (position.liquidity_provided, position.total_deposited),
            None => (0, 0),
        }
    }

    /// The depositor's position after `minted` shares were issued for `amount`.
    pub open spec fn position_after(self, amount: u64, minted: u64, now: i64) -> UserPosition {
        match self.liquidity_provider {
            Some(position) => UserPosition {
                liquidity_provided: (position.liquidity_provided + minted) as u64,
                total_deposited: (position.total_deposited + amount) as u64,
                last_update_time: now,
                ..position
            },
            None => UserPosition {
                user: self.user,
                market: self.market.address,
                liquidity_provided: minted,
                total_deposited: amount,
                total_withdrawn: 0,
                last_update_time: now,
            },
        }
    }

    /// Whether the records have room for a deposit of `amount`: the shares
    /// can be formed, and the reserves, the share supply, the depositor's
    /// position and the market's liquidity counter can each take what the
    /// deposit adds to them without leaving 64 bits.
    pub open spec fn has_room(self, amount: u64) -> bool {
        &&& self.pool.total_reserves() <= u64::MAX
        &&& shares_minted(amount, self.pool.total_supply, self.market.total_liquidity) matches Some(minted)
        &&& self.pool.reserve_a + deposit_to_a(amount, self.pool.reserve_a, self.pool.reserve_b) <= u64::MAX
        &&& self.pool.reserve_b + deposit_to_b(amount, self.pool.reserve_a, self.pool.reserve_b) <= u64::MAX
        &&& self.pool.total_supply + minted <= u64::MAX
        &&& self.held().0 + minted <= u64::MAX
        &&& self.held().1 + amount <= u64::MAX
        &&& self.market.total_liquidity + amount <= u64::MAX
    }

    /// What depositing `amount` at time `now` does: the records afterwards and
    /// the event, or the reason for the refusal.
    ///
    /// A deposit is refused, in this order, by a market that is not active,
    /// for an amount of zero, and where the records have no room for it. Every
    /// other deposit is accepted.
    pub open spec fn deposit(self, amount: u64, now: i64) -> Result<(AddLiquidity, LiquidityAddedEvent), PredictionMarketError> {
        let amount_a = deposit_to_a(amount, self.pool.reserve_a, self.pool.reserve_b);
        let amount_b = deposit_to_b(amount, self.pool.reserve_a, self.pool.reserve_b);
        let minted = shares_minted(amount, self.pool.total_supply, self.market.total_liquidity)->Some_0;
        if self.market.status != MarketStatus::Active {
            Err(PredictionMarketError::MarketNotActive)
        } else if amount == 0 {
            Err(PredictionMarketError::InvalidAmount)
        } else if !self.has_room(amount) {
            Err(PredictionMarketError::MathOverflow)
        } else {
            Ok((
                AddLiquidity {
                    user: self.user,
                    market: Market {
                        total_liquidity: (self.market.total_liquidity + amount) as u64,
                        ..self.market
                    },
                    pool: LiquidityPool {
                        reserve_a: (self.pool.reserve_a + amount_a) as u64,
                        reserve_b: (self.pool.reserve_b + amount_b) as u64,
                        total_supply: (self.pool.total_supply + minted) as u64,
                        ..self.pool
                    },
                    liquidity_provider: Some(self.position_after(amount, minted, now)),
                },
                LiquidityAddedEvent {
                    market: self.market.address,
                    user: self.user,
                    amount,
                    amount_a: amount_a as u64,
                    amount_b: amount_b as u64,
                    lp_tokens_minted: minted,
                    timestamp: now,
                },
            ))
        }
    }

    /// Deposits `amount` into the pool at time `now`.
    ///
    /// On success the reserves, the share supply, the depositor's position and
    /// the market's liquidity counter have grown as `deposit` says, and the
    /// event tells the caller what to move: `amount_a` and `amount_b` from the
    /// depositor to the two reserves, and `lp_tokens_minted` shares to the
    /// depositor. On refusal nothing has changed.
    pub fn add_liquidity(&mut self, amount: u64, now: i64) -> (result: Result<LiquidityAddedEvent, PredictionMarketError>)
        ensures
            match old(self).deposit(amount, now) {
                Ok((after, event)) => {
                    &&& result == Ok::<LiquidityAddedEvent, PredictionMarketError>(event)
                    &&& *final(self) == after
                    &&& event.amount_a + event.amount_b == amount
                    &&& old(self).market.wf() ==> final(self).market.wf()
                },
                Err(reason) => result == Err::<LiquidityAddedEvent, PredictionMarketError>(reason) && *final(self) == *old(self),
            },
    {
        if self.market.status != MarketStatus::Active {
            return Err(PredictionMarketError::MarketNotActive);
        }
        if amount == 0 {
            return Err(PredictionMarketError::InvalidAmount);
        }
        let total_reserves = match self.pool.reserve_a.checked_add(self.pool.reserve_b) {
            Some(total) => total,
            None => { return Err(PredictionMarketError::MathOverflow); },
        };
        proof {
            lemma_deposit_split(amount, self.pool.reserve_a, self.pool.reserve_b);
        }
        let amount_a = if total_reserves == 0 {
            amount / 2
        } else {
            match mul_div_floor(amount, self.pool.reserve_a, total_reserves) {
                Some(part) => part,
                None => { return Err(PredictionMarketError::MathOverflow); },
            }
        };
        let amount_b = amount - amount_a;
        let minted = if self.pool.total_supply == 0 {
            amount
        } else {
            match mul_div_floor(amount, self.pool.total_supply, self.market.total_liquidity) {
                Some(shares) => shares,
                None => { return Err(PredictionMarketError::MathOverflow); },
            }
        };
        let (held, deposited) = match &self.liquidity_provider {
            Some(position) => (position.liquidity_provided, position.total_deposited),
            None => (0, 0),
        };
        let reserve_a = self.pool.reserve_a.checked_add(amount_a);
        let reserve_b = self.pool.reserve_b.checked_add(amount_b);
        let total_supply = self.pool.total_supply.checked_add(minted);
        let held_after = held.checked_add(minted);
        let deposited_after = deposited.checked_add(amount);
        let total_liquidity = self.market.total_liquidity.checked_add(amount);
        match (reserve_a, reserve_b, total_supply, held_after, deposited_after, total_liquidity) {
            (Some(reserve_a), Some(reserve_b), Some(total_supply), Some(held_after), Some(deposited_after), Some(total_liquidity)) => {
                let position = match self.liquidity_provider {
                    Some(position) => UserPosition {
                        user: position.user,
                        market: position.market,
                        liquidity_provided: held_after,
                        total_deposited: deposited_after,
                        total_withdrawn: position.total_withdrawn,
                        last_update_time: now,
                    },
                    None => UserPosition {
                        user: self.user,
                        market: self.market.address,
                        liquidity_provided: held_after,
                        total_deposited: deposited_after,
                        total_withdrawn: 0,
                        last_update_time: now,
                    },
                };
                self.pool.reserve_a = reserve_a;
                self.pool.reserve_b = reserve_b;
                self.pool.total_supply = total_supply;
                self.liquidity_provider = Some(position);
                self.market.total_liquidity = total_liquidity;
                Ok(LiquidityAddedEvent {
                    market: self.market.address,
                    user: self.user,
                    amount,
                    amount_a,
                    amount_b,
                    lp_tokens_minted: minted,
                    timestamp: now,
                })
            },
            _ => Err(PredictionMarketError::MathOverflow),
        }
    }
}

/// A deposit is accepted exactly where the market is active, the amount is
/// positive and the records have room for it.
pub proof fn lemma_deposit_accepted_exactly(ctx: AddLiquidity, amount: u64, now: i64)
    ensures
        ctx.deposit(amount, now) is Ok <==> ctx.market.status == MarketStatus::Active && amount > 0
            && ctx.has_room(amount),
{
}

/// An untouched pool has room for every first deposit.
pub proof fn lemma_new_pool_has_room(ctx: AddLiquidity, amount: u64)
    requires
        ctx.pool.reserve_a == 0,
        ctx.pool.reserve_b == 0,
        ctx.pool.total_supply == 0,
        ctx.market.total_liquidity == 0,
        ctx.liquidity_provider is None,
    ensures
        ctx.has_room(amount),
{
}

/// A positive deposit into an active market's pool with empty reserves is
/// accepted wherever the records have room for it, and is split in halves:
/// A takes half the deposit rounded down and B the rest, so the two reserves
/// then hold the whole deposit between them and differ by at most one unit.
pub proof fn lemma_first_deposit_is_balanced(ctx: AddLiquidity, amount: u64, now: i64)
    requires
        ctx.market.status == MarketStatus::Active,
        amount > 0,
        ctx.pool.reserve_a == 0,
        ctx.pool.reserve_b == 0,
        ctx.has_room(amount),
    ensures
        ctx.deposit(amount, now) matches Ok((after, event)) && {
            &&& after.pool.reserve_a == amount / 2
            &&& after.pool.reserve_b == amount - amount / 2
            &&& after.pool.reserve_a + after.pool.reserve_b == amount
            &&& after.pool.reserve_a <= after.pool.reserve_b <= after.pool.reserve_a + 1
            &&& event.amount_a == after.pool.reserve_a
            &&& event.amount_b == after.pool.reserve_b
        },
{
}

/// A positive deposit into an active market's pool with shares outstanding
/// is accepted wherever the records have room for it, and mints shares in
/// proportion of the deposit to the recorded liquidity, rounded down; the
/// share supply and the depositor's shares grow by what was minted.
pub proof fn lemma_proportional_shares(ctx: AddLiquidity, amount: u64, now: i64)
    requires
        ctx.market.status == MarketStatus::Active,
        amount > 0,
        ctx.pool.total_supply > 0,
        ctx.has_room(amount),
    ensures
        ctx.market.total_liquidity > 0,
        ctx.deposit(amount, now) matches Ok((after, event)) && {
            &&& event.lp_tokens_minted == (amount * ctx.pool.total_supply) / (ctx.market.total_liquidity as int)
            &&& after.pool.total_supply == ctx.pool.total_supply + event.lp_tokens_minted
            &&& after.liquidity_provider matches Some(position)
            &&& position.liquidity_provided == ctx.held().0 + event.lp_tokens_minted
            &&& position.total_deposited == ctx.held().1 + amount
            &&& after.market.total_liquidity == ctx.market.total_liquidity + amount
        },
{
}

/// No deposit moves the stakes of the bettors.
pub proof fn lemma_deposit_keeps_stakes(ctx: AddLiquidity, amount: u64, now: i64)
    requires
        ctx.deposit(amount, now) is Ok,
    ensures
        ctx.deposit(amount, now)->Ok_0.0.market.stake_a == ctx.market.stake_a,
        ctx.deposit(amount, now)->Ok_0.0.market.stake_b == ctx.market.stake_b,
        ctx.market.wf() ==> ctx.deposit(amount, now)->Ok_0.0.market.wf(),
{
}

/// A market that is not active takes no liquidity: whatever else holds of
/// the request, it is refused with `MarketNotActive`.
pub proof fn lemma_inactive_market_takes_no_liquidity(ctx: AddLiquidity, amount: u64, now: i64)
    requires
        ctx.market.status != MarketStatus::Active,
    ensures
        ctx.deposit(amount, now) == Err::<(AddLiquidity, LiquidityAddedEvent), PredictionMarketError>(
            PredictionMarketError::MarketNotActive,
        ),
{
}

} // verus!
