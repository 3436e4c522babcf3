//! Staking on an outcome.

use vstd::prelude::*;
use crate::error::PredictionMarketError;
use crate::state::{Bet, Identity, Market, MarketStatus, OUTCOME_A, OUTCOME_B};

verus! {

/// The records a bet touches, and the bettor's balance as the ledger reports
/// it.
#[derive(Clone, Debug, PartialEq, Eq)]
pub struct PlaceBet {
    pub bettor: Identity,
    pub market: Market,
    /// The bettor's position in this market, absent before the first bet.
    pub bet: Option<Bet>,
    /// What the bettor's account holds before the bet.
    pub bettor_balance: u64,
}

/// What was staked, by whom and on what.
#[derive(Clone, Copy, Debug, PartialEq, Eq)]
pub struct BetPlacedEvent {
    pub market: Identity,
    pub bettor: Identity,
    pub outcome: u8,
    pub amount: u64,
    pub timestamp: i64,
}

impl PlaceBet {
    /// What is already staked in the bettor's position.
    pub open spec fn staked(self) -> u64 {
        match self.bet {
            Some(bet) => bet.amount,
            None => 0,
        }
    }

    /// The bettor's position after `amount` more was staked on `outcome`.
    pub open spec fn bet_after(self, outcome: u8, amount: u64, now: i64) -> Bet {
        match self.bet {
            Some(bet) => Bet { amount: (bet.amount + amount) as u64, ..bet },
            None => Bet {
                user: self.bettor,
                market: self.market.address,
                outcome,
                amount,
                claimed: false,
                winnings_claimed: 0,
                timestamp: now,
            },
        }
    }

    /// Whether the records have room for a bet of `amount`: the position,
    /// the market's total stake and its bet counter can each take what the
    /// bet adds to them without leaving 64 bits.
    pub open spec fn has_room(self, amount: u64) -> bool {
        &&& self.staked() + amount <= u64::MAX
        &&& self.market.total_stake() + amount <= u64::MAX
        &&& self.market.total_bets + 1 <= u64::MAX
    }

    /// What staking `amount` on `outcome` at time `now` does: the records
    /// afterwards and the event, or the reason for the refusal.
    ///
    /// A bet is refused, in this order, by a market that is not active, for
    /// an amount of zero, for an outcome that does not exist, for want of
    /// funds, for a position bound to the other outcome, and where the
    /// records have no room for it. Every other bet is accepted.
    pub open spec fn placement(self, outcome: u8, amount: u64, now: i64) -> Result<(PlaceBet, BetPlacedEvent), PredictionMarketError> {
        if self.market.status != MarketStatus::Active {
            Err(PredictionMarketError::MarketNotActive)
        } else if amount == 0 {
            Err(PredictionMarketError::InvalidAmount)
        } else if outcome != OUTCOME_A && outcome != OUTCOME_B {
            Err(PredictionMarketError::InvalidOutcome)
        } else if self.bettor_balance < amount {
            Err(PredictionMarketError::InsufficientFunds)
        } else if self.bet matches Some(bet) && bet.outcome != outcome {
            Err(PredictionMarketError::OutcomeMismatch)
        } else if !self.has_room(amount) {
            Err(PredictionMarketError::MathOverflow)
        } else {
            Ok((
                PlaceBet {
                    bettor: self.bettor,
                    market: Market {
                        stake_a: if outcome == OUTCOME_A { (self.market.stake_a + amount) as u64 } else { self.market.stake_a },
                        stake_b: if outcome == OUTCOME_B { (self.market.stake_b + amount) as u64 } else { self.market.stake_b },
                        total_bets: (self.market.total_bets + 1) as u64,
                        ..self.market
                    },
                    bet: Some(self.bet_after(outcome, amount, now)),
                    bettor_balance: self.bettor_balance,
                },
                BetPlacedEvent {
                    market: self.market.address,
                    bettor: self.bettor,
                    outcome,
                    amount,
                    timestamp: now,
                },
            ))
        }
    }
}

/// Stakes `amount` on `outcome` at time `now`.
///
/// On success the bettor's position holds `amount` more, bound to `outcome`,
/// the market's stake on `outcome` has grown by `amount` and its bet counter
/// by one; the caller moves `amount` from the bettor to the vault. On refusal
/// nothing has changed; in particular a position bound to the other outcome
/// is never merged or rebound.
pub fn place_bet(ctx: &mut PlaceBet, outcome: u8, amount: u64, now: i64) -> (result: Result<BetPlacedEvent, PredictionMarketError>)
    ensures
        match old(ctx).placement(outcome, amount, now) {
            Ok((after, event)) => {
                &&& *final(ctx) == after
                &&& result == Ok::<BetPlacedEvent, PredictionMarketError>(event)
                &&& final(ctx).market.total_stake() == old(ctx).market.total_stake() + amount
                &&& old(ctx).market.wf() ==> final(ctx).market.wf()
            },
            Err(reason) => result == Err::<BetPlacedEvent, PredictionMarketError>(reason) && *final(ctx) == *old(ctx),
        },
{
    if ctx.market.status != MarketStatus::Active {
        return Err(PredictionMarketError::MarketNotActive);
    }
    if amount == 0 {
        return Err(PredictionMarketError::InvalidAmount);
    }
    if outcome != OUTCOME_A && outcome != OUTCOME_B {
        return Err(PredictionMarketError::InvalidOutcome);
    }
    if ctx.bettor_balance < amount {
        return Err(PredictionMarketError::InsufficientFunds);
    }
    let bet = match ctx.bet {
        Some(bet) => {
            if bet.outcome != outcome {
                return Err(PredictionMarketError::OutcomeMismatch);
            }
            match bet.amount.checked_add(amount) {
                Some(staked) => Bet {
                    user: bet.user,
                    market: bet.market,
                    outcome: bet.outcome,
                    amount: staked,
                    claimed: bet.claimed,
                    winnings_claimed: bet.winnings_claimed,
                    timestamp: bet.timestamp,
                },
                None => { return Err(PredictionMarketError::MathOverflow); },
            }
        },
        None => Bet {
            user: ctx.bettor,
            market: ctx.market.address,
            outcome,
            amount,
            claimed: false,
            winnings_claimed: 0,
            timestamp: now,
        },
    };
    let total_stake = match ctx.market.stake_a.checked_add(ctx.market.stake_b) {
        Some(total) => total,
        None => { return Err(PredictionMarketError::MathOverflow); },
    };
    if total_stake.checked_add(amount).is_none() {
        return Err(PredictionMarketError::MathOverflow);
    }
    let total_bets = match ctx.market.total_bets.checked_add(1) {
        Some(count) => count,
        None => { return Err(PredictionMarketError::MathOverflow); },
    };
    if outcome == OUTCOME_A {
        ctx.market.stake_a = ctx.market.stake_a + amount;
    } else {
        ctx.market.stake_b = ctx.market.stake_b + amount;
    }
    ctx.market.total_bets = total_bets;
    ctx.bet = Some(bet);
    Ok(BetPlacedEvent {
        market: ctx.market.address,
        bettor: ctx.bettor,
        outcome,
        amount,
        timestamp: now,
    })
}

/// A position is bound to the outcome of its first bet: a bet on the other
/// outcome is refused, and where the bet is otherwise in order (a positive
/// amount that the bettor's balance covers, on a valid outcome of an active
/// market) the refusal is `OutcomeMismatch`.
pub proof fn lemma_outcome_binding(ctx: PlaceBet, outcome: u8, amount: u64, now: i64)
    requires
        ctx.bet matches Some(bet) && bet.outcome != outcome,
    ensures
        ctx.placement(outcome, amount, now) is Err,
        amount > 0 && ctx.market.status == MarketStatus::Active && (outcome == OUTCOME_A || outcome
            == OUTCOME_B) && ctx.bettor_balance >= amount ==> ctx.placement(outcome, amount, now)
            == Err::<(PlaceBet, BetPlacedEvent), PredictionMarketError>(
            PredictionMarketError::OutcomeMismatch,
        ),
{
}

/// A bet is accepted exactly where the market is active, the amount is
/// positive and covered by the bettor's balance, the outcome exists, the
/// bettor has no position yet or one on the same outcome, and the records
/// have room for the bet.
pub proof fn lemma_bet_accepted_exactly(ctx: PlaceBet, outcome: u8, amount: u64, now: i64)
    ensures
        ctx.placement(outcome, amount, now) is Ok <==> {
            &&& ctx.market.status == MarketStatus::Active
            &&& amount > 0
            &&& (outcome == OUTCOME_A || outcome == OUTCOME_B)
            &&& ctx.bettor_balance >= amount
            &&& ctx.bet matches Some(bet) ==> bet.outcome == outcome
            &&& ctx.has_room(amount)
        },
{
}

/// A bet that is in order is accepted wherever the records have room for
/// it, and adds its amount to the stake on its outcome and to the position,
/// and to nothing else: the stake on the other outcome stays, and so does
/// what a paid position has recorded as winnings.
pub proof fn lemma_bet_adds_stake(ctx: PlaceBet, outcome: u8, amount: u64, now: i64)
    requires
        ctx.market.status == MarketStatus::Active,
        amount > 0,
        outcome == OUTCOME_A || outcome == OUTCOME_B,
        ctx.bettor_balance >= amount,
        ctx.bet matches Some(bet) ==> bet.outcome == outcome,
        ctx.has_room(amount),
    ensures
        ctx.placement(outcome, amount, now) matches Ok((after, event)) && {
            &&& after.market.stake(outcome) == ctx.market.stake(outcome) + amount
            &&& after.market.stake((1 - outcome) as u8) == ctx.market.stake((1 - outcome) as u8)
            &&& after.market.total_stake() == ctx.market.total_stake() + amount
            &&& after.market.total_bets == ctx.market.total_bets + 1
            &&& after.bet matches Some(bet)
            &&& bet.outcome == outcome
            &&& bet.amount == ctx.staked() + amount
            &&& ctx.bet matches Some(before) ==> bet.claimed == before.claimed && bet.winnings_claimed
                == before.winnings_claimed
            &&& event.amount == amount
            &&& ctx.market.wf() ==> after.market.wf()
        },
{
}

/// A market that is not active takes no bets: whatever else holds of the
/// request, it is refused with `MarketNotActive`.
pub proof fn lemma_inactive_market_takes_no_bets(ctx: PlaceBet, outcome: u8, amount: u64, now: i64)
    requires
        ctx.market.status != MarketStatus::Active,
    ensures
        ctx.placement(outcome, amount, now) == Err::<(PlaceBet, BetPlacedEvent), PredictionMarketError>(
            PredictionMarketError::MarketNotActive,
        ),
{
}

} // verus!
