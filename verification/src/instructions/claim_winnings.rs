//! Paying a winning position, once.

use vstd::prelude::*;
use crate::authority::{authority_label, authority_signer_seeds, owned_seeds, signer_seeds, SignedTransfer};
use crate::error::PredictionMarketError;
use crate::state::{Bet, Identity, Market, MarketStatus};
use crate::utils::{checked_mul_div, mul_div_floor};

verus! {

/// The records a claim touches, and the vault's balance as the ledger reports
/// it.
#[derive(Clone, Debug, PartialEq, Eq)]
pub struct ClaimWinnings {
    /// The claimant.
    pub user: Identity,
    pub market: Market,
    /// The claimant's position in this market, if there is one.
    pub position: Option<Bet>,
    /// What the vault holds before the claim.
    pub vault_balance: u64,
}

/// What a claim paid.
#[derive(Clone, Copy, Debug, PartialEq, Eq)]
pub struct WinningsClaimedEvent {
    pub market: Identity,
    pub user: Identity,
    pub amount: u64,
    pub outcome: u8,
    pub timestamp: i64,
}

/// A winning stake's share of the payout pool: the pool in proportion of the
/// stake to everything staked on the winning outcome, rounded down. `None`
/// where nothing was staked on it or the share does not fit in 64 bits.
pub open spec fn winnings(amount: u64, total_payout_pool: u64, winning_pool: u64) -> Option<u64> {
    checked_mul_div(amount, total_payout_pool, winning_pool)
}

impl ClaimWinnings {
    /// What claiming at time `now` does: the records afterwards and the
    /// event, or the reason for the refusal.
    ///
    /// A claim is refused, in this order, by a market that is not resolved,
    /// without a position of the claimant in this market, for a position
    /// that has been paid, for a position on the losing outcome, where
    /// nothing was staked on the winning outcome, where the payout does not
    /// fit in 64 bits or is nothing, where the vault does not hold it, and
    /// where the claimed total would not fit in 64 bits.
    pub open spec fn claim(self, now: i64) -> Result<(ClaimWinnings, WinningsClaimedEvent), PredictionMarketError> {
        if self.market.status != MarketStatus::Resolved || self.market.winning_outcome is None {
            Err(PredictionMarketError::MarketNotResolved)
        } else {
            match self.position {
                None => Err(PredictionMarketError::InvalidPosition),
                Some(position) => if position.user != self.user || position.market != self.market.address {
                    Err(PredictionMarketError::InvalidPosition)
                } else if position.claimed {
                    Err(PredictionMarketError::AlreadyClaimed)
                } else if self.market.winning_outcome != Some(position.outcome) {
                    Err(PredictionMarketError::NotAWinner)
                } else if self.market.winning_pool == 0 {
                    Err(PredictionMarketError::NoWinnings)
                } else {
                    match winnings(position.amount, self.market.total_payout_pool, self.market.winning_pool) {
                        None => Err(PredictionMarketError::MathOverflow),
                        Some(payout) => if payout == 0 {
                            Err(PredictionMarketError::NoWinnings)
                        } else if self.vault_balance < payout {
                            Err(PredictionMarketError::InsufficientVaultFunds)
                        } else if self.market.total_claimed + payout > u64::MAX {
                            Err(PredictionMarketError::MathOverflow)
                        } else {
                            Ok((
                                ClaimWinnings {
                                    user: self.user,
                                    market: Market {
                                        total_claimed: (self.market.total_claimed + payout) as u64,
                                        ..self.market
                                    },
                                    position: Some(Bet { claimed: true, winnings_claimed: payout, ..position }),
                                    vault_balance: self.vault_balance,
                                },
                                WinningsClaimedEvent {
                                    market: self.market.address,
                                    user: self.user,
                                    amount: payout,
                                    outcome: position.outcome,
                                    timestamp: now,
                                },
                            ))
                        },
                    }
                },
            }
        }
    }
}

/// Claims the caller's winnings at time `now`.
///
/// On success the position is marked as claimed with the amount paid, the
/// market's running total of claims has grown by it, and the transfer orders
/// that amount out of the vault, signed with the vault authority's seeds. On
/// refusal nothing has changed; in particular a position that has been paid
/// is refused with `AlreadyClaimed` and stays as it is.
pub fn claim_winnings(ctx: &mut ClaimWinnings, now: i64) -> (result: Result<(WinningsClaimedEvent, SignedTransfer), PredictionMarketError>)
    ensures
        match old(ctx).claim(now) {
            Ok((after, event)) => {
                &&& *final(ctx) == after
                &&& result matches Ok((emitted, transfer))
                &&& emitted == event
                &&& transfer.amount == event.amount
                &&& old(ctx).market.wf() ==> final(ctx).market.wf()
                &&& transfer.signer_seeds.deep_view() == signer_seeds(
                    owned_seeds(authority_label(), old(ctx).market.address@),
                    old(ctx).market.authority_bump,
                )
            },
            Err(reason) => result == Err::<(WinningsClaimedEvent, SignedTransfer), PredictionMarketError>(reason) && *final(ctx) == *old(ctx),
        },
{
    if ctx.market.status != MarketStatus::Resolved {
        return Err(PredictionMarketError::MarketNotResolved);
    }
    let winning_outcome = match ctx.market.winning_outcome {
        Some(outcome) => outcome,
        None => { return Err(PredictionMarketError::MarketNotResolved); },
    };
    let position = match ctx.position {
        Some(position) => position,
        None => { return Err(PredictionMarketError::InvalidPosition); },
    };
    if !(position.user == ctx.user) || !(position.market == ctx.market.address) {
        return Err(PredictionMarketError::InvalidPosition);
    }
    if position.claimed {
        return Err(PredictionMarketError::AlreadyClaimed);
    }
    if position.outcome != winning_outcome {
        return Err(PredictionMarketError::NotAWinner);
    }
    if ctx.market.winning_pool == 0 {
        return Err(PredictionMarketError::NoWinnings);
    }
    let payout = match mul_div_floor(position.amount, ctx.market.total_payout_pool, ctx.market.winning_pool) {
        Some(payout) => payout,
        None => { return Err(PredictionMarketError::MathOverflow); },
    };
    if payout == 0 {
        return Err(PredictionMarketError::NoWinnings);
    }
    if ctx.vault_balance < payout {
        return Err(PredictionMarketError::InsufficientVaultFunds);
    }
    let total_claimed = match ctx.market.total_claimed.checked_add(payout) {
        Some(total) => total,
        None => { return Err(PredictionMarketError::MathOverflow); },
    };
    let signing = authority_signer_seeds(&ctx.market);
    ctx.position = Some(Bet {
        user: position.user,
        market: position.market,
        outcome: position.outcome,
        amount: position.amount,
        claimed: true,
        winnings_claimed: payout,
        timestamp: position.timestamp,
    });
    ctx.market.total_claimed = total_claimed;
    Ok((
        WinningsClaimedEvent {
            market: ctx.market.address,
            user: ctx.user,
            amount: payout,
            outcome: position.outcome,
            timestamp: now,
        },
        SignedTransfer { amount: payout, signer_seeds: signing },
    ))
}

/// A position is paid once: after a successful claim, every further claim on
/// the same position is refused with `AlreadyClaimed`, whatever the vault
/// holds by then and whoever asks for it at whatever time, so the recorded
/// winnings stay what the first claim paid.
pub proof fn lemma_no_double_claim(ctx: ClaimWinnings, now: i64, vault_balance: u64, later: i64)
    requires
        ctx.claim(now) is Ok,
    ensures
        ({
            let (after, event) = ctx.claim(now)->Ok_0;
            let again = ClaimWinnings { vault_balance, ..after };
            &&& after.position matches Some(paid) && paid.claimed && paid.winnings_claimed == event.amount
            &&& again.claim(later) == Err::<(ClaimWinnings, WinningsClaimedEvent), PredictionMarketError>(
                PredictionMarketError::AlreadyClaimed,
            )
        }),
{
}

/// A claim on a position that has been paid changes nothing, whatever else
/// is wrong with it: it is refused.
pub proof fn lemma_claimed_position_is_final(ctx: ClaimWinnings, now: i64)
    requires
        ctx.position matches Some(position) && position.claimed,
    ensures
        ctx.claim(now) is Err,
{
}

/// A claim pays a positive amount and leaves the stakes as they were.
pub proof fn lemma_claim_keeps_stakes(ctx: ClaimWinnings, now: i64)
    requires
        ctx.claim(now) is Ok,
    ensures
        ctx.claim(now)->Ok_0.0.market.stake_a == ctx.market.stake_a,
        ctx.claim(now)->Ok_0.0.market.stake_b == ctx.market.stake_b,
        ctx.claim(now)->Ok_0.1.amount > 0,
        ctx.market.wf() ==> ctx.claim(now)->Ok_0.0.market.wf(),
{
}

} // verus!
