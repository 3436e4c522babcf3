//! A market together with its pool and every position held in it, as one
//! state.
//!
//! The operations work on the records they are handed. What they keep true of
//! a market and *all* its positions, through any sequence of requests, is
//! stated and proved here over the model of the keyed store.

use vstd::prelude::*;
use crate::error::PredictionMarketError;
use crate::instructions::add_liquidity::{deposit_to_a, deposit_to_b, AddLiquidity};
use crate::instructions::claim_winnings::{winnings, ClaimWinnings, WinningsClaimedEvent};
use crate::instructions::create_market::{initial_pool, is_initial_market, InitializeMarket};
use crate::instructions::place_bet::PlaceBet;
use crate::instructions::remove_liquidity::RemoveLiquidity;
use crate::instructions::resolve_market::ResolveMarket;
use crate::state::{Bet, Identity, LiquidityPool, Market, MarketStatus, UserPosition};
use crate::store::{distinct, get, holds, index_of, lemma_get_at, lemma_put_existing, lemma_put_keeps_distinct, lemma_put_new, put};
use crate::sums::{lemma_total_covers_item, lemma_total_difference, lemma_total_scaled, total};
use crate::utils::{lemma_mul_div_bounded, mul_div};

verus! {

/// A market, its pool, and every position held in it.
pub struct Ledger {
    pub market: Market,
    pub pool: LiquidityPool,
    /// The betting positions: at most one per bettor.
    pub bets: Seq<Bet>,
    /// The liquidity positions: at most one per provider.
    pub shares: Seq<UserPosition>,
}

/// A request to the engine, with what the environment supplies for it: the
/// caller, the balance that the ledger of value reports, the time.
pub enum Request {
    Stake { bettor: Identity, balance: u64, outcome: u8, amount: u64, now: i64 },
    Resolve { oracle: Identity, outcome: u8, evidence: Vec<u8>, now: i64 },
    Claim { user: Identity, vault_balance: u64, now: i64 },
    Deposit { user: Identity, amount: u64, now: i64 },
    Withdraw { user: Identity, pool_balance: u64, liquidity_amount: u64, now: i64 },
}

/// The key of a betting position.
pub open spec fn bet_owner() -> spec_fn(Bet) -> Identity {
    |bet: Bet| bet.user
}

/// The key of a liquidity position.
pub open spec fn share_owner() -> spec_fn(UserPosition) -> Identity {
    |position: UserPosition| position.user
}

/// What a position has staked on `outcome`.
pub open spec fn stake_weight(outcome: u8) -> spec_fn(Bet) -> int {
    |bet: Bet| if bet.outcome == outcome { bet.amount as int } else { 0 }
}

/// What a position is owed by `market`: its winnings if it is bound to the
/// winning outcome, else nothing.
pub open spec fn due(market: Market, bet: Bet) -> int {
    if market.winning_outcome == Some(bet.outcome) {
        match winnings(bet.amount, market.total_payout_pool, market.winning_pool) {
            Some(payout) => payout as int,
            None => 0,
        }
    } else {
        0
    }
}

/// `due`, as a weight.
pub open spec fn due_weight(market: Market) -> spec_fn(Bet) -> int {
    |bet: Bet| due(market, bet)
}

/// What a position has been paid.
pub open spec fn paid_weight() -> spec_fn(Bet) -> int {
    |bet: Bet| if bet.claimed { bet.winnings_claimed as int } else { 0 }
}

/// What a position is still owed by `market`.
pub open spec fn outstanding_weight(market: Market) -> spec_fn(Bet) -> int {
    |bet: Bet| due(market, bet) - paid_weight()(bet)
}

/// Whether `bet` is in order as a position in `market`: it is a position in
/// this market on one of the two outcomes, it records no winnings before it
/// is paid, and it has been paid only by the resolved market and then
/// exactly what it was owed.
pub open spec fn in_order(market: Market, bet: Bet) -> bool {
    &&& bet.market == market.address
    &&& bet.wf()
    &&& bet.claimed ==> market.status == MarketStatus::Resolved && bet.winnings_claimed == due(market, bet)
}

/// The pool shares a provider holds.
pub open spec fn share_weight() -> spec_fn(UserPosition) -> int {
    |position: UserPosition| position.liquidity_provided as int
}

impl Ledger {
    /// Whether the records agree with one another: every position is a
    /// position in this market and no owner has two; the stake on each
    /// outcome is the sum of the positions bound to it; the claimed total is
    /// the sum of what the positions were paid, and a position has been paid
    /// only by a resolved market and then exactly what it was owed; the
    /// share supply is the sum of the providers' shares, and the market's
    /// liquidity counter stands at the share supply.
    pub open spec fn consistent(self) -> bool {
        &&& self.market.wf()
        &&& self.pool.wf()
        &&& self.pool.market == self.market.address
        &&& distinct(self.bets, bet_owner())
        &&& distinct(self.shares, share_owner())
        &&& forall|i: int| 0 <= i < self.bets.len() ==> in_order(self.market, #[trigger] self.bets[i])
        &&& forall|i: int| 0 <= i < self.shares.len() ==> (#[trigger] self.shares[i]).market == self.market.address
        &&& total(self.bets, stake_weight(0)) == self.market.stake_a
        &&& total(self.bets, stake_weight(1)) == self.market.stake_b
        &&& total(self.bets, paid_weight()) == self.market.total_claimed
        &&& total(self.shares, share_weight()) == self.pool.total_supply
        &&& self.market.total_liquidity == self.pool.total_supply
    }

    /// The records a bet by `bettor` is handed.
    pub open spec fn stake_context(self, bettor: Identity, balance: u64) -> PlaceBet {
        PlaceBet { bettor, market: self.market, bet: get(self.bets, bet_owner(), bettor), bettor_balance: balance }
    }

    /// The records a resolution by `oracle` is handed.
    pub open spec fn resolve_context(self, oracle: Identity) -> ResolveMarket {
        ResolveMarket { oracle, market: self.market }
    }

    /// The records a claim by `user` is handed.
    pub open spec fn claim_context(self, user: Identity, vault_balance: u64) -> ClaimWinnings {
        ClaimWinnings { user, market: self.market, position: get(self.bets, bet_owner(), user), vault_balance }
    }

    /// The records a deposit by `user` is handed.
    pub open spec fn deposit_context(self, user: Identity) -> AddLiquidity {
        AddLiquidity {
            user,
            market: self.market,
            pool: self.pool,
            liquidity_provider: get(self.shares, share_owner(), user),
        }
    }

    /// The records a withdrawal is handed, for a provider whose position is
    /// `position`.
    pub open spec fn withdraw_context(self, position: UserPosition, pool_balance: u64) -> RemoveLiquidity {
        RemoveLiquidity {
            user: position.user,
            market: self.market,
            pool: self.pool,
            user_position: position,
            pool_balance,
        }
    }

    /// The ledger after `request` was put to the engine: the records as the
    /// operation left them, written back to the store. A refused request
    /// leaves the ledger as it was, and so does a withdrawal by someone who
    /// has no liquidity position.
    pub open spec fn step(self, request: Request) -> Ledger {
        match request {
            Request::Stake { bettor, balance, outcome, amount, now } => {
                match self.stake_context(bettor, balance).placement(outcome, amount, now) {
                    Ok((after, _)) => Ledger {
                        market: after.market,
                        bets: put(self.bets, bet_owner(), after.bet->Some_0),
                        ..self
                    },
                    Err(_) => self,
                }
            },
            Request::Resolve { oracle, outcome, evidence, now } => {
                match self.resolve_context(oracle).resolution(outcome, evidence, now) {
                    Ok((after, _)) => Ledger { market: after.market, ..self },
                    Err(_) => self,
                }
            },
            Request::Claim { user, vault_balance, now } => {
                match self.claim_context(user, vault_balance).claim(now) {
                    Ok((after, _)) => Ledger {
                        market: after.market,
                        bets: put(self.bets, bet_owner(), after.position->Some_0),
                        ..self
                    },
                    Err(_) => self,
                }
            },
            Request::Deposit { user, amount, now } => {
                match self.deposit_context(user).deposit(amount, now) {
                    Ok((after, _)) => Ledger {
                        market: after.market,
                        pool: after.pool,
                        shares: put(self.shares, share_owner(), after.liquidity_provider->Some_0),
                        ..self
                    },
                    Err(_) => self,
                }
            },
            Request::Withdraw { user, pool_balance, liquidity_amount, now } => {
                match get(self.shares, share_owner(), user) {
                    Some(position) => match self.withdraw_context(position, pool_balance).withdrawal(liquidity_amount, now) {
                        Ok((after, _)) => Ledger {
                            market: after.market,
                            pool: after.pool,
                            shares: put(self.shares, share_owner(), after.user_position),
                            ..self
                        },
                        Err(_) => self,
                    },
                    None => self,
                }
            },
        }
    }

    /// The stake that `request` adds: the amount of an accepted bet.
    pub open spec fn stake_accepted(self, request: Request) -> int {
        match request {
            Request::Stake { bettor, balance, outcome, amount, now } => {
                if self.stake_context(bettor, balance).placement(outcome, amount, now) is Ok {
                    amount as int
                } else {
                    0
                }
            },
            _ => 0,
        }
    }

    /// The ledger after `requests`, in order.
    pub open spec fn run(self, requests: Seq<Request>) -> Ledger
        decreases requests.len(),
    {
        if requests.len() == 0 {
            self
        } else {
            self.run(requests.drop_last()).step(requests.last())
        }
    }

    /// The sum of the bets accepted in the course of `requests`.
    pub open spec fn stake_accepted_in(self, requests: Seq<Request>) -> int
        decreases requests.len(),
    {
        if requests.len() == 0 {
            0
        } else {
            self.stake_accepted_in(requests.drop_last()) + self.run(requests.drop_last()).stake_accepted(requests.last())
        }
    }
}

/// Conservation, one request at a time: a request changes what is staked on
/// the market by the amount of the bet it carries, if that bet is accepted,
/// and by nothing otherwise. No request of any kind lowers the stake on
/// either outcome.
pub proof fn lemma_step_conserves_stake(ledger: Ledger, request: Request)
    ensures
        ledger.step(request).market.total_stake() == ledger.market.total_stake() + ledger.stake_accepted(request),
        ledger.stake_accepted(request) >= 0,
        ledger.step(request).market.stake_a >= ledger.market.stake_a,
        ledger.step(request).market.stake_b >= ledger.market.stake_b,
{
}

/// Conservation: after any sequence of requests, what is staked on the
/// market is what was staked before plus the sum of the accepted bets. For a
/// new market that is the sum of the accepted bets.
pub proof fn lemma_run_conserves_stake(ledger: Ledger, requests: Seq<Request>)
    ensures
        ledger.run(requests).market.total_stake() == ledger.market.total_stake() + ledger.stake_accepted_in(requests),
        ledger.stake_accepted_in(requests) >= 0,
        ledger.run(requests).market.stake_a >= ledger.market.stake_a,
        ledger.run(requests).market.stake_b >= ledger.market.stake_b,
    decreases requests.len(),
{
    if requests.len() > 0 {
        lemma_run_conserves_stake(ledger, requests.drop_last());
        lemma_step_conserves_stake(ledger.run(requests.drop_last()), requests.last());
    }
}

/// A bet, accepted or refused, leaves a consistent ledger consistent.
proof fn lemma_stake_keeps_consistency(ledger: Ledger, bettor: Identity, balance: u64, outcome: u8, amount: u64, now: i64)
    requires
        ledger.consistent(),
    ensures
        ledger.step(Request::Stake { bettor, balance, outcome, amount, now }).consistent(),
{
    let ctx = ledger.stake_context(bettor, balance);
    if let Ok((after, _)) = ctx.placement(outcome, amount, now) {
        let bet = after.bet->Some_0;
        let next = ledger.step(Request::Stake { bettor, balance, outcome, amount, now });
        assert(next.bets == put(ledger.bets, bet_owner(), bet));
        assert(ledger.market.status == MarketStatus::Active);
        assert(bet_owner()(bet) == bettor);
        lemma_put_keeps_distinct(ledger.bets, bet_owner(), bet);
        if holds(ledger.bets, bet_owner(), bettor) {
            let i = index_of(ledger.bets, bet_owner(), bettor);
            lemma_put_existing(ledger.bets, bet_owner(), bet, stake_weight(0));
            lemma_put_existing(ledger.bets, bet_owner(), bet, stake_weight(1));
            lemma_put_existing(ledger.bets, bet_owner(), bet, paid_weight());
            assert(!ledger.bets[i].claimed);
            assert forall|k: int| 0 <= k < next.bets.len() implies in_order(next.market, #[trigger] next.bets[k]) by {
                if k != i {
                    assert(next.bets[k] == ledger.bets[k]);
                }
            }
        } else {
            lemma_put_new(ledger.bets, bet_owner(), bet, stake_weight(0));
            lemma_put_new(ledger.bets, bet_owner(), bet, stake_weight(1));
            lemma_put_new(ledger.bets, bet_owner(), bet, paid_weight());
            assert forall|k: int| 0 <= k < next.bets.len() implies in_order(next.market, #[trigger] next.bets[k]) by {
                if k < ledger.bets.len() {
                    assert(next.bets[k] == ledger.bets[k]);
                }
            }
        }
    }
}

/// A resolution, accepted or refused, leaves a consistent ledger consistent.
proof fn lemma_resolve_keeps_consistency(ledger: Ledger, oracle: Identity, outcome: u8, evidence: Vec<u8>, now: i64)
    requires
        ledger.consistent(),
    ensures
        ledger.step(Request::Resolve { oracle, outcome, evidence, now }).consistent(),
{
    let ctx = ledger.resolve_context(oracle);
    if let Ok((after, _)) = ctx.resolution(outcome, evidence, now) {
        let next = ledger.step(Request::Resolve { oracle, outcome, evidence, now });
        assert(ledger.market.status == MarketStatus::Active);
        assert forall|k: int| 0 <= k < next.bets.len() implies in_order(next.market, #[trigger] next.bets[k]) by {
            assert(!ledger.bets[k].claimed);
        }
    }
}

/// A claim, accepted or refused, leaves a consistent ledger consistent.
proof fn lemma_claim_keeps_consistency(ledger: Ledger, user: Identity, vault_balance: u64, now: i64)
    requires
        ledger.consistent(),
    ensures
        ledger.step(Request::Claim { user, vault_balance, now }).consistent(),
{
    let ctx = ledger.claim_context(user, vault_balance);
    if let Ok((after, _)) = ctx.claim(now) {
        let bet = after.position->Some_0;
        let next = ledger.step(Request::Claim { user, vault_balance, now });
        assert(next.bets == put(ledger.bets, bet_owner(), bet));
        assert(holds(ledger.bets, bet_owner(), user));
        let i = index_of(ledger.bets, bet_owner(), user);
        let before = ledger.bets[i];
        assert(bet_owner()(bet) == user);
        lemma_put_keeps_distinct(ledger.bets, bet_owner(), bet);
        lemma_put_existing(ledger.bets, bet_owner(), bet, stake_weight(0));
        lemma_put_existing(ledger.bets, bet_owner(), bet, stake_weight(1));
        lemma_put_existing(ledger.bets, bet_owner(), bet, paid_weight());
        assert(!before.claimed);
        assert(bet.winnings_claimed == due(ledger.market, before));
        assert forall|k: int| 0 <= k < next.bets.len() implies in_order(next.market, #[trigger] next.bets[k]) by {
            if k != i {
                assert(next.bets[k] == ledger.bets[k]);
                assert(due(next.market, ledger.bets[k]) == due(ledger.market, ledger.bets[k]));
            } else {
                assert(due(next.market, bet) == due(ledger.market, before));
            }
        }
    }
}

/// What a market with other liquidity figures owes its positions is what it
/// owed them before: liquidity is accounted apart from the stakes.
proof fn lemma_liquidity_keeps_bets(ledger: Ledger, market: Market)
    requires
        ledger.consistent(),
        market == (Market { total_liquidity: market.total_liquidity, ..ledger.market }),
        market.wf(),
    ensures
        forall|k: int| 0 <= k < ledger.bets.len() ==> in_order(market, #[trigger] ledger.bets[k]),
{
    assert forall|k: int| 0 <= k < ledger.bets.len() implies in_order(market, #[trigger] ledger.bets[k]) by {
        assert(due(market, ledger.bets[k]) == due(ledger.market, ledger.bets[k]));
    }
}

/// A deposit, accepted or refused, leaves a consistent ledger consistent.
proof fn lemma_deposit_keeps_consistency(ledger: Ledger, user: Identity, amount: u64, now: i64)
    requires
        ledger.consistent(),
    ensures
        ledger.step(Request::Deposit { user, amount, now }).consistent(),
{
    let ctx = ledger.deposit_context(user);
    if let Ok((after, event)) = ctx.deposit(amount, now) {
        let position = after.liquidity_provider->Some_0;
        assert(event.lp_tokens_minted == amount) by {
            if ledger.pool.total_supply > 0 {
                vstd::arithmetic::div_mod::lemma_div_multiples_vanish(amount as int, ledger.pool.total_supply as int);
                assert(amount * ledger.pool.total_supply == ledger.pool.total_supply * amount) by (nonlinear_arith);
            }
        }
        let next = ledger.step(Request::Deposit { user, amount, now });
        assert(next.shares == put(ledger.shares, share_owner(), position));
        assert(next.bets == ledger.bets);
        lemma_liquidity_keeps_bets(ledger, after.market);
        lemma_put_keeps_distinct(ledger.shares, share_owner(), position);
        if holds(ledger.shares, share_owner(), user) {
            let i = index_of(ledger.shares, share_owner(), user);
            assert(share_owner()(position) == user);
            lemma_put_existing(ledger.shares, share_owner(), position, share_weight());
            assert forall|k: int| 0 <= k < next.shares.len() implies (#[trigger] next.shares[k]).market == next.market.address by {
                if k != i {
                    assert(next.shares[k] == ledger.shares[k]);
                }
            }
        } else {
            assert(share_owner()(position) == user);
            lemma_put_new(ledger.shares, share_owner(), position, share_weight());
            assert forall|k: int| 0 <= k < next.shares.len() implies (#[trigger] next.shares[k]).market == next.market.address by {
                if k < ledger.shares.len() {
                    assert(next.shares[k] == ledger.shares[k]);
                }
            }
        }
    }
}

/// A withdrawal, accepted or refused, leaves a consistent ledger consistent.
proof fn lemma_withdraw_keeps_consistency(ledger: Ledger, user: Identity, pool_balance: u64, liquidity_amount: u64, now: i64)
    requires
        ledger.consistent(),
    ensures
        ledger.step(Request::Withdraw { user, pool_balance, liquidity_amount, now }).consistent(),
{
    if let Some(held) = get(ledger.shares, share_owner(), user) {
        let ctx = ledger.withdraw_context(held, pool_balance);
        if let Ok((after, _)) = ctx.withdrawal(liquidity_amount, now) {
            let position = after.user_position;
            let next = ledger.step(Request::Withdraw { user, pool_balance, liquidity_amount, now });
            assert(next.shares == put(ledger.shares, share_owner(), position));
            assert(next.bets == ledger.bets);
            let i = index_of(ledger.shares, share_owner(), user);
            assert(held == ledger.shares[i]);
            assert(share_owner()(held) == user);
            assert(share_owner()(position) == user);
            lemma_liquidity_keeps_bets(ledger, after.market);
            lemma_put_keeps_distinct(ledger.shares, share_owner(), position);
            lemma_put_existing(ledger.shares, share_owner(), position, share_weight());
            assert forall|k: int| 0 <= k < next.shares.len() implies (#[trigger] next.shares[k]).market == next.market.address by {
                if k != i {
                    assert(next.shares[k] == ledger.shares[k]);
                }
            }
        }
    }
}

/// Every request, accepted or refused, leaves a consistent ledger
/// consistent.
pub proof fn lemma_step_keeps_consistency(ledger: Ledger, request: Request)
    requires
        ledger.consistent(),
    ensures
        ledger.step(request).consistent(),
{
    match request {
        Request::Stake { bettor, balance, outcome, amount, now } => {
            lemma_stake_keeps_consistency(ledger, bettor, balance, outcome, amount, now);
        },
        Request::Resolve { oracle, outcome, evidence, now } => {
            lemma_resolve_keeps_consistency(ledger, oracle, outcome, evidence, now);
        },
        Request::Claim { user, vault_balance, now } => {
            lemma_claim_keeps_consistency(ledger, user, vault_balance, now);
        },
        Request::Deposit { user, amount, now } => {
            lemma_deposit_keeps_consistency(ledger, user, amount, now);
        },
        Request::Withdraw { user, pool_balance, liquidity_amount, now } => {
            lemma_withdraw_keeps_consistency(ledger, user, pool_balance, liquidity_amount, now);
        },
    }
}

/// Every sequence of requests leaves a consistent ledger consistent.
pub proof fn lemma_run_keeps_consistency(ledger: Ledger, requests: Seq<Request>)
    requires
        ledger.consistent(),
    ensures
        ledger.run(requests).consistent(),
    decreases requests.len(),
{
    if requests.len() > 0 {
        lemma_run_keeps_consistency(ledger, requests.drop_last());
        lemma_step_keeps_consistency(ledger.run(requests.drop_last()), requests.last());
    }
}

/// A well-formed market in which nothing is staked, with an empty pool of
/// its own and no positions, is a consistent ledger: that is where every
/// market starts.
pub proof fn lemma_new_market_is_consistent(market: Market, pool: LiquidityPool)
    requires
        market.wf(),
        market.stake_a == 0,
        market.stake_b == 0,
        market.total_claimed == 0,
        market.total_liquidity == 0,
        pool.wf(),
        pool.market == market.address,
        pool.total_supply == 0,
    ensures
        (Ledger { market, pool, bets: Seq::<Bet>::empty(), shares: Seq::<UserPosition>::empty() }).consistent(),
{
}

/// Rounding down never pays out more than the exact share: the winning
/// pool times what a position is owed is at most the payout pool times what
/// the position staked on the winning outcome.
proof fn lemma_due_is_rounded_down(market: Market, outcome: u8, bet: Bet)
    requires
        market.winning_outcome == Some(outcome),
    ensures
        0 <= due(market, bet),
        market.winning_pool * due(market, bet) <= market.total_payout_pool * stake_weight(outcome)(bet),
        market.winning_pool == 0 ==> due(market, bet) == 0,
{
    let pool = market.total_payout_pool as int;
    let winning = market.winning_pool as int;
    let amount = bet.amount as int;
    if bet.outcome == outcome {
        assert(0 <= pool * amount) by (nonlinear_arith)
            requires
                0 <= pool,
                0 <= amount,
        ;
        match winnings(bet.amount, market.total_payout_pool, market.winning_pool) {
            Some(payout) => {
                assert(payout == (amount * pool) / winning);
                vstd::arithmetic::div_mod::lemma_fundamental_div_mod(amount * pool, winning);
                vstd::arithmetic::div_mod::lemma_mod_pos_bound(amount * pool, winning);
                assert(amount * pool == pool * amount) by (nonlinear_arith);
            },
            None => {
                assert(winning * 0 == 0) by (nonlinear_arith);
            },
        }
    } else {
        assert(winning * 0 == 0) by (nonlinear_arith);
        assert(pool * 0 == 0) by (nonlinear_arith);
    }
}

/// The payout bound: in a consistent ledger whose market is resolved, the
/// winnings owed to all positions together are covered by the payout pool,
/// and so is what has been claimed so far.
pub proof fn lemma_payouts_within_pool(ledger: Ledger)
    requires
        ledger.consistent(),
        ledger.market.status == MarketStatus::Resolved,
    ensures
        total(ledger.bets, due_weight(ledger.market)) <= ledger.market.total_payout_pool,
        ledger.market.total_claimed <= total(ledger.bets, due_weight(ledger.market)),
        ledger.market.total_claimed <= ledger.market.total_payout_pool,
{
    let market = ledger.market;
    let outcome = market.winning_outcome->Some_0;
    let pool = market.total_payout_pool as int;
    let winning = market.winning_pool as int;
    let owed = total(ledger.bets, due_weight(market));
    assert(winning == total(ledger.bets, stake_weight(outcome)));
    assert forall|i: int| 0 <= i < ledger.bets.len() implies winning * due_weight(market)(#[trigger] ledger.bets[i]) <= pool * stake_weight(outcome)(ledger.bets[i]) by {
        lemma_due_is_rounded_down(market, outcome, ledger.bets[i]);
    }
    lemma_total_scaled(ledger.bets, due_weight(market), winning, stake_weight(outcome), pool);
    if winning > 0 {
        assert(owed <= pool) by (nonlinear_arith)
            requires
                winning * owed <= pool * winning,
                winning > 0,
        ;
    } else {
        assert forall|i: int| 0 <= i < ledger.bets.len() implies 1 * due_weight(market)(#[trigger] ledger.bets[i]) <= 0 * stake_weight(outcome)(ledger.bets[i]) by {
            lemma_due_is_rounded_down(market, outcome, ledger.bets[i]);
            assert(0 * stake_weight(outcome)(ledger.bets[i]) == 0) by (nonlinear_arith);
        }
        lemma_total_scaled(ledger.bets, due_weight(market), 1, stake_weight(outcome), 0);
        assert(0 * total(ledger.bets, stake_weight(outcome)) == 0) by (nonlinear_arith);
    }
    assert forall|i: int| 0 <= i < ledger.bets.len() implies 1 * paid_weight()(#[trigger] ledger.bets[i]) <= 1 * due_weight(market)(ledger.bets[i]) by {
        lemma_due_is_rounded_down(market, outcome, ledger.bets[i]);
    }
    lemma_total_scaled(ledger.bets, paid_weight(), 1, due_weight(market), 1);
}

/// A vault that holds what the payout pool has not yet paid covers every
/// claim: in a consistent ledger such a claim is never refused for want of
/// funds, nor for an overflow.
pub proof fn lemma_claim_is_covered(ledger: Ledger, user: Identity, vault_balance: u64, now: i64)
    requires
        ledger.consistent(),
        vault_balance + ledger.market.total_claimed >= ledger.market.total_payout_pool,
    ensures
        ledger.claim_context(user, vault_balance).claim(now) != Err::<(ClaimWinnings, WinningsClaimedEvent), PredictionMarketError>(
            PredictionMarketError::InsufficientVaultFunds,
        ),
        ledger.claim_context(user, vault_balance).claim(now) != Err::<(ClaimWinnings, WinningsClaimedEvent), PredictionMarketError>(
            PredictionMarketError::MathOverflow,
        ),
{
    let market = ledger.market;
    if market.status == MarketStatus::Resolved && holds(ledger.bets, bet_owner(), user) {
        let outcome = market.winning_outcome->Some_0;
        let i = index_of(ledger.bets, bet_owner(), user);
        let bet = ledger.bets[i];
        if !bet.claimed && bet.outcome == outcome && market.winning_pool != 0 {
            let pool = market.total_payout_pool as int;
            let winning = market.winning_pool as int;
            let amount = bet.amount as int;
            assert forall|k: int| 0 <= k < ledger.bets.len() implies 0 <= stake_weight(outcome)(#[trigger] ledger.bets[k]) by {}
            lemma_total_covers_item(ledger.bets, stake_weight(outcome), i);
            assert(amount <= winning);
            lemma_mul_div_bounded(amount, pool, winning);
            assert(winnings(bet.amount, market.total_payout_pool, market.winning_pool) is Some);
            lemma_payouts_within_pool(ledger);
            assert forall|k: int| 0 <= k < ledger.bets.len() implies outstanding_weight(market)(#[trigger] ledger.bets[k]) == due_weight(market)(ledger.bets[k]) - paid_weight()(ledger.bets[k]) by {}
            lemma_total_difference(ledger.bets, due_weight(market), paid_weight(), outstanding_weight(market));
            assert forall|k: int| 0 <= k < ledger.bets.len() implies 0 <= outstanding_weight(market)(#[trigger] ledger.bets[k]) by {
                lemma_due_is_rounded_down(market, outcome, ledger.bets[k]);
            }
            lemma_total_covers_item(ledger.bets, outstanding_weight(market), i);
            assert(due(market, bet) + market.total_claimed <= pool);
        }
    }
}

/// No provider holds more shares than are outstanding.
pub proof fn lemma_shares_within_supply(ledger: Ledger, i: int)
    requires
        ledger.consistent(),
        0 <= i < ledger.shares.len(),
    ensures
        ledger.shares[i].liquidity_provided <= ledger.pool.total_supply,
{
    assert forall|k: int| 0 <= k < ledger.shares.len() implies 0 <= share_weight()(#[trigger] ledger.shares[k]) by {}
    lemma_total_covers_item(ledger.shares, share_weight(), i);
}

/// From creation on: whatever requests a new market has served, its records
/// agree, what is staked on it is the sum of the bets it accepted, and once
/// it is resolved the winnings of all its positions together, and what it has
/// paid of them, stay within its payout pool.
pub proof fn lemma_market_pays_within_pool(market: Market, pool: LiquidityPool, requests: Seq<Request>)
    requires
        market.wf(),
        market.stake_a == 0,
        market.stake_b == 0,
        market.total_claimed == 0,
        market.total_liquidity == 0,
        pool.wf(),
        pool.market == market.address,
        pool.total_supply == 0,
    ensures
        ({
            let start = Ledger { market, pool, bets: Seq::<Bet>::empty(), shares: Seq::<UserPosition>::empty() };
            let ledger = start.run(requests);
            &&& ledger.consistent()
            &&& ledger.market.total_stake() == start.stake_accepted_in(requests)
            &&& ledger.market.status == MarketStatus::Resolved ==> {
                &&& total(ledger.bets, due_weight(ledger.market)) <= ledger.market.total_payout_pool
                &&& ledger.market.total_claimed <= ledger.market.total_payout_pool
            }
        }),
{
    let start = Ledger { market, pool, bets: Seq::<Bet>::empty(), shares: Seq::<UserPosition>::empty() };
    lemma_new_market_is_consistent(market, pool);
    lemma_run_keeps_consistency(start, requests);
    lemma_run_conserves_stake(start, requests);
    if start.run(requests).market.status == MarketStatus::Resolved {
        lemma_payouts_within_pool(start.run(requests));
    }
}

/// The records that `create_market` returns, with no positions yet, are a
/// consistent ledger; so every ledger that grows out of them by requests is
/// one.
pub proof fn lemma_created_market_is_consistent(
    market: Market,
    pool: LiquidityPool,
    ctx: InitializeMarket,
    market_id: u64,
    question: String,
    description: String,
    end_time: i64,
    oracle: Identity,
    requests: Seq<Request>,
)
    requires
        is_initial_market(market, ctx, market_id, question, description, end_time, oracle),
        pool == initial_pool(ctx),
        market.wf(),
        pool.wf(),
    ensures
        (Ledger { market, pool, bets: Seq::<Bet>::empty(), shares: Seq::<UserPosition>::empty() }).run(requests).consistent(),
{
    let start = Ledger { market, pool, bets: Seq::<Bet>::empty(), shares: Seq::<UserPosition>::empty() };
    lemma_new_market_is_consistent(market, pool);
    lemma_run_keeps_consistency(start, requests);
}

/// The lifecycle, one request at a time: a request leaves the market's
/// status as it is, or takes an active market to `Resolved`. Once a market is
/// not active, its stakes, its pool and the amounts staked in its positions
/// stay as they are.
pub proof fn lemma_step_follows_lifecycle(ledger: Ledger, request: Request)
    ensures
        ledger.step(request).market.status == ledger.market.status || (ledger.market.status
            == MarketStatus::Active && ledger.step(request).market.status == MarketStatus::Resolved),
        ledger.market.status != MarketStatus::Active ==> {
            &&& ledger.step(request).market.stake_a == ledger.market.stake_a
            &&& ledger.step(request).market.stake_b == ledger.market.stake_b
            &&& ledger.step(request).pool == ledger.pool
            &&& ledger.step(request).shares == ledger.shares
        },
{
}

/// The lifecycle: no sequence of requests takes a market out of `Resolved`,
/// `Cancelled` or `Disputed`, nor moves the stakes or the pool of a market in
/// one of these states.
pub proof fn lemma_run_follows_lifecycle(ledger: Ledger, requests: Seq<Request>)
    requires
        ledger.market.status != MarketStatus::Active,
    ensures
        ledger.run(requests).market.status == ledger.market.status,
        ledger.run(requests).market.stake_a == ledger.market.stake_a,
        ledger.run(requests).market.stake_b == ledger.market.stake_b,
        ledger.run(requests).pool == ledger.pool,
        ledger.run(requests).shares == ledger.shares,
    decreases requests.len(),
{
    if requests.len() > 0 {
        lemma_run_follows_lifecycle(ledger, requests.drop_last());
        lemma_step_follows_lifecycle(ledger.run(requests.drop_last()), requests.last());
    }
}

/// A position that has been paid is dormant: in a consistent ledger no
/// request changes it, so what it has recorded as winnings stays what the
/// one successful claim paid.
pub proof fn lemma_paid_position_is_dormant(ledger: Ledger, i: int, request: Request)
    requires
        ledger.consistent(),
        0 <= i < ledger.bets.len(),
        ledger.bets[i].claimed,
    ensures
        i < ledger.step(request).bets.len(),
        ledger.step(request).bets[i] == ledger.bets[i],
{
    let paid = ledger.bets[i];
    assert(ledger.market.status == MarketStatus::Resolved);
    lemma_get_at(ledger.bets, bet_owner(), i);
    assert(bet_owner()(paid) == paid.user);
    match request {
        Request::Claim { user, vault_balance, now } => {
            if let Ok((after, _)) = ledger.claim_context(user, vault_balance).claim(now) {
                let bet = after.position->Some_0;
                assert(bet_owner()(bet) == user);
                assert(user != paid.user);
                lemma_put_existing(ledger.bets, bet_owner(), bet, paid_weight());
                let at = index_of(ledger.bets, bet_owner(), user);
                assert(bet_owner()(ledger.bets[at]) == user);
                assert(at != i);
            }
        },
        _ => {},
    }
}

/// In a consistent ledger a bet has room wherever the market's total stake
/// and its bet counter have: no position holds more than is staked on its
/// outcome. A bet that is in order is then accepted, and what is staked on
/// the market grows by exactly its amount.
pub proof fn lemma_bet_is_accepted(ledger: Ledger, bettor: Identity, balance: u64, outcome: u8, amount: u64, now: i64)
    requires
        ledger.consistent(),
        ledger.market.status == MarketStatus::Active,
        amount > 0,
        outcome == 0 || outcome == 1,
        balance >= amount,
        get(ledger.bets, bet_owner(), bettor) matches Some(bet) ==> bet.outcome == outcome,
        ledger.market.total_stake() + amount <= u64::MAX,
        ledger.market.total_bets + 1 <= u64::MAX,
    ensures
        ledger.stake_context(bettor, balance).has_room(amount),
        ledger.stake_context(bettor, balance).placement(outcome, amount, now) is Ok,
        ledger.stake_accepted(Request::Stake { bettor, balance, outcome, amount, now }) == amount,
        ledger.step(Request::Stake { bettor, balance, outcome, amount, now }).market.total_stake()
            == ledger.market.total_stake() + amount,
{
    if holds(ledger.bets, bet_owner(), bettor) {
        let i = index_of(ledger.bets, bet_owner(), bettor);
        assert forall|k: int| 0 <= k < ledger.bets.len() implies 0 <= stake_weight(outcome)(#[trigger] ledger.bets[k]) by {}
        lemma_total_covers_item(ledger.bets, stake_weight(outcome), i);
        assert(ledger.bets[i].amount <= ledger.market.stake(outcome));
    }
}

/// In a consistent ledger a share is worth one unit of recorded liquidity,
/// so a deposit mints one share per unit, and it has room wherever the
/// reserves, the share supply and the depositor's record of deposits have:
/// no provider holds more shares than are outstanding. A positive deposit
/// into the active market is then accepted.
pub proof fn lemma_deposit_is_accepted(ledger: Ledger, user: Identity, amount: u64, now: i64)
    requires
        ledger.consistent(),
        ledger.market.status == MarketStatus::Active,
        amount > 0,
        ledger.pool.total_reserves() <= u64::MAX,
        ledger.pool.reserve_a + deposit_to_a(amount, ledger.pool.reserve_a, ledger.pool.reserve_b) <= u64::MAX,
        ledger.pool.reserve_b + deposit_to_b(amount, ledger.pool.reserve_a, ledger.pool.reserve_b) <= u64::MAX,
        ledger.pool.total_supply + amount <= u64::MAX,
        ledger.deposit_context(user).held().1 + amount <= u64::MAX,
    ensures
        ledger.deposit_context(user).has_room(amount),
        ledger.deposit_context(user).deposit(amount, now) matches Ok((_, event)) && event.lp_tokens_minted == amount,
{
    let supply = ledger.pool.total_supply as int;
    if supply > 0 {
        vstd::arithmetic::div_mod::lemma_div_multiples_vanish(amount as int, supply);
        assert(amount * supply == supply * amount) by (nonlinear_arith);
    }
    if holds(ledger.shares, share_owner(), user) {
        lemma_shares_within_supply(ledger, index_of(ledger.shares, share_owner(), user));
    }
}

/// In a consistent ledger whose market is resolved, a position on the
/// winning outcome that has not been paid and is owed something is paid
/// exactly what it is owed, whenever the vault holds what the payout pool
/// has not yet paid.
pub proof fn lemma_claim_is_accepted(ledger: Ledger, user: Identity, vault_balance: u64, now: i64)
    requires
        ledger.consistent(),
        ledger.market.status == MarketStatus::Resolved,
        get(ledger.bets, bet_owner(), user) matches Some(bet) && !bet.claimed && ledger.market.winning_outcome
            == Some(bet.outcome) && due(ledger.market, bet) > 0,
        vault_balance + ledger.market.total_claimed >= ledger.market.total_payout_pool,
    ensures
        ledger.claim_context(user, vault_balance).claim(now) matches Ok((after, event)) && {
            &&& event.amount == due(ledger.market, get(ledger.bets, bet_owner(), user)->Some_0)
            &&& after.market.total_claimed == ledger.market.total_claimed + event.amount
            &&& after.position matches Some(paid) && paid.claimed && paid.winnings_claimed == event.amount
        },
{
    lemma_claim_is_covered(ledger, user, vault_balance, now);
    let i = index_of(ledger.bets, bet_owner(), user);
    assert(in_order(ledger.market, ledger.bets[i]));
    assert(bet_owner()(ledger.bets[i]) == user);
}

/// In a consistent ledger whose market is active, a provider redeems any
/// positive number of shares it holds, provided that they redeem to
/// something and the records of what was withdrawn and of the fees kept
/// have room: the pool's balance always covers the withdrawal, and the fee
/// never exceeds it.
pub proof fn lemma_withdrawal_is_accepted(ledger: Ledger, user: Identity, pool_balance: u64, liquidity_amount: u64, now: i64)
    requires
        ledger.consistent(),
        ledger.market.status == MarketStatus::Active,
        liquidity_amount > 0,
        get(ledger.shares, share_owner(), user) matches Some(position) && position.liquidity_provided
            >= liquidity_amount && {
            let gross = mul_div(liquidity_amount as int, pool_balance as int, ledger.pool.total_supply as int);
            let fee = mul_div(gross, ledger.pool.withdrawal_fee_rate as int, 10000);
            &&& gross > 0
            &&& position.total_withdrawn + gross - fee <= u64::MAX
            &&& ledger.pool.fee_collected + fee <= u64::MAX
        },
    ensures
        ({
            let position = get(ledger.shares, share_owner(), user)->Some_0;
            let gross = mul_div(liquidity_amount as int, pool_balance as int, ledger.pool.total_supply as int);
            let fee = mul_div(gross, ledger.pool.withdrawal_fee_rate as int, 10000);
            ledger.withdraw_context(position, pool_balance).withdrawal(liquidity_amount, now) matches Ok((after, event)) && {
                &&& 0 <= fee <= gross <= pool_balance
                &&& event.fee_amount == fee
                &&& event.withdrawal_amount == gross - fee
                &&& after.pool.total_supply == ledger.pool.total_supply - liquidity_amount
                &&& after.user_position.liquidity_provided == position.liquidity_provided - liquidity_amount
            }
        }),
{
    let i = index_of(ledger.shares, share_owner(), user);
    let position = ledger.shares[i];
    assert(share_owner()(position) == user);
    lemma_shares_within_supply(ledger, i);
    let supply = ledger.pool.total_supply as int;
    let gross = mul_div(liquidity_amount as int, pool_balance as int, supply);
    lemma_mul_div_bounded(liquidity_amount as int, pool_balance as int, supply);
    let rate = ledger.pool.withdrawal_fee_rate as int;
    lemma_mul_div_bounded(rate, gross, 10000);
    assert(gross * rate == rate * gross) by (nonlinear_arith);
}

} // verus!
