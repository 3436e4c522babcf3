use prediction_market::error::PredictionMarketError;
use prediction_market::instructions::claim_winnings::{claim_winnings, ClaimWinnings};
use prediction_market::instructions::create_market::{create_market, CreateMarket};
use prediction_market::instructions::place_bet::{place_bet, PlaceBet};
use prediction_market::instructions::resolve_market::{resolve_market, ResolveMarket};
use prediction_market::state::{Bet, Identity, LiquidityPool, Market, MarketStatus};

fn creator() -> Identity {
    Identity::new([1u8; 32])
}

fn oracle() -> Identity {
    Identity::new([2u8; 32])
}

fn bettor_x() -> Identity {
    Identity::new([10u8; 32])
}

fn bettor_y() -> Identity {
    Identity::new([11u8; 32])
}

fn new_market(oracle_fee_bps: u16) -> (Market, LiquidityPool) {
    let ctx = CreateMarket { authority: creator(), program_id: Identity::new([7u8; 32]) };
    let (market, pool, _) = create_market(
        &ctx,
        1,
        String::from("A or B?"),
        String::from("A binary question"),
        100,
        oracle(),
        0,
        oracle_fee_bps,
        0,
    )
    .expect("market is created");
    (market, pool)
}

fn stake(market: &mut Market, bet: &mut Option<Bet>, bettor: Identity, outcome: u8, amount: u64, now: i64) -> Result<(), PredictionMarketError> {
    let mut ctx = PlaceBet { bettor, market: market.clone(), bet: *bet, bettor_balance: 1_000_000 };
    let event = place_bet(&mut ctx, outcome, amount, now)?;
    assert_eq!(event.amount, amount);
    *market = ctx.market;
    *bet = ctx.bet;
    Ok(())
}

#[test]
fn a_new_market_is_active_and_empty() {
    let ctx = CreateMarket { authority: creator(), program_id: Identity::new([7u8; 32]) };
    let (market, pool, event) = create_market(
        &ctx,
        9,
        String::from("A or B?"),
        String::from("A binary question"),
        100,
        oracle(),
        30,
        100,
        5,
    )
    .expect("market is created");
    assert_eq!(market.status, MarketStatus::Active);
    assert_eq!(market.authority, creator());
    assert_eq!(market.oracle, oracle());
    assert_eq!(market.market_id, 9);
    assert_eq!(market.question, "A or B?");
    assert_eq!(market.description, "A binary question");
    assert_eq!(market.creation_time, 5);
    assert_eq!(market.resolution_time, 100);
    assert_eq!((market.stake_a, market.stake_b, market.total_bets), (0, 0, 0));
    assert_eq!(market.total_liquidity, 0);
    assert_eq!((market.fee_rate, market.oracle_fee_bps), (30, 100));
    assert_eq!(market.winning_outcome, None);
    assert_eq!((market.total_payout_pool, market.winning_pool, market.total_claimed), (0, 0, 0));
    assert!(market.oracle_data.is_empty());
    assert_eq!(pool.market, market.address);
    assert_eq!((pool.total_supply, pool.reserve_a, pool.reserve_b, pool.fee_collected), (0, 0, 0, 0));
    assert_eq!(pool.withdrawal_fee_rate, 30);
    assert_eq!(event.market, market.address);
    assert_eq!(event.authority, creator());
    assert_eq!(event.market_id, 9);
    assert_eq!(event.question, "A or B?");
    assert_eq!((event.resolution_time, event.creation_time), (100, 5));
}

#[test]
fn scenario_two_bettors_one_winner() {
    let (mut market, _) = new_market(100);
    let mut x: Option<Bet> = None;
    let mut y: Option<Bet> = None;
    stake(&mut market, &mut x, bettor_x(), 0, 100, 10).expect("bet accepted");
    stake(&mut market, &mut y, bettor_y(), 1, 300, 20).expect("bet accepted");
    assert_eq!((market.stake_a, market.stake_b, market.total_bets), (100, 300, 2));

    let mut resolve = ResolveMarket { oracle: oracle(), market };
    let (event, fee_transfer) = resolve_market(&mut resolve, 0, vec![1, 2, 3], 100).expect("resolved");
    assert_eq!(event.oracle_fee, 4);
    assert_eq!(event.winning_pool, 100);
    assert_eq!(event.losing_pool, 300);
    assert_eq!(event.outcome, 0);
    assert_eq!(event.resolution_timestamp, 100);
    assert_eq!(fee_transfer.expect("a fee is due").amount, 4);
    let market = resolve.market;
    assert_eq!(market.status, MarketStatus::Resolved);
    assert_eq!(market.winning_outcome, Some(0));
    assert_eq!(market.total_payout_pool, 396);
    assert_eq!(market.winning_pool, 100);
    assert_eq!(market.resolution_timestamp, 100);
    assert_eq!(market.oracle_data, vec![1, 2, 3]);

    let mut claim_x = ClaimWinnings { user: bettor_x(), market: market.clone(), position: x, vault_balance: 396 };
    let (paid, transfer) = claim_winnings(&mut claim_x, 110).expect("winner is paid");
    assert_eq!(paid.amount, 396);
    assert_eq!(paid.outcome, 0);
    assert_eq!(paid.user, bettor_x());
    assert_eq!(paid.timestamp, 110);
    assert_eq!(transfer.amount, 396);
    assert_eq!(claim_x.market.total_claimed, 396);
    let position = claim_x.position.expect("position stays");
    assert!(position.claimed);
    assert_eq!(position.winnings_claimed, 396);

    let mut claim_y = ClaimWinnings { user: bettor_y(), market: claim_x.market.clone(), position: y, vault_balance: 0 };
    let before = claim_y.clone();
    assert_eq!(claim_winnings(&mut claim_y, 120).unwrap_err(), PredictionMarketError::NotAWinner);
    assert_eq!(claim_y, before);
}

#[test]
fn stakes_add_up_to_the_accepted_bets() {
    let (mut market, _) = new_market(0);
    let mut x: Option<Bet> = None;
    let mut y: Option<Bet> = None;
    let mut accepted = 0u64;
    for (who, outcome, amount) in [(0, 0u8, 5u64), (1, 1, 7), (0, 1, 9), (0, 0, 11), (1, 2, 3), (1, 1, 0), (1, 1, 13)] {
        let before = market.stake_a + market.stake_b;
        let (bet, bettor) = if who == 0 { (&mut x, bettor_x()) } else { (&mut y, bettor_y()) };
        if stake(&mut market, bet, bettor, outcome, amount, 1).is_ok() {
            accepted += amount;
        }
        assert!(market.stake_a + market.stake_b >= before);
        assert_eq!(market.stake_a + market.stake_b, accepted);
    }
    assert_eq!(accepted, 5 + 7 + 11 + 13);
    assert_eq!((market.stake_a, market.stake_b), (16, 20));
    assert_eq!(x.expect("x has a position").amount, 16);
    assert_eq!(y.expect("y has a position").amount, 20);
    assert_eq!(market.total_bets, 4);
}

#[test]
fn a_second_claim_is_refused() {
    let (mut market, _) = new_market(0);
    let mut x: Option<Bet> = None;
    stake(&mut market, &mut x, bettor_x(), 1, 50, 10).expect("bet accepted");
    let mut resolve = ResolveMarket { oracle: oracle(), market };
    resolve_market(&mut resolve, 1, vec![9], 100).expect("resolved");
    let mut claim = ClaimWinnings { user: bettor_x(), market: resolve.market, position: x, vault_balance: 50 };
    let (paid, _) = claim_winnings(&mut claim, 101).expect("first claim is paid");
    assert_eq!(paid.amount, 50);
    claim.vault_balance = 1_000;
    let before = claim.clone();
    assert_eq!(claim_winnings(&mut claim, 102).unwrap_err(), PredictionMarketError::AlreadyClaimed);
    assert_eq!(claim, before);
    assert_eq!(claim.position.expect("position stays").winnings_claimed, 50);
    assert_eq!(claim.market.total_claimed, 50);
}

#[test]
fn payouts_stay_within_the_pool() {
    let (mut market, _) = new_market(250);
    let bettors: Vec<Identity> = (0..5u8).map(|i| Identity::new([20 + i; 32])).collect();
    let amounts = [3u64, 7, 11, 13, 17];
    let mut positions: Vec<Option<Bet>> = vec![None; 5];
    for i in 0..5 {
        stake(&mut market, &mut positions[i], bettors[i], 0, amounts[i], 1).expect("bet accepted");
    }
    let mut loser: Option<Bet> = None;
    stake(&mut market, &mut loser, bettor_y(), 1, 1000, 2).expect("bet accepted");
    let mut resolve = ResolveMarket { oracle: oracle(), market };
    let (event, _) = resolve_market(&mut resolve, 0, vec![1], 100).expect("resolved");
    assert_eq!(event.oracle_fee, 1051 * 250 / 10000);
    let mut market = resolve.market;
    assert_eq!(market.total_payout_pool, 1051 - 26);
    let mut paid_total = 0u64;
    for i in 0..5 {
        let mut claim = ClaimWinnings {
            user: bettors[i],
            market: market.clone(),
            position: positions[i],
            vault_balance: market.total_payout_pool - market.total_claimed,
        };
        let (paid, _) = claim_winnings(&mut claim, 101).expect("winner is paid");
        assert_eq!(paid.amount, amounts[i] * 1025 / 51);
        paid_total += paid.amount;
        market = claim.market;
        assert_eq!(market.total_claimed, paid_total);
        assert!(market.total_claimed <= market.total_payout_pool);
    }
    assert!(paid_total <= 1025);
}

#[test]
fn a_bet_on_the_other_outcome_is_refused() {
    let (mut market, _) = new_market(0);
    let mut x: Option<Bet> = None;
    stake(&mut market, &mut x, bettor_x(), 0, 40, 1).expect("bet accepted");
    let mut ctx = PlaceBet { bettor: bettor_x(), market, bet: x, bettor_balance: 500 };
    let before = ctx.clone();
    assert_eq!(place_bet(&mut ctx, 1, 10, 2).unwrap_err(), PredictionMarketError::OutcomeMismatch);
    assert_eq!(ctx, before);
    let event = place_bet(&mut ctx, 0, 10, 3).expect("same outcome is accepted");
    assert_eq!(event.outcome, 0);
    let bet = ctx.bet.expect("position stays");
    assert_eq!((bet.amount, bet.outcome, bet.timestamp), (50, 0, 1));
    assert_eq!((ctx.market.stake_a, ctx.market.stake_b), (50, 0));
}

#[test]
fn a_first_bet_creates_the_position() {
    let (market, _) = new_market(0);
    let address = market.address;
    let mut ctx = PlaceBet { bettor: bettor_x(), market, bet: None, bettor_balance: 25 };
    let event = place_bet(&mut ctx, 1, 25, 7).expect("bet accepted");
    assert_eq!((event.market, event.bettor, event.outcome, event.amount, event.timestamp), (address, bettor_x(), 1, 25, 7));
    assert_eq!(
        ctx.bet,
        Some(Bet { user: bettor_x(), market: address, outcome: 1, amount: 25, claimed: false, winnings_claimed: 0, timestamp: 7 })
    );
    assert_eq!(ctx.bettor_balance, 25);
}

#[test]
fn resolution_without_a_fee_orders_no_transfer() {
    let (mut market, _) = new_market(0);
    let mut x: Option<Bet> = None;
    stake(&mut market, &mut x, bettor_x(), 0, 40, 1).expect("bet accepted");
    let mut resolve = ResolveMarket { oracle: oracle(), market };
    let (event, fee_transfer) = resolve_market(&mut resolve, 1, vec![0], 100).expect("resolved");
    assert_eq!(event.oracle_fee, 0);
    assert!(fee_transfer.is_none());
    assert_eq!((event.winning_pool, event.losing_pool), (0, 40));
    assert_eq!(resolve.market.total_payout_pool, 40);
    assert_eq!(resolve.market.winning_pool, 0);
}

#[test]
fn a_small_fee_rounds_down_to_nothing() {
    let (mut market, _) = new_market(100);
    let mut x: Option<Bet> = None;
    stake(&mut market, &mut x, bettor_x(), 0, 99, 1).expect("bet accepted");
    let mut resolve = ResolveMarket { oracle: oracle(), market };
    let (event, fee_transfer) = resolve_market(&mut resolve, 0, vec![0], 100).expect("resolved");
    assert_eq!(event.oracle_fee, 0);
    assert!(fee_transfer.is_none());
    assert_eq!(resolve.market.total_payout_pool, 99);
}
