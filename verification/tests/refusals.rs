use prediction_market::error::PredictionMarketError;
use prediction_market::instructions::add_liquidity::AddLiquidity;
use prediction_market::instructions::claim_winnings::{claim_winnings, ClaimWinnings};
use prediction_market::authority::MarketAddresses;
use prediction_market::instructions::create_market::{create_market, initialize_market, CreateMarket, InitializeMarket};
use prediction_market::instructions::place_bet::{place_bet, PlaceBet};
use prediction_market::instructions::remove_liquidity::{remove_liquidity, RemoveLiquidity};
use prediction_market::instructions::resolve_market::{resolve_market, ResolveMarket};
use prediction_market::state::{Bet, GlobalState, Identity, LiquidityPool, Market, MarketStatus, UserPosition};

fn creator() -> Identity {
    Identity::new([1u8; 32])
}

fn oracle() -> Identity {
    Identity::new([2u8; 32])
}

fn user() -> Identity {
    Identity::new([10u8; 32])
}

fn stranger() -> Identity {
    Identity::new([99u8; 32])
}

fn create(question: &str, description: &str, resolution_time: i64, oracle: Identity, fee_rate: u16, oracle_fee_bps: u16, now: i64) -> Result<(Market, LiquidityPool), PredictionMarketError> {
    let ctx = CreateMarket { authority: creator(), program_id: Identity::new([7u8; 32]) };
    create_market(&ctx, 5, String::from(question), String::from(description), resolution_time, oracle, fee_rate, oracle_fee_bps, now)
        .map(|(market, pool, _)| (market, pool))
}

fn new_market() -> (Market, LiquidityPool) {
    create("A or B?", "A binary question", 100, oracle(), 30, 100, 0).expect("market is created")
}

fn position(market: &Market, outcome: u8, amount: u64) -> Bet {
    Bet { user: user(), market: market.address, outcome, amount, claimed: false, winnings_claimed: 0, timestamp: 1 }
}

fn resolved_market(stake_a: u64, stake_b: u64, outcome: u8) -> Market {
    let (mut market, _) = new_market();
    market.stake_a = stake_a;
    market.stake_b = stake_b;
    let mut ctx = ResolveMarket { oracle: oracle(), market };
    resolve_market(&mut ctx, outcome, vec![1], 100).expect("resolved");
    ctx.market
}

fn refused_bet(ctx: &mut PlaceBet, outcome: u8, amount: u64) -> PredictionMarketError {
    let before = ctx.clone();
    let reason = place_bet(ctx, outcome, amount, 1).unwrap_err();
    assert_eq!(*ctx, before);
    reason
}

fn refused_claim(ctx: &mut ClaimWinnings) -> PredictionMarketError {
    let before = ctx.clone();
    let reason = claim_winnings(ctx, 200).unwrap_err();
    assert_eq!(*ctx, before);
    reason
}

fn refused_resolution(ctx: &mut ResolveMarket, outcome: u8, evidence: Vec<u8>, now: i64) -> PredictionMarketError {
    let before = ctx.clone();
    let reason = resolve_market(ctx, outcome, evidence, now).unwrap_err();
    assert_eq!(*ctx, before);
    reason
}

fn refused_withdrawal(ctx: &mut RemoveLiquidity, shares: u64) -> PredictionMarketError {
    let before = ctx.clone();
    let reason = remove_liquidity(ctx, shares, 1).unwrap_err();
    assert_eq!(*ctx, before);
    reason
}

fn withdrawal_ctx(held: u64, supply: u64, liquidity: u64, pool_balance: u64) -> RemoveLiquidity {
    let (mut market, mut pool) = new_market();
    market.total_liquidity = liquidity;
    pool.total_supply = supply;
    let user_position = UserPosition {
        user: user(),
        market: market.address,
        liquidity_provided: held,
        total_deposited: held,
        total_withdrawn: 0,
        last_update_time: 0,
    };
    RemoveLiquidity { user: user(), market, pool, user_position, pool_balance }
}

#[test]
fn creation_refusals() {
    assert_eq!(create("q", "d", 100, oracle(), 0, 0, 100).unwrap_err(), PredictionMarketError::InvalidResolutionTime);
    assert_eq!(create("q", "d", 99, oracle(), 0, 0, 100).unwrap_err(), PredictionMarketError::InvalidResolutionTime);
    assert_eq!(create(&"q".repeat(201), "d", 100, oracle(), 0, 0, 0).unwrap_err(), PredictionMarketError::QuestionTooLong);
    assert_eq!(create("q", &"d".repeat(501), 100, oracle(), 0, 0, 0).unwrap_err(), PredictionMarketError::DescriptionTooLong);
    assert_eq!(create("q", "d", 100, creator(), 0, 0, 0).unwrap_err(), PredictionMarketError::InvalidOracleAuthority);
    assert_eq!(create("q", "d", 100, oracle(), 9000, 1000, 0).unwrap_err(), PredictionMarketError::InvalidFeePercentage);
    assert_eq!(create("q", "d", 100, oracle(), 0, 10000, 0).unwrap_err(), PredictionMarketError::InvalidFeePercentage);
    assert_eq!(create("q", "d", 100, oracle(), u16::MAX, u16::MAX, 0).unwrap_err(), PredictionMarketError::InvalidFeePercentage);
}

#[test]
fn creation_accepts_the_limits() {
    assert!(create(&"q".repeat(200), &"d".repeat(500), 101, oracle(), 9000, 999, 100).is_ok());
    assert!(create("", "", i64::MAX, oracle(), 0, 0, i64::MIN).is_ok());
}

#[test]
fn text_length_counts_bytes() {
    let two_byte_char = "\u{e9}";
    assert!(create(&two_byte_char.repeat(100), "d", 100, oracle(), 0, 0, 0).is_ok());
    assert_eq!(
        create(&two_byte_char.repeat(101), "d", 100, oracle(), 0, 0, 0).unwrap_err(),
        PredictionMarketError::QuestionTooLong
    );
}

#[test]
fn creation_refusals_come_in_order() {
    assert_eq!(
        create(&"q".repeat(201), &"d".repeat(501), 0, creator(), 9999, 9999, 0).unwrap_err(),
        PredictionMarketError::InvalidResolutionTime
    );
    assert_eq!(
        create(&"q".repeat(201), &"d".repeat(501), 1, creator(), 9999, 9999, 0).unwrap_err(),
        PredictionMarketError::QuestionTooLong
    );
    assert_eq!(
        create("q", &"d".repeat(501), 1, creator(), 9999, 9999, 0).unwrap_err(),
        PredictionMarketError::DescriptionTooLong
    );
    assert_eq!(create("q", "d", 1, creator(), 9999, 9999, 0).unwrap_err(), PredictionMarketError::InvalidOracleAuthority);
}

#[test]
fn bet_refusals() {
    let (market, _) = new_market();
    let mut ctx = PlaceBet { bettor: user(), market: market.clone(), bet: None, bettor_balance: 100 };
    assert_eq!(refused_bet(&mut ctx, 0, 0), PredictionMarketError::InvalidAmount);
    assert_eq!(refused_bet(&mut ctx, 2, 10), PredictionMarketError::InvalidOutcome);
    assert_eq!(refused_bet(&mut ctx, 255, 10), PredictionMarketError::InvalidOutcome);
    assert_eq!(refused_bet(&mut ctx, 0, 101), PredictionMarketError::InsufficientFunds);
    ctx.bet = Some(position(&market, 1, 5));
    assert_eq!(refused_bet(&mut ctx, 0, 10), PredictionMarketError::OutcomeMismatch);
    for status in [MarketStatus::Resolved, MarketStatus::Cancelled, MarketStatus::Disputed] {
        ctx.market.status = status;
        assert_eq!(refused_bet(&mut ctx, 1, 10), PredictionMarketError::MarketNotActive);
    }
}

#[test]
fn bet_refusals_come_in_order() {
    let (mut market, _) = new_market();
    market.status = MarketStatus::Cancelled;
    let bet = Some(position(&market, 1, 5));
    let mut ctx = PlaceBet { bettor: user(), market, bet, bettor_balance: 0 };
    assert_eq!(refused_bet(&mut ctx, 2, 0), PredictionMarketError::MarketNotActive);
    ctx.market.status = MarketStatus::Active;
    assert_eq!(refused_bet(&mut ctx, 2, 0), PredictionMarketError::InvalidAmount);
    assert_eq!(refused_bet(&mut ctx, 2, 1), PredictionMarketError::InvalidOutcome);
    assert_eq!(refused_bet(&mut ctx, 0, 1), PredictionMarketError::InsufficientFunds);
    ctx.bettor_balance = 1;
    assert_eq!(refused_bet(&mut ctx, 0, 1), PredictionMarketError::OutcomeMismatch);
}

#[test]
fn bet_overflows() {
    let (mut market, _) = new_market();
    market.stake_a = u64::MAX - 5;
    let mut ctx = PlaceBet { bettor: user(), market: market.clone(), bet: None, bettor_balance: u64::MAX };
    assert_eq!(refused_bet(&mut ctx, 0, 6), PredictionMarketError::MathOverflow);
    assert_eq!(refused_bet(&mut ctx, 1, 6), PredictionMarketError::MathOverflow);
    assert!(place_bet(&mut ctx, 1, 5, 1).is_ok());

    market.stake_a = 0;
    let mut ctx = PlaceBet {
        bettor: user(),
        market: market.clone(),
        bet: Some(position(&market, 0, u64::MAX)),
        bettor_balance: u64::MAX,
    };
    assert_eq!(refused_bet(&mut ctx, 0, 1), PredictionMarketError::MathOverflow);

    market.total_bets = u64::MAX;
    let mut ctx = PlaceBet { bettor: user(), market, bet: None, bettor_balance: u64::MAX };
    assert_eq!(refused_bet(&mut ctx, 0, 1), PredictionMarketError::MathOverflow);
}

#[test]
fn resolution_refusals() {
    let (market, _) = new_market();
    let mut ctx = ResolveMarket { oracle: stranger(), market: market.clone() };
    assert_eq!(refused_resolution(&mut ctx, 0, vec![1], 100), PredictionMarketError::InvalidOracle);
    ctx.oracle = creator();
    assert_eq!(refused_resolution(&mut ctx, 0, vec![1], 100), PredictionMarketError::InvalidOracle);
    ctx.oracle = oracle();
    assert_eq!(refused_resolution(&mut ctx, 0, vec![1], 99), PredictionMarketError::MarketNotExpired);
    assert_eq!(refused_resolution(&mut ctx, 2, vec![1], 100), PredictionMarketError::InvalidOutcome);
    assert_eq!(refused_resolution(&mut ctx, 0, vec![], 100), PredictionMarketError::InvalidOracleData);
    assert_eq!(refused_resolution(&mut ctx, 0, vec![0; 257], 100), PredictionMarketError::InvalidOracleData);
    assert_eq!(refused_resolution(&mut ctx, 0, vec![0; 100_000], 100), PredictionMarketError::InvalidOracleData);
    ctx.market.status = MarketStatus::Cancelled;
    assert_eq!(refused_resolution(&mut ctx, 0, vec![1], 100), PredictionMarketError::MarketNotActive);
    ctx.market.status = MarketStatus::Disputed;
    assert_eq!(refused_resolution(&mut ctx, 0, vec![1], 100), PredictionMarketError::MarketNotActive);
    ctx.market.status = MarketStatus::Active;
    assert!(resolve_market(&mut ctx, 1, vec![0; 256], 100).is_ok());
    assert_eq!(refused_resolution(&mut ctx, 1, vec![1], 101), PredictionMarketError::MarketAlreadyResolved);
}

#[test]
fn resolution_refusals_come_in_order() {
    let (mut market, _) = new_market();
    market.status = MarketStatus::Resolved;
    let mut ctx = ResolveMarket { oracle: stranger(), market };
    assert_eq!(refused_resolution(&mut ctx, 9, vec![], 0), PredictionMarketError::InvalidOracle);
    ctx.oracle = oracle();
    assert_eq!(refused_resolution(&mut ctx, 9, vec![], 0), PredictionMarketError::MarketNotExpired);
    assert_eq!(refused_resolution(&mut ctx, 9, vec![], 100), PredictionMarketError::MarketAlreadyResolved);
    ctx.market.status = MarketStatus::Active;
    assert_eq!(refused_resolution(&mut ctx, 9, vec![], 100), PredictionMarketError::InvalidOutcome);
    assert_eq!(refused_resolution(&mut ctx, 1, vec![], 100), PredictionMarketError::InvalidOracleData);
}

#[test]
fn resolution_overflows() {
    let (mut market, _) = new_market();
    market.stake_a = u64::MAX;
    market.stake_b = 1;
    let mut ctx = ResolveMarket { oracle: oracle(), market };
    assert_eq!(refused_resolution(&mut ctx, 0, vec![1], 100), PredictionMarketError::MathOverflow);
    ctx.market.stake_b = 0;
    ctx.market.oracle_fee_bps = 10001;
    assert_eq!(refused_resolution(&mut ctx, 0, vec![1], 100), PredictionMarketError::MathOverflow);
    ctx.market.stake_a = 10000;
    assert_eq!(refused_resolution(&mut ctx, 0, vec![1], 100), PredictionMarketError::MathOverflow);
}

#[test]
fn claim_refusals() {
    let (active, _) = new_market();
    let mut ctx = ClaimWinnings { user: user(), market: active.clone(), position: Some(position(&active, 0, 10)), vault_balance: 100 };
    assert_eq!(refused_claim(&mut ctx), PredictionMarketError::MarketNotResolved);

    let market = resolved_market(100, 300, 0);
    let mut ctx = ClaimWinnings { user: user(), market: market.clone(), position: None, vault_balance: 1000 };
    assert_eq!(refused_claim(&mut ctx), PredictionMarketError::InvalidPosition);
    ctx.position = Some(Bet { user: stranger(), ..position(&market, 0, 10) });
    assert_eq!(refused_claim(&mut ctx), PredictionMarketError::InvalidPosition);
    ctx.position = Some(Bet { market: stranger(), ..position(&market, 0, 10) });
    assert_eq!(refused_claim(&mut ctx), PredictionMarketError::InvalidPosition);
    ctx.position = Some(Bet { claimed: true, winnings_claimed: 39, ..position(&market, 0, 10) });
    assert_eq!(refused_claim(&mut ctx), PredictionMarketError::AlreadyClaimed);
    ctx.position = Some(position(&market, 1, 10));
    assert_eq!(refused_claim(&mut ctx), PredictionMarketError::NotAWinner);
    ctx.position = Some(position(&market, 0, 0));
    assert_eq!(refused_claim(&mut ctx), PredictionMarketError::NoWinnings);
    ctx.position = Some(position(&market, 0, 10));
    ctx.vault_balance = 38;
    assert_eq!(refused_claim(&mut ctx), PredictionMarketError::InsufficientVaultFunds);
    ctx.vault_balance = 39;
    ctx.market.total_claimed = u64::MAX - 38;
    assert_eq!(refused_claim(&mut ctx), PredictionMarketError::MathOverflow);
    ctx.market.total_claimed = 0;
    let (paid, _) = claim_winnings(&mut ctx, 200).expect("winner is paid");
    assert_eq!(paid.amount, 39);
}

#[test]
fn claim_on_an_empty_winning_pool() {
    let market = resolved_market(0, 300, 0);
    assert_eq!(market.winning_pool, 0);
    let mut ctx = ClaimWinnings { user: user(), market: market.clone(), position: Some(position(&market, 0, 10)), vault_balance: 1000 };
    assert_eq!(refused_claim(&mut ctx), PredictionMarketError::NoWinnings);
}

#[test]
fn claim_that_does_not_fit() {
    let mut market = resolved_market(1, 300, 0);
    market.total_payout_pool = u64::MAX;
    let mut ctx = ClaimWinnings { user: user(), market: market.clone(), position: Some(position(&market, 0, 2)), vault_balance: u64::MAX };
    assert_eq!(refused_claim(&mut ctx), PredictionMarketError::MathOverflow);
}

#[test]
fn deposit_refusals() {
    let (market, pool) = new_market();
    let mut ctx = AddLiquidity { user: user(), market, pool, liquidity_provider: None };
    let before = ctx.clone();
    assert_eq!(ctx.add_liquidity(0, 1).unwrap_err(), PredictionMarketError::InvalidAmount);
    assert_eq!(ctx, before);
    for status in [MarketStatus::Resolved, MarketStatus::Cancelled, MarketStatus::Disputed] {
        ctx.market.status = status;
        let before = ctx.clone();
        assert_eq!(ctx.add_liquidity(0, 1).unwrap_err(), PredictionMarketError::MarketNotActive);
        assert_eq!(ctx.add_liquidity(5, 1).unwrap_err(), PredictionMarketError::MarketNotActive);
        assert_eq!(ctx, before);
    }
}

#[test]
fn deposit_overflows() {
    let (market, pool) = new_market();
    let mut ctx = AddLiquidity { user: user(), market, pool, liquidity_provider: None };
    ctx.pool.reserve_a = u64::MAX;
    ctx.pool.reserve_b = 1;
    let before = ctx.clone();
    assert_eq!(ctx.add_liquidity(5, 1).unwrap_err(), PredictionMarketError::MathOverflow);
    assert_eq!(ctx, before);

    ctx.pool.reserve_a = 0;
    ctx.pool.reserve_b = 0;
    ctx.pool.total_supply = 10;
    ctx.market.total_liquidity = 0;
    let before = ctx.clone();
    assert_eq!(ctx.add_liquidity(5, 1).unwrap_err(), PredictionMarketError::MathOverflow);
    assert_eq!(ctx, before);

    ctx.market.total_liquidity = u64::MAX;
    ctx.pool.total_supply = u64::MAX;
    let before = ctx.clone();
    assert_eq!(ctx.add_liquidity(5, 1).unwrap_err(), PredictionMarketError::MathOverflow);
    assert_eq!(ctx, before);
}

#[test]
fn withdrawal_refusals() {
    let mut ctx = withdrawal_ctx(50, 100, 100, 100);
    ctx.user = stranger();
    assert_eq!(refused_withdrawal(&mut ctx, 10), PredictionMarketError::InvalidUser);
    ctx.user = user();
    assert_eq!(refused_withdrawal(&mut ctx, 0), PredictionMarketError::InvalidAmount);
    assert_eq!(refused_withdrawal(&mut ctx, 51), PredictionMarketError::InsufficientLiquidity);
    ctx.market.status = MarketStatus::Resolved;
    assert_eq!(refused_withdrawal(&mut ctx, 10), PredictionMarketError::MarketNotActive);

    let mut ctx = withdrawal_ctx(50, 0, 100, 100);
    assert_eq!(refused_withdrawal(&mut ctx, 10), PredictionMarketError::NoLiquidityInPool);
    let mut ctx = withdrawal_ctx(50, 100, 0, 100);
    assert_eq!(refused_withdrawal(&mut ctx, 10), PredictionMarketError::NoLiquidityInPool);
    let mut ctx = withdrawal_ctx(50, 100, 100, 1);
    assert_eq!(refused_withdrawal(&mut ctx, 10), PredictionMarketError::InvalidWithdrawalAmount);
    let mut ctx = withdrawal_ctx(50, 100, 100, 0);
    assert_eq!(refused_withdrawal(&mut ctx, 10), PredictionMarketError::InvalidWithdrawalAmount);
    let mut ctx = withdrawal_ctx(20, 10, 100, 5);
    assert_eq!(refused_withdrawal(&mut ctx, 20), PredictionMarketError::InsufficientPoolBalance);
}

#[test]
fn withdrawal_refusals_come_in_order() {
    let mut ctx = withdrawal_ctx(5, 0, 0, 0);
    ctx.user = stranger();
    ctx.market.status = MarketStatus::Cancelled;
    assert_eq!(refused_withdrawal(&mut ctx, 0), PredictionMarketError::MarketNotActive);
    ctx.market.status = MarketStatus::Active;
    assert_eq!(refused_withdrawal(&mut ctx, 0), PredictionMarketError::InvalidUser);
    ctx.user = user();
    assert_eq!(refused_withdrawal(&mut ctx, 0), PredictionMarketError::InvalidAmount);
    assert_eq!(refused_withdrawal(&mut ctx, 6), PredictionMarketError::InsufficientLiquidity);
    assert_eq!(refused_withdrawal(&mut ctx, 5), PredictionMarketError::NoLiquidityInPool);
}

#[test]
fn withdrawal_overflows() {
    let mut ctx = withdrawal_ctx(u64::MAX, 1, u64::MAX, u64::MAX);
    assert_eq!(refused_withdrawal(&mut ctx, 2), PredictionMarketError::MathOverflow);
    let mut ctx = withdrawal_ctx(50, 100, 100, 40000);
    ctx.pool.withdrawal_fee_rate = 10001;
    assert_eq!(refused_withdrawal(&mut ctx, 50), PredictionMarketError::MathOverflow);
    let mut ctx = withdrawal_ctx(50, 100, 49, 100);
    assert_eq!(refused_withdrawal(&mut ctx, 50), PredictionMarketError::MathOverflow);
    let mut ctx = withdrawal_ctx(50, 100, 100, 100);
    ctx.user_position.total_withdrawn = u64::MAX;
    assert_eq!(refused_withdrawal(&mut ctx, 50), PredictionMarketError::MathOverflow);
    let mut ctx = withdrawal_ctx(50, 100, 100, 100);
    ctx.pool.withdrawal_fee_rate = 5000;
    ctx.pool.fee_collected = u64::MAX;
    assert_eq!(refused_withdrawal(&mut ctx, 50), PredictionMarketError::MathOverflow);
}

#[test]
fn the_pause_is_a_gate() {
    let mut global = GlobalState {
        authority: creator(),
        total_markets: 0,
        total_volume: 0,
        total_fees_collected: 0,
        platform_fee_rate: 30,
        min_resolution_time: 0,
        max_resolution_time: 0,
        is_paused: false,
    };
    assert_eq!(global.ensure_running(), Ok(()));
    global.is_paused = true;
    assert_eq!(global.ensure_running(), Err(PredictionMarketError::MarketPaused));
}

fn initialization(creation_time: i64) -> InitializeMarket {
    InitializeMarket {
        authority: creator(),
        addresses: MarketAddresses {
            market: Identity::new([50u8; 32]),
            bump: 254,
            vault_bump: 253,
            authority_bump: 252,
            pool_bump: 251,
        },
        creation_time,
        fee_rate: 30,
        oracle_fee_bps: 100,
    }
}

fn initialize(creation_time: i64, end_time: i64, oracle: Identity) -> Result<(Market, LiquidityPool), PredictionMarketError> {
    initialize_market(&initialization(creation_time), 8, String::from("A or B?"), String::from("d"), end_time, oracle)
}

#[test]
fn initialization_refusals() {
    assert_eq!(initialize(100, 100, oracle()).unwrap_err(), PredictionMarketError::InvalidResolutionTime);
    assert_eq!(initialize(100, 99, oracle()).unwrap_err(), PredictionMarketError::InvalidResolutionTime);
    assert_eq!(initialize(i64::MAX, i64::MIN, oracle()).unwrap_err(), PredictionMarketError::InvalidResolutionTime);
    assert_eq!(initialize(100, 101, creator()).unwrap_err(), PredictionMarketError::InvalidOracleAuthority);
    assert_eq!(initialize(100, 100, creator()).unwrap_err(), PredictionMarketError::InvalidResolutionTime);
}

#[test]
fn initialization_builds_an_active_empty_market() {
    let (market, pool) = initialize(100, 101, oracle()).expect("records are built");
    assert_eq!(market.status, MarketStatus::Active);
    assert_eq!(market.address, Identity::new([50u8; 32]));
    assert_eq!((market.authority, market.oracle), (creator(), oracle()));
    assert_eq!((market.market_id, market.creation_time, market.resolution_time), (8, 100, 101));
    assert_eq!(market.question, "A or B?");
    assert_eq!(market.description, "d");
    assert_eq!((market.stake_a, market.stake_b, market.total_bets, market.total_liquidity), (0, 0, 0, 0));
    assert_eq!((market.fee_rate, market.oracle_fee_bps), (30, 100));
    assert_eq!(market.winning_outcome, None);
    assert_eq!(market.resolution_timestamp, 0);
    assert!(market.oracle_data.is_empty());
    assert_eq!((market.total_payout_pool, market.winning_pool, market.total_claimed), (0, 0, 0));
    assert_eq!((market.bump, market.vault_bump, market.authority_bump), (254, 253, 252));
    assert_eq!(
        pool,
        LiquidityPool {
            market: Identity::new([50u8; 32]),
            total_supply: 0,
            reserve_a: 0,
            reserve_b: 0,
            fee_collected: 0,
            withdrawal_fee_rate: 30,
            bump: 251,
        }
    );
}

#[test]
fn evidence_of_one_and_of_the_longest_length_is_accepted() {
    for length in [1usize, 256] {
        let (market, _) = new_market();
        let mut ctx = ResolveMarket { oracle: oracle(), market };
        let (_, _) = resolve_market(&mut ctx, 0, vec![7; length], 100).expect("resolved");
        assert_eq!(ctx.market.oracle_data.len(), length);
        assert_eq!(ctx.market.status, MarketStatus::Resolved);
    }
}
