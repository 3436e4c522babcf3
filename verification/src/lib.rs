//! Settlement and accounting engine for binary prediction markets.
//!
//! A market is created active, takes stakes on two outcomes and liquidity
//! from providers while it is active, is resolved by its oracle at or after
//! its deadline, and then pays each winning position once. Every operation
//! takes the records it works on and the facts of its environment (the
//! caller, the time, the balances) as plain values, changes the records or
//! refuses and changes nothing, and hands back what the caller has to move
//! and to announce. Storing the records and moving value is the caller's
//! part.

pub mod authority;
pub mod error;
pub mod instructions;
pub mod ledger;
pub mod state;
pub mod store;
pub mod sums;
pub mod utils;

pub use authority::{SignedTransfer, derive_market_addresses, MarketAddresses};
pub use error::PredictionMarketError;
pub use instructions::{
    claim_winnings, create_market, initialize_market, place_bet, remove_liquidity, resolve_market,
    AddLiquidity, BetPlacedEvent, ClaimWinnings, CreateMarket, InitializeMarket,
    LiquidityAddedEvent, LiquidityRemovedEvent, MarketCreated, MarketResolvedEvent, PlaceBet,
    RemoveLiquidity, ResolveMarket, WinningsClaimedEvent,
};
pub use state::{Bet, GlobalState, Identity, LiquidityPool, Market, MarketStatus, UserPosition};
