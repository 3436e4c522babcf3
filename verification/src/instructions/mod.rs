//! The operations on a market, one per file.

pub mod add_liquidity;
pub mod claim_winnings;
pub mod create_market;
pub mod place_bet;
pub mod remove_liquidity;
pub mod resolve_market;

pub use add_liquidity::{AddLiquidity, LiquidityAddedEvent};
pub use claim_winnings::{claim_winnings, ClaimWinnings, WinningsClaimedEvent};
pub use create_market::{create_market, initialize_market, CreateMarket, InitializeMarket, MarketCreated};
pub use place_bet::{place_bet, BetPlacedEvent, PlaceBet};
pub use remove_liquidity::{remove_liquidity, LiquidityRemovedEvent, RemoveLiquidity};
pub use resolve_market::{resolve_market, MarketResolvedEvent, ResolveMarket};
