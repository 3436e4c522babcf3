//! The failure kinds that market operations report.

use vstd::prelude::*;

verus! {

/// Why an operation was refused. Every refusal leaves all records untouched.
#[derive(Clone, Copy, Debug, PartialEq, Eq, Structural)]
pub enum PredictionMarketError {
    /// An amount or share count of zero was supplied.
    InvalidAmount,
    /// The market is not in the `Active` state.
    MarketNotActive,
    /// An addition, subtraction, multiplication, division or narrowing would
    /// have lost magnitude.
    MathOverflow,
    /// The outcome index does not name one of the two outcomes.
    InvalidOutcome,
    /// The caller's balance does not cover the stake.
    InsufficientFunds,
    /// The position is already bound to the other outcome.
    OutcomeMismatch,
    /// The position record belongs to another participant or market.
    InvalidPosition,
    /// The liquidity record belongs to another provider.
    InvalidUser,
    /// The provider holds fewer shares than requested.
    InsufficientLiquidity,
    /// The pool has no shares outstanding.
    NoLiquidityInPool,
    /// The shares redeem to nothing.
    InvalidWithdrawalAmount,
    /// The pool's balance does not cover the withdrawal.
    InsufficientPoolBalance,
    /// The caller is not the market's oracle.
    InvalidOracle,
    /// The resolution deadline has not been reached.
    MarketNotExpired,
    /// The market has already been resolved.
    MarketAlreadyResolved,
    /// The oracle's evidence is empty or longer than allowed.
    InvalidOracleData,
    /// The market has not been resolved.
    MarketNotResolved,
    /// The position has already been paid.
    AlreadyClaimed,
    /// The position is bound to the losing outcome.
    NotAWinner,
    /// Nothing is owed to the position.
    NoWinnings,
    /// The vault does not hold the payout.
    InsufficientVaultFunds,
    /// The resolution deadline is not in the future.
    InvalidResolutionTime,
    /// The question is longer than allowed.
    QuestionTooLong,
    /// The description is longer than allowed.
    DescriptionTooLong,
    /// The creator named itself as oracle.
    InvalidOracleAuthority,
    /// The fee rates do not leave a positive share of the pool.
    InvalidFeePercentage,
    /// No program address exists for the market's seeds.
    AddressDerivationFailed,
    /// The administrator has paused the engine.
    MarketPaused,
}

} // verus!
