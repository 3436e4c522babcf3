//! Creating a market: validation, address derivation and the initial records.

use vstd::prelude::*;
use crate::authority::{derive_market_addresses, market_addresses, MarketAddresses};
use crate::error::PredictionMarketError;
use crate::state::{
    Identity, LiquidityPool, Market, MarketStatus, MAX_DESCRIPTION_LEN, MAX_QUESTION_LEN,
};

verus! {

/// Who creates a market, and under which program its addresses are derived.
#[derive(Clone, Copy, Debug, PartialEq, Eq)]
pub struct CreateMarket {
    /// The creator.
    pub authority: Identity,
    pub program_id: Identity,
}

/// What a new market's records are built from, once the request has been
/// validated and the addresses derived.
#[derive(Clone, Copy, Debug, PartialEq, Eq)]
pub struct InitializeMarket {
    /// The creator.
    pub authority: Identity,
    pub addresses: MarketAddresses,
    pub creation_time: i64,
    pub fee_rate: u16,
    pub oracle_fee_bps: u16,
}

/// Tells observers that a market exists.
#[derive(Clone, Debug, PartialEq, Eq)]
pub struct MarketCreated {
    pub market: Identity,
    pub authority: Identity,
    pub market_id: u64,
    pub question: String,
    pub resolution_time: i64,
    pub creation_time: i64,
}

/// The length of a text in bytes.
pub open spec fn byte_len(text: Seq<char>) -> nat {
    vstd::utf8::encode_utf8(text).len()
}

/// Whether `market` is a new market: active, nothing staked, nothing
/// provided, no outcome and no evidence.
pub open spec fn is_initial_market(
    market: Market,
    ctx: InitializeMarket,
    market_id: u64,
    question: String,
    description: String,
    end_time: i64,
    oracle: Identity,
) -> bool {
    &&& market.oracle_data@.len() == 0
    &&& market == Market {
        address: ctx.addresses.market,
        authority: ctx.authority,
        oracle,
        market_id,
        question,
        description,
        creation_time: ctx.creation_time,
        resolution_time: end_time,
        stake_a: 0,
        stake_b: 0,
        total_bets: 0,
        total_liquidity: 0,
        fee_rate: ctx.fee_rate,
        oracle_fee_bps: ctx.oracle_fee_bps,
        status: MarketStatus::Active,
        winning_outcome: None,
        resolution_timestamp: 0,
        total_payout_pool: 0,
        winning_pool: 0,
        total_claimed: 0,
        bump: ctx.addresses.bump,
        vault_bump: ctx.addresses.vault_bump,
        authority_bump: ctx.addresses.authority_bump,
        ..market
    }
}

/// A new market's pool: empty reserves, no shares, the platform fee on exit.
pub open spec fn initial_pool(ctx: InitializeMarket) -> LiquidityPool {
    LiquidityPool {
        market: ctx.addresses.market,
        total_supply: 0,
        reserve_a: 0,
        reserve_b: 0,
        fee_collected: 0,
        withdrawal_fee_rate: ctx.fee_rate,
        bump: ctx.addresses.pool_bump,
    }
}

/// Why the records of a new market are not built, if they are not: the
/// deadline must lie after the time of creation, and the oracle must not be
/// the creator.
pub open spec fn initialization_refusal(ctx: InitializeMarket, end_time: i64, oracle: Identity) -> Option<PredictionMarketError> {
    if end_time <= ctx.creation_time {
        Some(PredictionMarketError::InvalidResolutionTime)
    } else if oracle == ctx.authority {
        Some(PredictionMarketError::InvalidOracleAuthority)
    } else {
        None
    }
}

/// Builds the records of a new market: active, nothing staked, an empty
/// pool.
///
/// Refuses a deadline that is not after the time of creation, and an oracle
/// who is the creator. The records are well formed where the texts are short
/// enough and the two fees together stay under 100%; `create_market` sees to
/// both before it derives the addresses.
pub fn initialize_market(
    ctx: &InitializeMarket,
    market_id: u64,
    question: String,
    description: String,
    end_time: i64,
    oracle: Identity,
) -> (result: Result<(Market, LiquidityPool), PredictionMarketError>)
    ensures
        match initialization_refusal(*ctx, end_time, oracle) {
            Some(reason) => result == Err::<(Market, LiquidityPool), PredictionMarketError>(reason),
            None => {
                &&& result matches Ok(records)
                &&& is_initial_market(records.0, *ctx, market_id, question, description, end_time, oracle)
                &&& records.1 == initial_pool(*ctx)
                &&& byte_len(question@) <= MAX_QUESTION_LEN && byte_len(description@) <= MAX_DESCRIPTION_LEN
                    && ctx.fee_rate + ctx.oracle_fee_bps < 10000 ==> records.0.wf() && records.1.wf()
            },
        },
{
    if end_time <= ctx.creation_time {
        return Err(PredictionMarketError::InvalidResolutionTime);
    }
    if oracle == ctx.authority {
        return Err(PredictionMarketError::InvalidOracleAuthority);
    }
    let oracle_data: Vec<u8> = Vec::new();
    let market = Market {
        address: ctx.addresses.market,
        authority: ctx.authority,
        oracle,
        market_id,
        question,
        description,
        creation_time: ctx.creation_time,
        resolution_time: end_time,
        stake_a: 0,
        stake_b: 0,
        total_bets: 0,
        total_liquidity: 0,
        fee_rate: ctx.fee_rate,
        oracle_fee_bps: ctx.oracle_fee_bps,
        status: MarketStatus::Active,
        winning_outcome: None,
        resolution_timestamp: 0,
        oracle_data,
        total_payout_pool: 0,
        winning_pool: 0,
        total_claimed: 0,
        bump: ctx.addresses.bump,
        vault_bump: ctx.addresses.vault_bump,
        authority_bump: ctx.addresses.authority_bump,
    };
    let pool = LiquidityPool {
        market: ctx.addresses.market,
        total_supply: 0,
        reserve_a: 0,
        reserve_b: 0,
        fee_collected: 0,
        withdrawal_fee_rate: ctx.fee_rate,
        bump: ctx.addresses.pool_bump,
    };
    Ok((market, pool))
}

/// Why a request to create a market is refused, if it is. The deadline must
/// lie in the future, the texts must be short enough, the oracle must not be
/// the creator, the two fees together must stay under 100%, and the market's
/// addresses must exist.
pub open spec fn creation_refusal(
    ctx: CreateMarket,
    market_id: u64,
    question: Seq<char>,
    description: Seq<char>,
    resolution_time: i64,
    oracle: Identity,
    fee_rate: u16,
    oracle_fee_bps: u16,
    now: i64,
) -> Option<PredictionMarketError> {
    if resolution_time <= now {
        Some(PredictionMarketError::InvalidResolutionTime)
    } else if byte_len(question) > MAX_QUESTION_LEN {
        Some(PredictionMarketError::QuestionTooLong)
    } else if byte_len(description) > MAX_DESCRIPTION_LEN {
        Some(PredictionMarketError::DescriptionTooLong)
    } else if oracle == ctx.authority {
        Some(PredictionMarketError::InvalidOracleAuthority)
    } else if fee_rate + oracle_fee_bps >= 10000 {
        Some(PredictionMarketError::InvalidFeePercentage)
    } else if market_addresses(market_id, ctx.program_id@) is None {
        Some(PredictionMarketError::AddressDerivationFailed)
    } else {
        None
    }
}

/// What `initialize_market` is handed by `create_market`: the creator, the
/// time, the fees, and the derived bump seeds with `market` as the market's
/// address.
pub open spec fn initialization(
    ctx: CreateMarket,
    market: Identity,
    derived: (Seq<u8>, u8, u8, u8, u8),
    fee_rate: u16,
    oracle_fee_bps: u16,
    now: i64,
) -> InitializeMarket {
    InitializeMarket {
        authority: ctx.authority,
        addresses: MarketAddresses {
            market,
            bump: derived.1,
            vault_bump: derived.2,
            authority_bump: derived.3,
            pool_bump: derived.4,
        },
        creation_time: now,
        fee_rate,
        oracle_fee_bps,
    }
}

/// Creates market `market_id` at time `now`.
///
/// Returns the market's record, its pool's record and the event. The market
/// is active and empty, its address and bump seeds are the ones derived from
/// `market_id` under the program id, and both records are well formed. A
/// refused request returns the first reason that `creation_refusal` finds.
pub fn create_market(
    ctx: &CreateMarket,
    market_id: u64,
    question: String,
    description: String,
    resolution_time: i64,
    oracle: Identity,
    fee_rate: u16,
    oracle_fee_bps: u16,
    now: i64,
) -> (result: Result<(Market, LiquidityPool, MarketCreated), PredictionMarketError>)
    ensures
        match creation_refusal(*ctx, market_id, question@, description@, resolution_time, oracle, fee_rate, oracle_fee_bps, now) {
            Some(reason) => result == Err::<(Market, LiquidityPool, MarketCreated), PredictionMarketError>(reason),
            None => {
                &&& result matches Ok((market, pool, event))
                &&& market_addresses(market_id, ctx.program_id@) matches Some(derived)
                &&& market.address@ == derived.0
                &&& is_initial_market(
                    market,
                    initialization(*ctx, market.address, derived, fee_rate, oracle_fee_bps, now),
                    market_id,
                    question,
                    description,
                    resolution_time,
                    oracle,
                )
                &&& pool == initial_pool(initialization(*ctx, market.address, derived, fee_rate, oracle_fee_bps, now))
                &&& event == MarketCreated {
                    market: market.address,
                    authority: ctx.authority,
                    market_id,
                    question,
                    resolution_time,
                    creation_time: now,
                }
                &&& market.wf()
                &&& pool.wf()
            },
        },
{
    if resolution_time <= now {
        return Err(PredictionMarketError::InvalidResolutionTime);
    }
    if question.as_str().as_bytes().len() > MAX_QUESTION_LEN {
        return Err(PredictionMarketError::QuestionTooLong);
    }
    if description.as_str().as_bytes().len() > MAX_DESCRIPTION_LEN {
        return Err(PredictionMarketError::DescriptionTooLong);
    }
    if oracle == ctx.authority {
        return Err(PredictionMarketError::InvalidOracleAuthority);
    }
    if fee_rate as u32 + oracle_fee_bps as u32 >= 10000 {
        return Err(PredictionMarketError::InvalidFeePercentage);
    }
    let addresses = match derive_market_addresses(market_id, &ctx.program_id) {
        Some(addresses) => addresses,
        None => { return Err(PredictionMarketError::AddressDerivationFailed); },
    };
    let event = MarketCreated {
        market: addresses.market,
        authority: ctx.authority,
        market_id,
        question: question.clone(),
        resolution_time,
        creation_time: now,
    };
    let init = InitializeMarket {
        authority: ctx.authority,
        addresses,
        creation_time: now,
        fee_rate,
        oracle_fee_bps,
    };
    match initialize_market(&init, market_id, question, description, resolution_time, oracle) {
        Ok((market, pool)) => Ok((market, pool, event)),
        Err(reason) => Err(reason),
    }
}

} // verus!
