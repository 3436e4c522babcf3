//! The records the engine keeps: markets, betting positions, liquidity
//! positions and pools.

use vstd::prelude::*;
use crate::error::PredictionMarketError;

verus! {

/// A 32-byte account address: a participant, an oracle, a program or a record.
#[derive(Clone, Copy, Debug)]
pub struct Identity {
    pub bytes: [u8; 32],
}

impl View for Identity {
    type V = Seq<u8>;

    open spec fn view(&self) -> Seq<u8> {
        self.bytes@
    }
}

impl Identity {
    /// The identity with these bytes.
    pub fn new(bytes: [u8; 32]) -> (id: Identity)
        ensures
            id.bytes == bytes,
    {
        Identity { bytes }
    }

    /// Two identities with the same bytes are the same identity: an address
    /// that a contract gives by its bytes is given exactly.
    pub proof fn lemma_view_injective(a: Identity, b: Identity)
        ensures
            (a@ == b@) <==> (a == b),
    {
        if a@ == b@ {
            assert forall|i: int| 0 <= i < 32 implies a.bytes[i] == b.bytes[i] by {
                assert(a.bytes@[i] == b.bytes@[i]);
            }
            assert(a.bytes =~= b.bytes);
        }
    }
}

/// Identities are compared byte by byte.
impl PartialEq for Identity {
    fn eq(&self, other: &Identity) -> (same: bool) {
        let mut i: usize = 0;
        while i < 32
            invariant
                0 <= i <= 32,
                forall|j: int| 0 <= j < i ==> self.bytes[j] == other.bytes[j],
            decreases 32 - i,
        {
            if self.bytes[i] != other.bytes[i] {
                return false;
            }
            i += 1;
        }
        proof {
            assert(self.bytes =~= other.bytes);
        }
        true
    }
}

impl vstd::std_specs::cmp::PartialEqSpecImpl for Identity {
    open spec fn obeys_eq_spec() -> bool {
        true
    }

    open spec fn eq_spec(&self, other: &Identity) -> bool {
        *self == *other
    }
}

impl Eq for Identity {}

/// Index of the first outcome.
pub const OUTCOME_A: u8 = 0;

/// Index of the second outcome.
pub const OUTCOME_B: u8 = 1;

/// Longest question, in bytes.
pub const MAX_QUESTION_LEN: usize = 200;

/// Longest description, in bytes.
pub const MAX_DESCRIPTION_LEN: usize = 500;

/// Longest oracle evidence, in bytes.
pub const MAX_ORACLE_DATA_LEN: usize = 256;

/// Whether `outcome` names one of the two outcomes.
pub open spec fn valid_outcome(outcome: u8) -> bool {
    outcome == OUTCOME_A || outcome == OUTCOME_B
}

/// The lifecycle of a market. `Active` is the only state in which stakes and
/// liquidity move; `Resolved` and `Cancelled` are terminal.
#[derive(Clone, Copy, Debug, PartialEq, Eq, Structural)]
pub enum MarketStatus {
    Active,
    Resolved,
    Cancelled,
    Disputed,
}

/// A binary market: who runs it, what has been staked on each outcome, and
/// how it ended.
#[derive(Clone, Debug, PartialEq, Eq)]
pub struct Market {
    /// The market's own address, derived from `market_id`.
    pub address: Identity,
    /// The creator.
    pub authority: Identity,
    /// The only identity that may resolve the market.
    pub oracle: Identity,
    pub market_id: u64,
    pub question: String,
    pub description: String,
    pub creation_time: i64,
    /// The resolution deadline.
    pub resolution_time: i64,
    /// Total staked on outcome A.
    pub stake_a: u64,
    /// Total staked on outcome B.
    pub stake_b: u64,
    /// Number of accepted bets.
    pub total_bets: u64,
    /// Liquidity deposited by providers, net of the shares redeemed.
    pub total_liquidity: u64,
    /// Platform fee in basis points, charged when liquidity is withdrawn.
    pub fee_rate: u16,
    /// Oracle fee in basis points, taken from the staked pool at resolution.
    pub oracle_fee_bps: u16,
    pub status: MarketStatus,
    /// Unset until the market is resolved.
    pub winning_outcome: Option<u8>,
    pub resolution_timestamp: i64,
    /// The evidence the oracle supplied at resolution.
    pub oracle_data: Vec<u8>,
    /// What is left of the staked pool after the oracle fee; set at resolution.
    pub total_payout_pool: u64,
    /// The stake on the winning outcome; set at resolution.
    pub winning_pool: u64,
    /// Running total of paid winnings.
    pub total_claimed: u64,
    /// Bump seed of the market's own address.
    pub bump: u8,
    /// Bump seed of the vault that holds the stakes.
    pub vault_bump: u8,
    /// Bump seed of the authority that signs for the vault.
    pub authority_bump: u8,
}

impl Market {
    /// The stake on one outcome.
    pub open spec fn stake(self, outcome: u8) -> u64 {
        if outcome == OUTCOME_A {
            self.stake_a
        } else {
            self.stake_b
        }
    }

    /// Everything staked on the market.
    pub open spec fn total_stake(self) -> int {
        self.stake_a + self.stake_b
    }

    /// What holds of every market that creation produced and the operations
    /// have changed since.
    pub open spec fn wf(self) -> bool {
        &&& self.fee_rate + self.oracle_fee_bps < 10000
        &&& self.total_stake() <= u64::MAX
        &&& self.oracle != self.authority
        &&& self.creation_time < self.resolution_time
        &&& vstd::utf8::encode_utf8(self.question@).len() <= MAX_QUESTION_LEN
        &&& vstd::utf8::encode_utf8(self.description@).len() <= MAX_DESCRIPTION_LEN
        &&& self.oracle_data@.len() <= MAX_ORACLE_DATA_LEN
        &&& if self.status == MarketStatus::Resolved {
            &&& self.winning_outcome matches Some(outcome)
            &&& valid_outcome(outcome)
            &&& self.winning_pool == self.stake(outcome)
            &&& self.total_payout_pool <= self.total_stake()
            &&& self.resolution_timestamp >= self.resolution_time
            &&& self.oracle_data@.len() > 0
        } else {
            &&& self.winning_outcome is None
            &&& self.total_payout_pool == 0
            &&& self.winning_pool == 0
            &&& self.total_claimed == 0
        }
    }
}

/// One participant's stake in one market. A position is bound to the outcome
/// of its first bet and is paid at most once.
#[derive(Clone, Copy, Debug, PartialEq, Eq)]
pub struct Bet {
    pub user: Identity,
    /// Address of the market.
    pub market: Identity,
    pub outcome: u8,
    /// Accumulated stake.
    pub amount: u64,
    pub claimed: bool,
    /// What was paid when the position was claimed.
    pub winnings_claimed: u64,
    /// Time of the first bet.
    pub timestamp: i64,
}

impl Bet {
    pub open spec fn wf(self) -> bool {
        &&& valid_outcome(self.outcome)
        &&& !self.claimed ==> self.winnings_claimed == 0
    }
}

/// One provider's share of one market's liquidity pool.
#[derive(Clone, Copy, Debug, PartialEq, Eq)]
pub struct UserPosition {
    pub user: Identity,
    /// Address of the market.
    pub market: Identity,
    /// Pool shares held.
    pub liquidity_provided: u64,
    /// Sum of all deposits.
    pub total_deposited: u64,
    /// Sum of all withdrawals, net of fees.
    pub total_withdrawn: u64,
    pub last_update_time: i64,
}

/// The liquidity pool of one market: reserves on the two outcomes and the
/// shares issued against them. Kept apart from the stakes of the bettors.
#[derive(Clone, Copy, Debug, PartialEq, Eq)]
pub struct LiquidityPool {
    /// Address of the market.
    pub market: Identity,
    /// Shares outstanding.
    pub total_supply: u64,
    pub reserve_a: u64,
    pub reserve_b: u64,
    /// Withdrawal fees kept so far.
    pub fee_collected: u64,
    /// Withdrawal fee in basis points.
    pub withdrawal_fee_rate: u16,
    /// Bump seed of the pool's own address.
    pub bump: u8,
}

impl LiquidityPool {
    /// Both reserves together.
    pub open spec fn total_reserves(self) -> int {
        self.reserve_a + self.reserve_b
    }

    pub open spec fn wf(self) -> bool {
        self.withdrawal_fee_rate < 10000
    }
}

/// The administrator's switches, kept apart from every market. The pause is
/// a gate in front of the operations, not a state of a market: a caller
/// consults it before it puts a request to the engine.
#[derive(Clone, Copy, Debug, PartialEq, Eq)]
pub struct GlobalState {
    pub authority: Identity,
    pub total_markets: u64,
    pub total_volume: u64,
    pub total_fees_collected: u64,
    pub platform_fee_rate: u16,
    pub min_resolution_time: i64,
    pub max_resolution_time: i64,
    pub is_paused: bool,
}

impl GlobalState {
    /// Refuses with `MarketPaused` while the engine is paused.
    pub fn ensure_running(&self) -> (verdict: Result<(), PredictionMarketError>)
        ensures
            verdict == if self.is_paused {
                Err::<(), PredictionMarketError>(PredictionMarketError::MarketPaused)
            } else {
                Ok::<(), PredictionMarketError>(())
            },
    {
        if self.is_paused {
            Err(PredictionMarketError::MarketPaused)
        } else {
            Ok(())
        }
    }
}

} // verus!
