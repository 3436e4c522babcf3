//! Program-derived addresses: the accounts a market owns and the seeds with
//! which it signs for them.
//!
//! A market's vault and pool have no private key. Their addresses are derived
//! from the market's identifier under the program id, and only the seeds
//! that reproduce the derivation authorize a transfer out of them.

use vstd::prelude::*;
use vstd::bytes::{spec_u64_to_le_bytes, u64_to_le_bytes};
use crate::state::{Identity, LiquidityPool, Market};

verus! {

/// The address and bump seed that `Pubkey::try_find_program_address` yields
/// for `seeds` under `program_id`, or `None` where it yields none.
pub uninterp spec fn program_address(seeds: Seq<Seq<u8>>, program_id: Seq<u8>) -> Option<(Seq<u8>, u8)>;

/// Calls `anchor_lang::prelude::Pubkey::try_find_program_address`.
///
/// Trusted: the result is what that function yields for these seeds and this
/// program id, and it yields the same for the same arguments: off chain it
/// hashes the seeds, a bump seed and the program id and tests the digest
/// against the curve, reading nothing else.
#[verifier::external_body]
fn try_find_program_address(seeds: &Vec<Vec<u8>>, program_id: &Identity) -> (found: Option<(Identity, u8)>)
    ensures
        found is Some <==> program_address(seeds.deep_view(), program_id@) is Some,
        found matches Some(pair) ==> program_address(seeds.deep_view(), program_id@) == Some((pair.0@, pair.1)),
{
    let parts: Vec<&[u8]> = seeds.iter().map(|seed| seed.as_slice()).collect();
    let id = anchor_lang::prelude::Pubkey::new_from_array(program_id.bytes);
    anchor_lang::prelude::Pubkey::try_find_program_address(&parts, &id)
        .map(|(address, bump)| (Identity { bytes: address.to_bytes() }, bump))
}

/// `b"market"`: labels a market's own address.
pub open spec fn market_label() -> Seq<u8> {
    seq![0x6du8, 0x61u8, 0x72u8, 0x6bu8, 0x65u8, 0x74u8]
}

/// `b"vault"`: labels the vault that holds a market's stakes.
pub open spec fn vault_label() -> Seq<u8> {
    seq![0x76u8, 0x61u8, 0x75u8, 0x6cu8, 0x74u8]
}

/// `b"authority"`: labels the authority that signs for the vault.
pub open spec fn authority_label() -> Seq<u8> {
    seq![0x61u8, 0x75u8, 0x74u8, 0x68u8, 0x6fu8, 0x72u8, 0x69u8, 0x74u8, 0x79u8]
}

/// `b"pool"`: labels a market's liquidity pool.
pub open spec fn pool_label() -> Seq<u8> {
    seq![0x70u8, 0x6fu8, 0x6fu8, 0x6cu8]
}

/// The seeds of a market's own address: the label and the identifier in
/// little-endian bytes.
pub open spec fn market_seeds(market_id: u64) -> Seq<Seq<u8>> {
    seq![market_label(), spec_u64_to_le_bytes(market_id)]
}

/// The seeds of an account that belongs to the market at `market`.
pub open spec fn owned_seeds(label: Seq<u8>, market: Seq<u8>) -> Seq<Seq<u8>> {
    seq![label, market]
}

/// The seeds that sign for a derived account: its own seeds and its bump.
pub open spec fn signer_seeds(seeds: Seq<Seq<u8>>, bump: u8) -> Seq<Seq<u8>> {
    seeds.push(seq![bump])
}

/// The addresses a market owns, each with its bump seed.
#[derive(Clone, Copy, Debug, PartialEq, Eq)]
pub struct MarketAddresses {
    pub market: Identity,
    pub bump: u8,
    pub vault_bump: u8,
    pub authority_bump: u8,
    pub pool_bump: u8,
}

/// The addresses of market `market_id` under `program_id`: the market's own,
/// and from it those of its vault, its authority and its pool. `None` where
/// one of the four has no program address.
pub open spec fn market_addresses(market_id: u64, program_id: Seq<u8>) -> Option<(Seq<u8>, u8, u8, u8, u8)> {
    match program_address(market_seeds(market_id), program_id) {
        None => None,
        Some((market, bump)) => match (
            program_address(owned_seeds(vault_label(), market), program_id),
            program_address(owned_seeds(authority_label(), market), program_id),
            program_address(owned_seeds(pool_label(), market), program_id),
        ) {
            (Some(vault), Some(authority), Some(pool)) => Some((market, bump, vault.1, authority.1, pool.1)),
            _ => None,
        },
    }
}

fn market_label_bytes() -> (label: Vec<u8>)
    ensures
        label@ == market_label(),
{
    let label: Vec<u8> = vec![0x6du8, 0x61u8, 0x72u8, 0x6bu8, 0x65u8, 0x74u8];
    assert(label@ =~= market_label());
    label
}

fn vault_label_bytes() -> (label: Vec<u8>)
    ensures
        label@ == vault_label(),
{
    let label: Vec<u8> = vec![0x76u8, 0x61u8, 0x75u8, 0x6cu8, 0x74u8];
    assert(label@ =~= vault_label());
    label
}

fn authority_label_bytes() -> (label: Vec<u8>)
    ensures
        label@ == authority_label(),
{
    let label: Vec<u8> = vec![0x61u8, 0x75u8, 0x74u8, 0x68u8, 0x6fu8, 0x72u8, 0x69u8, 0x74u8, 0x79u8];
    assert(label@ =~= authority_label());
    label
}

fn pool_label_bytes() -> (label: Vec<u8>)
    ensures
        label@ == pool_label(),
{
    let label: Vec<u8> = vec![0x70u8, 0x6fu8, 0x6fu8, 0x6cu8];
    assert(label@ =~= pool_label());
    label
}

/// The bytes of an identity, as a seed.
fn identity_seed(id: &Identity) -> (seed: Vec<u8>)
    ensures
        seed@ == id@,
{
    let mut seed: Vec<u8> = Vec::new();
    let mut i: usize = 0;
    while i < 32
        invariant
            0 <= i <= 32,
            seed@ == id@.subrange(0, i as int),
        decreases 32 - i,
    {
        seed.push(id.bytes[i]);
        assert(seed@ =~= id@.subrange(0, i + 1));
        i += 1;
    }
    assert(seed@ =~= id@);
    seed
}

/// Two seeds as a list.
fn seed_pair(first: Vec<u8>, second: Vec<u8>) -> (seeds: Vec<Vec<u8>>)
    ensures
        seeds.deep_view() == seq![first@, second@],
{
    let mut seeds: Vec<Vec<u8>> = Vec::new();
    seeds.push(first);
    seeds.push(second);
    assert(seeds.deep_view() =~= seq![first@, second@]) by {
        assert(seeds.deep_view()[0] == seeds@[0].deep_view());
        assert(seeds.deep_view()[1] == seeds@[1].deep_view());
        assert(seeds@[0].deep_view() =~= first@);
        assert(seeds@[1].deep_view() =~= second@);
    }
    seeds
}

/// A list of seeds with the bump seed appended.
fn with_bump(seeds: Vec<Vec<u8>>, bump: u8) -> (signing: Vec<Vec<u8>>)
    ensures
        signing.deep_view() == signer_seeds(seeds.deep_view(), bump),
{
    let ghost before = seeds.deep_view();
    let mut signing = seeds;
    let mut last: Vec<u8> = Vec::new();
    last.push(bump);
    signing.push(last);
    assert(signing.deep_view() =~= signer_seeds(before, bump)) by {
        let n = before.len() as int;
        assert(signing.deep_view().len() == n + 1);
        assert forall|i: int| 0 <= i < n + 1 implies signing.deep_view()[i] == signer_seeds(before, bump)[i] by {
            assert(signing.deep_view()[i] == signing@[i].deep_view());
            if i < n {
                assert(before[i] == seeds@[i].deep_view());
                assert(signing@[i] == seeds@[i]);
            } else {
                assert(signing@[i].deep_view() =~= seq![bump]);
            }
        }
    }
    signing
}

/// The program address of an account that the market at `market` owns.
fn find_owned_address(label: Vec<u8>, market: &Identity, program_id: &Identity) -> (found: Option<(Identity, u8)>)
    ensures
        found is Some <==> program_address(owned_seeds(label@, market@), program_id@) is Some,
        found matches Some(pair) ==> program_address(owned_seeds(label@, market@), program_id@) == Some((pair.0@, pair.1)),
{
    let seeds = seed_pair(label, identity_seed(market));
    try_find_program_address(&seeds, program_id)
}

/// Derives the addresses of market `market_id` under `program_id`.
///
/// Returns `None` exactly where one of the market's four accounts has no
/// program address.
pub fn derive_market_addresses(market_id: u64, program_id: &Identity) -> (found: Option<MarketAddresses>)
    ensures
        match market_addresses(market_id, program_id@) {
            Some((market, bump, vault_bump, authority_bump, pool_bump)) => {
                &&& found matches Some(addresses)
                &&& addresses.market@ == market
                &&& addresses.bump == bump
                &&& addresses.vault_bump == vault_bump
                &&& addresses.authority_bump == authority_bump
                &&& addresses.pool_bump == pool_bump
            },
            None => found is None,
        },
{
    let seeds = seed_pair(market_label_bytes(), u64_to_le_bytes(market_id));
    let (market, bump) = match try_find_program_address(&seeds, program_id) {
        Some(pair) => pair,
        None => { return None; },
    };
    let vault = find_owned_address(vault_label_bytes(), &market, program_id);
    let authority = find_owned_address(authority_label_bytes(), &market, program_id);
    let pool = find_owned_address(pool_label_bytes(), &market, program_id);
    match (vault, authority, pool) {
        (Some(vault), Some(authority), Some(pool)) => Some(MarketAddresses {
            market,
            bump,
            vault_bump: vault.1,
            authority_bump: authority.1,
            pool_bump: pool.1,
        }),
        _ => None,
    }
}

/// An order to move `amount` out of an account that a market owns, with the
/// seeds that sign for that account.
#[derive(Clone, Debug, PartialEq, Eq)]
pub struct SignedTransfer {
    pub amount: u64,
    pub signer_seeds: Vec<Vec<u8>>,
}

/// The seeds that sign for a market's own address.
pub fn market_signer_seeds(market: &Market) -> (seeds: Vec<Vec<u8>>)
    ensures
        seeds.deep_view() == signer_seeds(market_seeds(market.market_id), market.bump),
{
    with_bump(seed_pair(market_label_bytes(), u64_to_le_bytes(market.market_id)), market.bump)
}

/// The seeds that sign for a market's vault.
pub fn authority_signer_seeds(market: &Market) -> (seeds: Vec<Vec<u8>>)
    ensures
        seeds.deep_view() == signer_seeds(owned_seeds(authority_label(), market.address@), market.authority_bump),
{
    with_bump(seed_pair(authority_label_bytes(), identity_seed(&market.address)), market.authority_bump)
}

/// The seeds that sign for a market's liquidity pool.
pub fn pool_signer_seeds(pool: &LiquidityPool) -> (seeds: Vec<Vec<u8>>)
    ensures
        seeds.deep_view() == signer_seeds(owned_seeds(pool_label(), pool.market@), pool.bump),
{
    with_bump(seed_pair(pool_label_bytes(), identity_seed(&pool.market)), pool.bump)
}

} // verus!
