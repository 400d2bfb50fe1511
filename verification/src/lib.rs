//! Core logic of the KOD chain: a proof-of-work currency with an on-chain
//! escrow trading subsystem.
//!
//! The crate models the deterministic heart of the chain: a balances ledger
//! with free and reserved funds, a block-reward pallet with a halving
//! schedule, an escrow trade pallet with dual payment rails and
//! Merkle-proof dispute evidence, the difficulty controller, and the
//! proof-of-work check. Node plumbing (networking, storage, key handling)
//! stays outside; the chain's rules live here, each behind a contract.

use vstd::prelude::*;

pub mod ledger;
pub mod hashing;
pub mod merkle;
pub mod commit;
pub mod difficulty;
pub mod block_reward;
pub mod trade;
pub mod pow;
pub mod scale;
pub mod inherent;
pub mod wallet;
pub mod runtime;

verus! {

/// One KOD in smallest on-chain units.
pub const UNIT: u128 = 1_000_000_000_000_000_000;

/// Minimum balance that keeps an account alive.
pub const EXISTENTIAL_DEPOSIT: u128 = 1_000_000_000_000_000;

/// Total token supply, allocated entirely at genesis.
pub const TOTAL_SUPPLY: u128 = 1_000_000_000 * UNIT;

/// Genesis allocation for the mining reserve account.
pub const MINING_RESERVE: u128 = 900_000_000 * UNIT;

/// Genesis allocation for the foundation accounts.
pub const FOUNDATION_RESERVE: u128 = 100_000_000 * UNIT;

/// Mining reward for blocks of the first era.
pub const INITIAL_BLOCK_REWARD: u128 = 50 * UNIT;

/// Number of blocks between reward halvings.
pub const HALVING_INTERVAL: u32 = 10_500_000;

/// Block from which listings may no longer accept external payment.
pub const KOD_ONLY_BLOCK: u32 = 21_000_000;

/// Target spacing between blocks, in milliseconds.
pub const TARGET_BLOCK_TIME_MS: u64 = 6_000;

/// An account of the ledger.
///
/// The surrounding node addresses accounts by 32-byte public keys; the
/// library keys them by a machine word and fixes a canonical 32-byte
/// encoding (see [`account_bytes`]) wherever a commitment hashes an
/// account.
#[derive(Clone, Copy, Debug, PartialEq, Eq, Structural)]
pub struct AccountId(pub u64);

/// The canonical 32-byte encoding of an account: its key in little-endian
/// order, zero-padded to 32 bytes.
pub open spec fn spec_account_bytes(a: AccountId) -> Seq<u8> {
    vstd::bytes::spec_u64_to_le_bytes(a.0) + Seq::new(24, |i: int| 0u8)
}

/// Encode an account as its canonical 32 bytes.
pub fn account_bytes(a: AccountId) -> (r: Vec<u8>)
    ensures
        r@ == spec_account_bytes(a),
        r@.len() == 32,
{
    let mut r = vstd::bytes::u64_to_le_bytes(a.0);
    proof {
        vstd::bytes::lemma_auto_spec_u64_to_from_le_bytes();
    }
    r.resize(32, 0u8);
    proof {
        assert(r@ =~= spec_account_bytes(a));
    }
    r
}

/// Saturating addition of balances.
pub open spec fn spec_saturating_add_u128(a: u128, b: u128) -> u128 {
    if a + b > u128::MAX {
        u128::MAX
    } else {
        (a + b) as u128
    }
}

/// The reward scheduled for a block by the halving plan: the initial
/// reward halved once per elapsed interval, zero from the tenth halving on.
pub open spec fn spec_block_reward(block_number: u32) -> u128 {
    if block_number / HALVING_INTERVAL >= 10 {
        0u128
    } else {
        INITIAL_BLOCK_REWARD >> (block_number / HALVING_INTERVAL)
    }
}

/// Compute the scheduled mining reward for a block.
pub fn calculate_block_reward(block_number: u32) -> (r: u128)
    ensures
        r == spec_block_reward(block_number),
{
    let halvings: u32 = block_number / HALVING_INTERVAL;
    if halvings >= 10 {
        0
    } else {
        INITIAL_BLOCK_REWARD >> halvings
    }
}

} // verus!
