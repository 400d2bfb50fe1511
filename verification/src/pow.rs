//! The proof-of-work check. A candidate is the SHA3-256 digest of an
//! ASCII preimage naming the parent hash, the next block number, the
//! reward address and a nonce; the block may be produced when the
//! digest's leading eight bytes, read as a big-endian number, fall below
//! the difficulty target.

use vstd::prelude::*;
use crate::hashing::{sha3_256, sha3_256_of, hex_encode, spec_hex_of, u64_to_decimal,
    spec_decimal_of};

verus! {

/// The mining preimage: the parent hash in lower-case hex, the next
/// block number, the reward address (empty when none is claimed) and the
/// nonce, joined by colons.
pub open spec fn spec_mining_preimage(
    parent_hash: Seq<u8>,
    next_number: u64,
    reward_address: Seq<char>,
    nonce: u64,
) -> Seq<char> {
    spec_hex_of(parent_hash) + seq![':'] + spec_decimal_of(next_number as nat) + seq![':']
        + reward_address + seq![':'] + spec_decimal_of(nonce as nat)
}

/// A byte string read as a big-endian number.
pub open spec fn spec_be_value(s: Seq<u8>) -> int
    decreases s.len(),
{
    if s.len() == 0 {
        0
    } else {
        spec_be_value(s.drop_last()) * 256 + s.last()
    }
}

/// The value a digest weighs in at: its first eight bytes, big-endian.
pub open spec fn spec_pow_value(digest: Seq<u8>) -> int {
    spec_be_value(digest.take(8))
}

/// Whether a weighed digest beats the given difficulty.
pub open spec fn spec_pow_ok(digest: Seq<u8>, difficulty: u128) -> bool {
    spec_pow_value(digest) < u128::MAX as int / difficulty as int
}

/// Build the mining preimage string.
pub fn mining_preimage(
    parent_hash: &[u8; 32],
    next_number: u64,
    reward_address: &str,
    nonce: u64,
) -> (r: String)
    ensures
        r@ == spec_mining_preimage(parent_hash@, next_number, reward_address@, nonce),
{
    let mut s = hex_encode(parent_hash.as_slice());
    s.append(":");
    let number_text = u64_to_decimal(next_number);
    s.append(number_text.as_str());
    s.append(":");
    s.append(reward_address);
    s.append(":");
    let nonce_text = u64_to_decimal(nonce);
    s.append(nonce_text.as_str());
    proof {
        reveal_strlit(":");
        assert(":"@ =~= seq![':']);
        assert(s@ =~= spec_mining_preimage(parent_hash@, next_number, reward_address@, nonce));
    }
    s
}

/// Weigh a digest: its first eight bytes as a big-endian number.
pub fn pow_value(digest: &[u8; 32]) -> (r: u128)
    ensures
        r as int == spec_pow_value(digest@),
{
    let mut v: u128 = 0;
    let mut i: usize = 0;
    while i < 8
        invariant
            i <= 8,
            v as int == spec_be_value(digest@.take(i as int)),
            v < 0x1_0000_0000_0000_0000u128,
        decreases 8 - i,
    {
        proof {
            assert(digest@.take(i + 1).drop_last() =~= digest@.take(i as int));
            assert(digest@.take(i + 1).last() == digest@[i as int]);
            lemma_be_value_non_negative(digest@.take(i as int));
            assert(v < 0x100_0000_0000_0000u128) by {
                lemma_be_value_bounded(digest@.take(i as int));
            }
        }
        v = v * 256 + (digest[i] as u128);
        i = i + 1;
    }
    proof {
        assert(digest@.take(8) =~= digest@.take(8int));
    }
    v
}

/// A big-endian value is never negative.
proof fn lemma_be_value_non_negative(s: Seq<u8>)
    ensures
        spec_be_value(s) >= 0,
    decreases s.len(),
{
    if s.len() > 0 {
        lemma_be_value_non_negative(s.drop_last());
        assert(spec_be_value(s.drop_last()) * 256 >= 0) by (nonlinear_arith)
            requires spec_be_value(s.drop_last()) >= 0;
    }
}

/// A big-endian value of `n` bytes stays below two to the `8 n`.
proof fn lemma_be_value_bounded(s: Seq<u8>)
    requires
        s.len() <= 7,
    ensures
        spec_be_value(s) < 0x100_0000_0000_0000,
    decreases s.len(),
{
    if s.len() == 0 {
    } else {
        lemma_be_value_pow_bound(s, s.len() as int);
        lemma_pow256_monotone(s.len() as int);
    }
}

/// The exact power bound: `n` bytes weigh less than `256^n`.
proof fn lemma_be_value_pow_bound(s: Seq<u8>, n: int)
    requires
        n == s.len(),
    ensures
        spec_be_value(s) < spec_pow256(n as nat),
    decreases n,
{
    if n == 0 {
    } else {
        lemma_be_value_pow_bound(s.drop_last(), n - 1);
        lemma_be_value_non_negative(s.drop_last());
        assert(spec_be_value(s.drop_last()) * 256 <= (spec_pow256((n - 1) as nat) - 1) * 256)
            by (nonlinear_arith)
            requires spec_be_value(s.drop_last()) <= spec_pow256((n - 1) as nat) - 1;
    }
}

/// Powers of 256.
pub open spec fn spec_pow256(n: nat) -> int
    decreases n,
{
    if n == 0 {
        1
    } else {
        256 * spec_pow256((n - 1) as nat)
    }
}

/// `256^n` for `n` up to seven stays within the bound the weighing uses.
proof fn lemma_pow256_monotone(n: int)
    requires
        0 <= n <= 7,
    ensures
        spec_pow256(n as nat) <= 0x100_0000_0000_0000,
{
    assert(spec_pow256(0) == 1);
    assert(spec_pow256(1) == 256);
    assert(spec_pow256(2) == 0x1_0000);
    assert(spec_pow256(3) == 0x100_0000);
    assert(spec_pow256(4) == 0x1_0000_0000);
    assert(spec_pow256(5) == 0x100_0000_0000);
    assert(spec_pow256(6) == 0x1_0000_0000_0000);
    assert(spec_pow256(7) == 0x100_0000_0000_0000);
}

/// Test a weighed digest against the difficulty target.
pub fn pow_meets_target(value: u128, difficulty: u128) -> (r: bool)
    requires
        difficulty > 0,
    ensures
        r == ((value as int) < u128::MAX as int / difficulty as int),
{
    value < u128::MAX / difficulty
}

/// One full mining attempt: build the preimage for this nonce, hash it,
/// and weigh the digest against the difficulty. Returns whether the
/// proof-of-work test passes; the caller still holds the block back until
/// the target block time has passed.
pub fn mining_attempt(
    parent_hash: &[u8; 32],
    next_number: u64,
    reward_address: &str,
    nonce: u64,
    difficulty: u128,
) -> (r: bool)
    requires
        difficulty > 0,
    ensures
        r == spec_pow_ok(
            sha3_256_of(
                vstd::utf8::encode_utf8(
                    spec_mining_preimage(parent_hash@, next_number, reward_address@, nonce),
                ),
            ),
            difficulty,
        ),
{
    let preimage = mining_preimage(parent_hash, next_number, reward_address, nonce);
    let digest = sha3_256(preimage.as_str().as_bytes());
    let value = pow_value(&digest);
    pow_meets_target(value, difficulty)
}

} // verus!
