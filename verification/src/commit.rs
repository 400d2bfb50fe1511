//! The chain's hash commitments: the contract hash a purchase commits
//! the buyer to, and the final hash a completed delivery seals. Both are
//! BLAKE2b digests over fixed byte layouts.

use vstd::prelude::*;
use crate::{AccountId, account_bytes, spec_account_bytes};
use crate::hashing::{blake2_256, blake2_256_of};

verus! {

/// The ASCII bytes of the tag `"accepted"`.
pub open spec fn spec_accepted_tag() -> Seq<u8> {
    seq![97u8, 99u8, 99u8, 101u8, 112u8, 116u8, 101u8, 100u8]
}

/// The ASCII bytes of the tag `"completed_with_diagnostics"`.
pub open spec fn spec_completed_tag() -> Seq<u8> {
    seq![
        99u8, 111u8, 109u8, 112u8, 108u8, 101u8, 116u8, 101u8, 100u8, 95u8, 119u8, 105u8,
        116u8, 104u8, 95u8, 100u8, 105u8, 97u8, 103u8, 110u8, 111u8, 115u8, 116u8, 105u8,
        99u8, 115u8,
    ]
}

/// A 32-byte string of zeroes, standing in for an absent hash.
pub open spec fn spec_zero32() -> Seq<u8> {
    Seq::new(32, |i: int| 0u8)
}

/// The bytes a contract hash commits to: the listing's conditions root,
/// the buyer's canonical account bytes, the block number as an eight-byte
/// little-endian timestamp, and the acceptance tag.
pub open spec fn spec_contract_preimage(
    conditions_root: Seq<u8>,
    buyer: AccountId,
    timestamp: u64,
) -> Seq<u8> {
    conditions_root + spec_account_bytes(buyer) + vstd::bytes::spec_u64_to_le_bytes(timestamp)
        + spec_accepted_tag()
}

/// The contract hash itself.
pub open spec fn spec_contract_hash(
    conditions_root: Seq<u8>,
    buyer: AccountId,
    timestamp: u64,
) -> Seq<u8> {
    blake2_256_of(spec_contract_preimage(conditions_root, buyer, timestamp))
}

/// An optional 32-byte hash, or zeroes when absent.
pub open spec fn spec_hash_or_zero(h: Option<[u8; 32]>) -> Seq<u8> {
    match h {
        Some(v) => v@,
        None => spec_zero32(),
    }
}

/// The bytes a final hash commits to: the contract hash, the delivery
/// attestation hash or zeroes, the diagnostic report hash or zeroes, and
/// the completion tag.
pub open spec fn spec_final_preimage(
    contract_hash: Seq<u8>,
    delivery_hash: Option<[u8; 32]>,
    diagnostics_hash: Option<[u8; 32]>,
) -> Seq<u8> {
    contract_hash + spec_hash_or_zero(delivery_hash) + spec_hash_or_zero(diagnostics_hash)
        + spec_completed_tag()
}

/// The final hash itself.
pub open spec fn spec_final_hash(
    contract_hash: Seq<u8>,
    delivery_hash: Option<[u8; 32]>,
    diagnostics_hash: Option<[u8; 32]>,
) -> Seq<u8> {
    blake2_256_of(spec_final_preimage(contract_hash, delivery_hash, diagnostics_hash))
}

/// Append the ASCII bytes of `"accepted"`.
fn push_accepted_tag(out: &mut Vec<u8>)
    ensures
        final(out)@ == old(out)@ + spec_accepted_tag(),
{
    let tag: [u8; 8] = [97, 99, 99, 101, 112, 116, 101, 100];
    out.extend_from_slice(tag.as_slice());
    proof {
        assert(out@ =~= old(out)@ + spec_accepted_tag());
    }
}

/// Append the ASCII bytes of `"completed_with_diagnostics"`.
fn push_completed_tag(out: &mut Vec<u8>)
    ensures
        final(out)@ == old(out)@ + spec_completed_tag(),
{
    let tag: [u8; 26] = [
        99, 111, 109, 112, 108, 101, 116, 101, 100, 95, 119, 105, 116, 104, 95, 100, 105, 97,
        103, 110, 111, 115, 116, 105, 99, 115,
    ];
    out.extend_from_slice(tag.as_slice());
    proof {
        assert(out@ =~= old(out)@ + spec_completed_tag());
    }
}

/// Append an optional hash, or 32 zero bytes when it is absent.
fn push_hash_or_zero(out: &mut Vec<u8>, h: &Option<[u8; 32]>)
    ensures
        final(out)@ == old(out)@ + spec_hash_or_zero(*h),
{
    match h {
        Some(v) => {
            out.extend_from_slice(v.as_slice());
            proof {
                assert(out@ =~= old(out)@ + spec_hash_or_zero(*h));
            }
        },
        None => {
            let zero: [u8; 32] = [0; 32];
            out.extend_from_slice(zero.as_slice());
            proof {
                assert(zero@ =~= spec_zero32());
                assert(out@ =~= old(out)@ + spec_hash_or_zero(*h));
            }
        },
    }
}

/// Compute the contract hash a purchase stores in the new trade.
pub fn compute_contract_hash(
    conditions_root: [u8; 32],
    buyer: AccountId,
    timestamp: u64,
) -> (r: [u8; 32])
    ensures
        r@ == spec_contract_hash(conditions_root@, buyer, timestamp),
{
    let mut data: Vec<u8> = Vec::new();
    data.extend_from_slice(conditions_root.as_slice());
    proof {
        assert(data@ =~= conditions_root@);
    }
    let buyer_bytes = account_bytes(buyer);
    data.extend_from_slice(buyer_bytes.as_slice());
    let ts_bytes = vstd::bytes::u64_to_le_bytes(timestamp);
    data.extend_from_slice(ts_bytes.as_slice());
    push_accepted_tag(&mut data);
    proof {
        assert(data@ =~= spec_contract_preimage(conditions_root@, buyer, timestamp));
    }
    blake2_256(data.as_slice())
}

/// Compute the final hash sealed by a confirmed delivery.
pub fn compute_final_hash_with_diagnostics(
    contract_hash: [u8; 32],
    delivery_data_hash: Option<[u8; 32]>,
    diagnostics_hash: Option<[u8; 32]>,
) -> (r: [u8; 32])
    ensures
        r@ == spec_final_hash(contract_hash@, delivery_data_hash, diagnostics_hash),
{
    let mut data: Vec<u8> = Vec::new();
    data.extend_from_slice(contract_hash.as_slice());
    proof {
        assert(data@ =~= contract_hash@);
    }
    push_hash_or_zero(&mut data, &delivery_data_hash);
    push_hash_or_zero(&mut data, &diagnostics_hash);
    push_completed_tag(&mut data);
    proof {
        assert(data@ =~= spec_final_preimage(contract_hash@, delivery_data_hash,
            diagnostics_hash));
    }
    blake2_256(data.as_slice())
}

/// Compute a final hash without a diagnostics report.
pub fn compute_final_hash(
    contract_hash: [u8; 32],
    delivery_data_hash: Option<[u8; 32]>,
) -> (r: [u8; 32])
    ensures
        r@ == spec_final_hash(contract_hash@, delivery_data_hash, None),
{
    compute_final_hash_with_diagnostics(contract_hash, delivery_data_hash, None)
}

} // verus!
