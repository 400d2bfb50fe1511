//! The beneficiary inherent: the node hands the runtime the miner's
//! address for the block being built, under a fixed eight-byte tag; the
//! reward pallet decodes it, taking raw canonical account bytes first
//! and an SS58 string second.

use vstd::prelude::*;
use sp_core::crypto::Ss58Codec;
use crate::AccountId;
use crate::scale::{spec_encode_option_bytes, encode_option_bytes};
use crate::trade::spec_opt_bytes;

verus! {

/// The beneficiary inherent's payload: the miner's address, if one is
/// claimed, and the number of the block being built.
#[derive(Clone, Debug, PartialEq, Eq)]
pub struct MinerInherentData {
    /// The miner's address bytes: canonical account bytes or an SS58
    /// string.
    pub miner_address: Option<Vec<u8>>,
    /// The block being built.
    pub block_number: u32,
}

/// The wire encoding of the payload: the optional address, then the
/// block number as a little-endian word.
pub open spec fn spec_encode_miner_inherent(addr: Option<Seq<u8>>, block_number: u32) -> Seq<u8> {
    spec_encode_option_bytes(addr) + vstd::bytes::spec_u32_to_le_bytes(block_number)
}

impl MinerInherentData {
    /// Encode the payload for the inherent-data ABI.
    pub fn encode(&self) -> (r: Vec<u8>)
        requires
            self.miner_address matches Some(b) ==> b@.len() <= u32::MAX,
        ensures
            r@ == spec_encode_miner_inherent(spec_opt_bytes(self.miner_address),
                self.block_number),
    {
        let mut r = encode_option_bytes(&self.miner_address);
        let mut word = vstd::bytes::u32_to_le_bytes(self.block_number);
        r.append(&mut word);
        r
    }
}

/// The node-side provider of the beneficiary inherent: it carries the
/// configured reward address into each block it authors.
pub struct BlockRewardInherentDataProvider {
    /// The miner's address, as the bytes of the configured string.
    pub miner_address: Option<Vec<u8>>,
    /// The block being authored.
    pub block_number: u32,
}

impl BlockRewardInherentDataProvider {
    /// Remember the reward address for the block being authored.
    pub fn new(miner_address: Option<Vec<u8>>, block_number: u32) -> (r:
        BlockRewardInherentDataProvider)
        ensures
            r.miner_address == miner_address,
            r.block_number == block_number,
    {
        BlockRewardInherentDataProvider { miner_address, block_number }
    }

    /// The payload this provider hands the runtime.
    pub fn inherent_data(&self) -> (r: MinerInherentData)
        ensures
            spec_opt_bytes(r.miner_address) == spec_opt_bytes(self.miner_address),
            r.block_number == self.block_number,
    {
        MinerInherentData {
            miner_address: match &self.miner_address {
                Some(b) => {
                    let mut copy: Vec<u8> = Vec::new();
                    copy.extend_from_slice(b.as_slice());
                    proof {
                        assert(copy@ =~= b@);
                    }
                    Some(copy)
                },
                None => None,
            },
            block_number: self.block_number,
        }
    }
}

/// The canonical account bytes decoded back, if the bytes have the
/// canonical shape: exactly 32 bytes whose tail past the key word is
/// zero.
pub open spec fn spec_decode_account(bytes: Seq<u8>) -> Option<AccountId> {
    if bytes.len() == 32 && (forall|i: int| 8 <= i < 32 ==> bytes[i] == 0) {
        Some(AccountId(vstd::bytes::spec_u64_from_le_bytes(bytes.take(8))))
    } else {
        None
    }
}

/// Decode canonical account bytes.
pub fn decode_account_bytes(bytes: &[u8]) -> (r: Option<AccountId>)
    ensures
        r == spec_decode_account(bytes@),
{
    if bytes.len() != 32 {
        return None;
    }
    let mut i: usize = 8;
    while i < 32
        invariant
            8 <= i <= 32,
            bytes@.len() == 32,
            forall|j: int| 8 <= j < i ==> bytes@[j] == 0,
        decreases 32 - i,
    {
        if *vstd::slice::slice_index_get(bytes, i) != 0 {
            return None;
        }
        i = i + 1;
    }
    let head = vstd::slice::slice_subrange(bytes, 0, 8);
    let key = vstd::bytes::u64_from_le_bytes(head);
    proof {
        assert(head@ =~= bytes@.take(8));
    }
    Some(AccountId(key))
}

/// Relies on `sp_core::crypto::AccountId32::from_ss58check` (with
/// `core::str::from_utf8` converting the bytes): a decoded address is a
/// 32-byte public key. Whether an address with an unregistered prefix
/// decodes at all depends on a process-wide setting of that crate, so
/// nothing more is assumed of the outcome; the verified decoder below
/// takes whatever comes back.
#[verifier::external_body]
fn ss58_decode(bytes: &[u8]) -> (r: Option<Vec<u8>>)
    ensures
        r matches Some(pk) ==> pk@.len() == 32,
{
    let text = core::str::from_utf8(bytes).ok()?;
    let account = sp_core::crypto::AccountId32::from_ss58check(text).ok()?;
    let raw: [u8; 32] = account.into();
    Some(raw.to_vec())
}

/// Decode the beneficiary named by the inherent payload, if any:
/// canonical account bytes decode directly; otherwise the bytes are read
/// as an SS58 address and its public key must have the canonical shape.
/// Whatever the address decoding yields, the beneficiary comes out of
/// the verified canonical decoder alone.
pub fn create_inherent(data: &MinerInherentData) -> (r: Option<AccountId>)
    ensures
        data.miner_address is None ==> r is None,
        data.miner_address is Some && spec_decode_account(data.miner_address->0@) is Some
            ==> r == spec_decode_account(data.miner_address->0@),
        data.miner_address is Some && spec_decode_account(data.miner_address->0@) is None
            && r is Some ==> exists|pk: Seq<u8>|
            pk.len() == 32 && #[trigger] spec_decode_account(pk) == r,
{
    match &data.miner_address {
        None => None,
        Some(bytes) => {
            match decode_account_bytes(bytes.as_slice()) {
                Some(a) => Some(a),
                None => {
                    match ss58_decode(bytes.as_slice()) {
                        Some(pk) => {
                            let decoded = decode_account_bytes(pk.as_slice());
                            proof {
                                if decoded is Some {
                                    assert(spec_decode_account(pk@) == decoded);
                                }
                            }
                            decoded
                        },
                        None => None,
                    }
                },
            }
        },
    }
}

} // verus!
