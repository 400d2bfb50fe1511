//! The canonical compact encoding the runtime's ABI uses for the
//! beneficiary inherent: a compact length prefix, raw bytes, and fixed
//! little-endian words.

use vstd::prelude::*;

verus! {

/// The compact encoding of a 32-bit number: the two low bits of the
/// first byte select the mode, the value sits above them. One byte up to
/// 63, two bytes up to 2^14 - 1, four bytes up to 2^30 - 1, a marker
/// byte and a little-endian word beyond.
pub open spec fn spec_compact_u32(n: u32) -> Seq<u8> {
    if n < 64 {
        seq![(n * 4) as u8]
    } else if n < 16384 {
        vstd::bytes::spec_u16_to_le_bytes((n * 4 + 1) as u16)
    } else if n < 1073741824 {
        vstd::bytes::spec_u32_to_le_bytes((n * 4 + 2) as u32)
    } else {
        seq![3u8] + vstd::bytes::spec_u32_to_le_bytes(n)
    }
}

/// Encode a 32-bit number compactly.
pub fn compact_u32_encode(n: u32) -> (r: Vec<u8>)
    ensures
        r@ == spec_compact_u32(n),
{
    if n < 64 {
        let mut r: Vec<u8> = Vec::new();
        r.push((n * 4) as u8);
        proof {
            assert(r@ =~= spec_compact_u32(n));
        }
        r
    } else if n < 16384 {
        let r = vstd::bytes::u16_to_le_bytes((n * 4 + 1) as u16);
        r
    } else if n < 1073741824 {
        let r = vstd::bytes::u32_to_le_bytes(n * 4 + 2);
        r
    } else {
        let mut r: Vec<u8> = Vec::new();
        r.push(3u8);
        let mut word = vstd::bytes::u32_to_le_bytes(n);
        r.append(&mut word);
        proof {
            assert(r@ =~= spec_compact_u32(n));
        }
        r
    }
}

/// The encoding of an optional byte string: a zero byte for nothing, a
/// one byte followed by the compact length and the raw bytes otherwise.
pub open spec fn spec_encode_option_bytes(o: Option<Seq<u8>>) -> Seq<u8> {
    match o {
        None => seq![0u8],
        Some(b) => seq![1u8] + spec_compact_u32(b.len() as u32) + b,
    }
}

/// Encode an optional byte string.
pub fn encode_option_bytes(o: &Option<Vec<u8>>) -> (r: Vec<u8>)
    requires
        o matches Some(b) ==> b@.len() <= u32::MAX,
    ensures
        r@ == spec_encode_option_bytes(crate::trade::spec_opt_bytes(*o)),
{
    match o {
        None => {
            let mut r: Vec<u8> = Vec::new();
            r.push(0u8);
            proof {
                assert(r@ =~= spec_encode_option_bytes(crate::trade::spec_opt_bytes(*o)));
            }
            r
        },
        Some(b) => {
            let mut r: Vec<u8> = Vec::new();
            r.push(1u8);
            let mut len_prefix = compact_u32_encode(b.len() as u32);
            r.append(&mut len_prefix);
            r.extend_from_slice(b.as_slice());
            proof {
                assert(r@ =~= spec_encode_option_bytes(crate::trade::spec_opt_bytes(*o)));
            }
            r
        },
    }
}

} // verus!
