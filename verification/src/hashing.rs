//! Digests and encodings the chain's commitments are built from: BLAKE2b
//! for on-chain commitments, SHA3-256 for the proof-of-work, and the two
//! textual encodings the mining preimage uses. The digests themselves come
//! from outside crates; each call sits behind one wrapper whose contract
//! names its result.

use vstd::prelude::*;
use sha3::Digest;

verus! {

/// The 32-byte BLAKE2b digest of a byte string. The digest is a function
/// of its input alone; nothing else is assumed of it.
pub uninterp spec fn blake2_256_of(data: Seq<u8>) -> Seq<u8>;

/// Relies on `sp_crypto_hashing::blake2_256`: a BLAKE2b hash with a
/// 32-byte digest, depending on the input bytes alone.
#[verifier::external_body]
pub fn blake2_256(data: &[u8]) -> (r: [u8; 32])
    ensures
        r@ == blake2_256_of(data@),
{
    sp_crypto_hashing::blake2_256(data)
}

/// The 32-byte SHA3-256 digest of a byte string. The digest is a function
/// of its input alone; nothing else is assumed of it.
pub uninterp spec fn sha3_256_of(data: Seq<u8>) -> Seq<u8>;

/// Relies on `sha3::Sha3_256`: the SHA3-256 digest of the input bytes,
/// depending on them alone.
#[verifier::external_body]
pub fn sha3_256(data: &[u8]) -> (r: [u8; 32])
    ensures
        r@ == sha3_256_of(data@),
{
    sha3::Sha3_256::digest(data).into()
}

/// The lower-case hex digit for a value below 16.
pub open spec fn spec_hex_digit(n: int) -> char {
    if n == 0 {
        '0'
    } else if n == 1 {
        '1'
    } else if n == 2 {
        '2'
    } else if n == 3 {
        '3'
    } else if n == 4 {
        '4'
    } else if n == 5 {
        '5'
    } else if n == 6 {
        '6'
    } else if n == 7 {
        '7'
    } else if n == 8 {
        '8'
    } else if n == 9 {
        '9'
    } else if n == 10 {
        'a'
    } else if n == 11 {
        'b'
    } else if n == 12 {
        'c'
    } else if n == 13 {
        'd'
    } else if n == 14 {
        'e'
    } else {
        'f'
    }
}

/// Lower-case hex encoding of a byte string: two digits per byte, high
/// nibble first.
pub open spec fn spec_hex_of(data: Seq<u8>) -> Seq<char>
    decreases data.len(),
{
    if data.len() == 0 {
        Seq::<char>::empty()
    } else {
        seq![
            spec_hex_digit((data.first() >> 4) as int),
            spec_hex_digit((data.first() & 0x0f) as int),
        ] + spec_hex_of(data.drop_first())
    }
}

/// Relies on `hex::encode`: the lower-case hex encoding of the input,
/// two digits per byte.
#[verifier::external_body]
pub fn hex_encode(data: &[u8]) -> (r: String)
    ensures
        r@ == spec_hex_of(data@),
{
    hex::encode(data)
}

/// The digit character for a value below 10.
pub open spec fn spec_dec_digit(n: int) -> char {
    if n == 0 {
        '0'
    } else if n == 1 {
        '1'
    } else if n == 2 {
        '2'
    } else if n == 3 {
        '3'
    } else if n == 4 {
        '4'
    } else if n == 5 {
        '5'
    } else if n == 6 {
        '6'
    } else if n == 7 {
        '7'
    } else if n == 8 {
        '8'
    } else {
        '9'
    }
}

/// The ordinary decimal rendering of a number, without sign or padding.
pub open spec fn spec_decimal_of(n: nat) -> Seq<char>
    decreases n,
{
    if n < 10 {
        seq![spec_dec_digit(n as int)]
    } else {
        spec_decimal_of(n / 10).push(spec_dec_digit((n % 10) as int))
    }
}

/// Relies on core's `Display` for `u64` (via `format!`): the plain
/// decimal rendering of the number.
#[verifier::external_body]
pub fn u64_to_decimal(n: u64) -> (r: String)
    ensures
        r@ == spec_decimal_of(n as nat),
{
    format!("{}", n)
}

} // verus!
