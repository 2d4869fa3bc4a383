//! Deriving the on-chain address of a public key.
//!
//! The address is the low-order 20 bytes of the 256-bit keccak hash of the
//! uncompressed public point's 64 payload bytes, rendered as `0x` plus 40
//! lowercase hex characters: 42 characters in all.

use vstd::prelude::*;

use crate::errors::WalletError;
use crate::hexutil::{hex_encode, hex_of};
use crate::keys::Keypair;

verus! {

/// The 32-byte keccak-256 digest of a byte string.
pub uninterp spec fn keccak_of(data: Seq<u8>) -> Seq<u8>;

/// Hashes a byte string with keccak-256.
///
/// Relies on tiny-keccak's `keccak256`: a pure 256-bit digest of the input
/// bytes alone, returned as a 32-byte array.
#[verifier::external_body]
fn keccak256(data: &[u8]) -> (r: Vec<u8>)
    ensures
        r@ == keccak_of(data@),
        r@.len() == 32,
{
    tiny_keccak::keccak256(data).to_vec()
}

/// The address characters derived from a 65-byte uncompressed public point:
/// `0x` followed by the lowercase hex of the last 20 digest bytes of the
/// 64 payload bytes after the marker.
pub open spec fn address_chars_of(uncompressed: Seq<u8>) -> Seq<char> {
    seq!['0', 'x'] + hex_of(keccak_of(uncompressed.subrange(1, 65)).subrange(12, 32))
}

/// Whether a 65-byte encoding carries the uncompressed-point marker.
pub open spec fn has_uncompressed_marker(uncompressed: Seq<u8>) -> bool {
    uncompressed.len() == 65 && uncompressed[0] == 4u8
}

/// Address derivation is referentially transparent: any two keypairs whose
/// public keys share the uncompressed encoding receive the same address,
/// however often and wherever it is derived.
pub proof fn lemma_address_deterministic(a: &Keypair, b: &Keypair)
    requires
        a.public_uncompressed@ == b.public_uncompressed@,
    ensures
        address_chars_of(a.public_uncompressed@) == address_chars_of(b.public_uncompressed@),
{
}

/// Derives the on-chain address of a keypair's public key.
///
/// The leading format byte of the uncompressed encoding is checked against the
/// uncompressed-point marker first: a mismatch means the key encoding is
/// corrupt or incompatible, and the call fails instead of hashing bad bytes.
/// On success the address is a pure function of the public key: 42
/// characters, `0x` then 40 lowercase hex digits.
pub fn public_key_address(keypair: &Keypair) -> (r: Result<String, WalletError>)
    ensures
        r is Ok <==> has_uncompressed_marker(keypair.public_uncompressed@),
        r matches Ok(a) ==> a@ == address_chars_of(keypair.public_uncompressed@) && a@.len() == 42,
        r matches Err(e) ==> e == WalletError::CryptoFormat,
{
    if keypair.public_uncompressed.len() != 65 {
        return Err(WalletError::CryptoFormat);
    }
    let marker = keypair.public_uncompressed[0];
    if marker != 4u8 {
        return Err(WalletError::CryptoFormat);
    }
    let payload: &[u8] = &keypair.public_uncompressed.as_slice()[1..65];
    assert(payload@ == keypair.public_uncompressed@.subrange(1, 65));
    let digest = keccak256(payload);
    let tail: &[u8] = &digest.as_slice()[12..32];
    assert(tail@ == keccak_of(keypair.public_uncompressed@.subrange(1, 65)).subrange(12, 32));
    let hex_part = hex_encode(tail);
    proof {
        reveal_strlit("0x");
    }
    let mut out = String::new();
    out.append("0x");
    out.append(hex_part.as_str());
    proof {
        assert(out@ =~= address_chars_of(keypair.public_uncompressed@));
    }
    Ok(out)
}

} // verus!
