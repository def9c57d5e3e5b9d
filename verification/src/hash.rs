//! The Keccak-256 digest of a byte string, as a 256-bit value.

use vstd::prelude::*;
use sha3::{Digest, Keccak256};
use crate::uint256::{U256, be_bytes_value};

verus! {

/// The 32 bytes of the Keccak-256 digest of `data`.
pub uninterp spec fn keccak256_digest(data: Seq<u8>) -> Seq<u8>;

/// Runs `sha3::Keccak256` over `data`: a fresh hasher, one `update` with the
/// whole input, then `finalize`. The contract gives the 32 bytes that come
/// out a name; nothing else is claimed of them.
#[verifier::external_body]
fn keccak256_bytes(data: &[u8]) -> (digest: [u8; 32])
    ensures
        digest@ == keccak256_digest(data@),
{
    let mut hasher = Keccak256::new();
    hasher.update(data);
    hasher.finalize().into()
}

/// The Keccak-256 digest of `data`, read as a number with the most
/// significant byte first.
pub fn keccak256(data: &[u8]) -> (r: U256)
    ensures
        r@ == be_bytes_value(keccak256_digest(data@)),
{
    U256::from_be_bytes(keccak256_bytes(data))
}

} // verus!
