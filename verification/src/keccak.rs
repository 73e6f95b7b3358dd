//! The Keccak-256 hash.

use vstd::prelude::*;

verus! {

/// The Keccak-256 hash of some bytes.
pub uninterp spec fn keccak256_hash(data: Seq<u8>) -> [u8; 32];

/// Two different inputs with one hash.
pub open spec fn keccak256_collision(a: Seq<u8>, b: Seq<u8>) -> bool {
    a != b && keccak256_hash(a) == keccak256_hash(b)
}

/// `ethers::utils::keccak256`: the Keccak-256 hash of the bytes, which depends
/// on nothing but them.
#[verifier::external_body]
pub(crate) fn keccak256(data: &[u8]) -> (r: [u8; 32])
    ensures
        r == keccak256_hash(data@),
{
    ethers::utils::keccak256(data)
}

} // verus!
