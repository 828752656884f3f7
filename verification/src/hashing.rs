//! The one-way hash that seeds and parameter sets are digested with.

use vstd::prelude::*;

verus! {

/// The 32-byte Blake2b digest of `data`.
pub uninterp spec fn blake2_256_digest(data: Seq<u8>) -> Seq<u8>;

/// Calls `sp_crypto_hashing::blake2_256`, which digests `data` with Blake2b
/// at an output length of 32 bytes. The digest depends on `data` alone.
#[verifier::external_body]
pub(crate) fn blake2_256(data: &[u8]) -> (digest: [u8; 32])
    ensures
        digest@ == blake2_256_digest(data@),
{
    sp_crypto_hashing::blake2_256(data)
}

} // verus!
