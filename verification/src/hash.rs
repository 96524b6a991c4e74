//! SHA3-256, as the `sha3` crate computes it.

use vstd::prelude::*;
use sha3::{Digest, Sha3_256};

verus! {

/// The SHA3-256 digest of a byte string. Nothing is claimed of its value but
/// that it depends on the bytes alone.
pub uninterp spec fn sha3_256(data: Seq<u8>) -> Seq<u8>;

/// Calls `Digest::digest` for `Sha3_256`, of the `sha3` crate, on `data` and
/// copies the output into a vector. Trusted: the output is the SHA3-256 digest
/// of the input, and it is 32 bytes long, the output size that the crate
/// fixes for `Sha3_256`.
#[verifier::external_body]
pub(crate) fn sha3_256_digest(data: &[u8]) -> (digest: Vec<u8>)
    ensures
        digest@ == sha3_256(data@),
        digest@.len() == 32,
{
    Sha3_256::digest(data).to_vec()
}

} // verus!
