//! The message digest that a signature is made over.

use sha2::Digest;
use sha2::Sha256;
use vstd::prelude::*;

verus! {

/// The SHA-256 digest of `data`, as the `sha2` crate computes it.
pub uninterp spec fn sha256(data: Seq<u8>) -> Seq<u8>;

/// The number of bytes of a SHA-256 digest.
pub const DIGEST_SIZE: usize = 32;

/// `Sha256::digest` of the `sha2` crate: the digest of `data`, which depends on
/// nothing but `data` and has thirty-two bytes, the output size that the type
/// `Sha256` fixes. Nothing is proved of it.
#[verifier::external_body]
pub(crate) fn sha256_digest(data: &[u8]) -> (digest: Vec<u8>)
    ensures
        digest@ == sha256(data@),
        digest@.len() == DIGEST_SIZE,
{
    Sha256::digest(data).to_vec()
}

} // verus!
