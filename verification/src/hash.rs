//! SHA-256, computed by the `sha2` crate.

use vstd::prelude::*;
use sha2::Digest;

verus! {

/// The SHA-256 digest of a message.
pub uninterp spec fn sha256_digest(message: Seq<u8>) -> Seq<u8>;

/// Calls `Sha256::digest` of `sha2`, which feeds the whole message to a fresh
/// hasher and finalizes it. The digest is a function of the message alone and
/// has thirty-two bytes.
#[verifier::external_body]
pub(crate) fn sha256(message: &[u8]) -> (digest: Vec<u8>)
    ensures
        digest@ == sha256_digest(message@),
        digest@.len() == 32,
{
    sha2::Sha256::digest(message).to_vec()
}

} // verus!
