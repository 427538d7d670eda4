//! The SHA-1 digest, computed by the crate `sha1`.

use sha1::Digest;
use vstd::prelude::*;

verus! {

/// The SHA-1 digest of a message.
pub uninterp spec fn sha1_digest(message: Seq<u8>) -> Seq<u8>;

/// Calls `Sha1::digest` of the crate `sha1`: a fresh hasher is fed the whole
/// message and finalized.
///
/// Trusted: the bytes returned are the SHA-1 digest of the message, which
/// depends on the message alone, and there are twenty of them.
#[verifier::external_body]
pub(crate) fn compute_sha1(message: &[u8]) -> (digest: Vec<u8>)
    ensures
        digest@ == sha1_digest(message@),
        digest@.len() == 20,
{
    sha1::Sha1::digest(message).to_vec()
}

} // verus!
