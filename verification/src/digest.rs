//! SHA-256 digests.

use vstd::prelude::*;
use vstd::string::*;

use sha2::Digest;

use crate::text;

verus! {

/// The SHA-256 digest of `bytes`.
pub uninterp spec fn sha256(bytes: Seq<u8>) -> Seq<u8>;

/// `sha2::Sha256::digest`. The result is the digest of the bytes, which depends on nothing
/// else and is 32 bytes long.
#[verifier::external_body]
pub(crate) fn sha256_of(bytes: &[u8]) -> (r: Vec<u8>)
    ensures
        r@ == sha256(bytes@),
        r@.len() == 32,
{
    sha2::Sha256::digest(bytes).to_vec()
}

/// The digest of a text's bytes, in lower-case hexadecimal.
pub fn hex_digest(s: &str) -> (r: String)
    ensures
        r@ == text::hex(sha256(s.spec_bytes())),
{
    let digest = sha256_of(s.as_bytes());
    text::hex_of(&digest)
}

} // verus!
