//! The one cryptographic primitive of the node: SHA-256 rendered as a
//! lowercase hex string. The digest itself is named, not restated: every
//! contract above speaks of `sha256_hex_of` and is proved from it.

use sha2::Digest;
use vstd::prelude::*;

verus! {

/// The SHA-256 digest of the UTF-8 bytes of a character sequence, written as
/// lowercase hex. A pure function of its input; its value is only ever
/// produced by `sha256_hex`.
pub uninterp spec fn sha256_hex_of(s: Seq<char>) -> Seq<char>;

/// Relies on sha2::Sha256 (SHA-256 of the input bytes) and generic-array's
/// LowerHex (each of the 32 digest bytes printed as two lowercase hex
/// digits): the result is 64 hex characters, a function of the input alone.
#[verifier::external_body]
pub(crate) fn sha256_hex(input: &str) -> (r: String)
    ensures
        r@ == sha256_hex_of(input@),
        r@.len() == 64,
{
    let mut hasher = sha2::Sha256::new();
    hasher.update(input.as_bytes());
    format!("{:x}", hasher.finalize())
}

} // verus!
