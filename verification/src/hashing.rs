//! The content-hash identity of key records.

use sha2::Digest;
use vstd::prelude::*;

verus! {

/// What the SHA-256 digest of the UTF-8 bytes of a character sequence reads
/// as uppercase hex: a pure function of the text.
pub uninterp spec fn sha256_hex(text: Seq<char>) -> Seq<char>;

/// Relies on `sha2::Sha256` and generic-array's uppercase-hex formatting:
/// the digest depends on the hashed bytes alone and renders as 64 hex
/// characters, two per digest byte.
#[verifier::external_body]
pub fn sha256_hex_upper(text: &str) -> (r: String)
    ensures
        r@ == sha256_hex(text@),
        r@.len() == 64,
{
    let mut hasher = sha2::Sha256::new();
    hasher.update(text.as_bytes());
    format!("{:X}", hasher.finalize())
}

} // verus!
