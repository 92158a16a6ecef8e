//! Content digests.

use vstd::prelude::*;

use crate::text::is_lower_hex;

verus! {

/// The SHA-256 digest of a byte string, written as lowercase hexadecimal digits.
pub uninterp spec fn sha256_hex_of(bytes: Seq<u8>) -> Seq<char>;

/// Calls `sha2::Sha256::digest` and writes the digest with `{:x}`. The contract claims that the text
/// depends on the bytes alone and consists of 64 lowercase hexadecimal digits.
#[verifier::external_body]
pub(crate) fn sha256_lower_hex(bytes: &[u8]) -> (r: String)
    ensures
        r@ == sha256_hex_of(bytes@),
        r@.len() == 64,
        is_lower_hex(r@),
{
    format!("{:x}", <sha2::Sha256 as sha2::Digest>::digest(bytes))
}

} // verus!
