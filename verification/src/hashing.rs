//! SHA-256 over text, rendered as lower-case hexadecimal.

use sha2::{Digest, Sha256};
use vstd::prelude::*;
use vstd::string::*;
use vstd::utf8::*;

use crate::text::{is_hex_text, lower_hex, to_lower_hex};

verus! {

/// The SHA-256 digest of a byte string, as `Sha256::digest` of `sha2` gives
/// it.
pub uninterp spec fn sha256(data: Seq<u8>) -> Seq<u8>;

/// The number of characters of a hash: two for each of the 32 bytes of a
/// SHA-256 digest.
pub const HASH_LENGTH: usize = 64;

/// Whether `text` has the form of a hash: [`HASH_LENGTH`] lower-case
/// hexadecimal digits.
pub open spec fn is_digest_text(text: Seq<char>) -> bool {
    text.len() == HASH_LENGTH && is_hex_text(text)
}

/// The hash of a text: the hexadecimal SHA-256 digest of its UTF-8 encoding.
pub open spec fn hash_text(content: Seq<char>) -> Seq<char> {
    lower_hex(sha256(encode_utf8(content)))
}

/// Calls `Sha256::digest` of the `sha2` crate. Trusted: the result is the
/// SHA-256 digest of `data`, which is always 32 bytes long.
#[verifier::external_body]
fn sha256_digest(data: &[u8]) -> (digest: Vec<u8>)
    ensures
        digest@ == sha256(data@),
        digest@.len() == 32,
{
    Sha256::digest(data).to_vec()
}

/// Hashes a text to 64 lower-case hexadecimal digits.
pub fn sha256_hex(content: &str) -> (hash: String)
    ensures
        hash@ == hash_text(content@),
        is_digest_text(hash@),
{
    let digest = sha256_digest(content.as_bytes());
    to_lower_hex(digest.as_slice())
}

} // verus!
