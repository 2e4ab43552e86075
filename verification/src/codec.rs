//! Base-58 text for keys and signatures.

use base58::{FromBase58, ToBase58};
use vstd::prelude::*;
use vstd::string::*;

verus! {

/// The longest byte string that the encoder is made for.
pub const MAX_ENCODED_BYTES: usize = 128;

/// The longest text, in characters, that the decoder is given. The decoder
/// works in a buffer of this many bytes.
pub const MAX_DECODED_CHARS: usize = 132;

/// Whether `c` is a digit of base 58: a digit from `1` to `9` or a letter
/// other than `I`, `O` and `l`.
pub open spec fn is_base58_char(c: char) -> bool {
    ||| '1' <= c && c <= '9'
    ||| 'A' <= c && c <= 'H'
    ||| 'J' <= c && c <= 'N'
    ||| 'P' <= c && c <= 'Z'
    ||| 'a' <= c && c <= 'k'
    ||| 'm' <= c && c <= 'z'
}

/// Whether `text` is made of digits of base 58 alone.
pub open spec fn is_base58_text(text: Seq<char>) -> bool {
    forall|i: int| 0 <= i < text.len() ==> is_base58_char(#[trigger] text[i])
}

/// What a text stands for in base 58.
pub enum Decoding {
    /// The bytes that the text encodes.
    Bytes(Seq<u8>),
    /// The text encodes nothing; the decoder's complaint is given as text.
    Refused(Seq<char>),
}

/// The base-58 text of a byte string, as `to_base58` of `base58` gives it.
pub uninterp spec fn base58_encoding(bytes: Seq<u8>) -> Seq<char>;

/// What `from_base58` of `base58` makes of a text: the bytes it stands for,
/// or the rendering of the decoder's complaint.
pub uninterp spec fn base58_decoding(text: Seq<char>) -> Decoding;

/// What decoding a text gives: a text longer than [`MAX_DECODED_CHARS`] is
/// turned down for its length, any other is left to the base-58 decoder.
pub open spec fn decoded(text: Seq<char>) -> Decoding {
    if text.len() > MAX_DECODED_CHARS {
        Decoding::Refused("InvalidBase58Length"@)
    } else {
        base58_decoding(text)
    }
}

/// Calls `to_base58` of the `base58` crate on a byte slice. Trusted: the
/// result is the base-58 text of `bytes`; it has at most 138 characters for
/// every 100 bytes, and one more; each of its characters is taken from the
/// encoder's alphabet; and the crate's decoder maps it back to `bytes`.
#[verifier::external_body]
fn base58_encode(bytes: &[u8]) -> (text: String)
    requires
        bytes@.len() <= MAX_ENCODED_BYTES,
    ensures
        text@ == base58_encoding(bytes@),
        text@.len() <= bytes@.len() * 138 / 100 + 1,
        forall|i: int| 0 <= i < text@.len() ==> is_base58_char(#[trigger] text@[i]),
        base58_decoding(text@) == Decoding::Bytes(bytes@),
{
    bytes.to_base58()
}

/// Calls `from_base58` of the `base58` crate on a text. Trusted: the result
/// is what the decoder makes of `text`, an error being given by its `Debug`
/// rendering. Texts longer than the decoder's buffer are left out: on some of
/// them it panics.
#[verifier::external_body]
fn base58_decode(text: &str) -> (result: Result<Vec<u8>, String>)
    requires
        text@.len() <= MAX_DECODED_CHARS,
    ensures
        match result {
            Ok(bytes) => base58_decoding(text@) == Decoding::Bytes(bytes@),
            Err(complaint) => base58_decoding(text@) == Decoding::Refused(complaint@),
        },
{
    match text.from_base58() {
        Ok(bytes) => Ok(bytes),
        Err(error) => Err(format!("{:?}", error)),
    }
}

/// Encodes up to [`MAX_ENCODED_BYTES`] bytes as base-58 text, which is made
/// of digits of base 58 alone. Decoding the text gives the bytes back when
/// the text is short enough for the decoder, as it is for every input of up
/// to 94 bytes.
pub fn encode(bytes: &[u8]) -> (text: String)
    requires
        bytes@.len() <= MAX_ENCODED_BYTES,
    ensures
        text@ == base58_encoding(bytes@),
        is_base58_text(text@),
        text@.len() <= MAX_DECODED_CHARS ==> decoded(text@) == Decoding::Bytes(bytes@),
        bytes@.len() <= 94 ==> text@.len() <= MAX_DECODED_CHARS,
{
    base58_encode(bytes)
}

/// Decodes base-58 text into bytes, or says why the text cannot be decoded.
pub fn decode(text: &str) -> (result: Result<Vec<u8>, String>)
    ensures
        match result {
            Ok(bytes) => decoded(text@) == Decoding::Bytes(bytes@),
            Err(complaint) => decoded(text@) == Decoding::Refused(complaint@),
        },
{
    if text.unicode_len() > MAX_DECODED_CHARS {
        Err(String::from_str("InvalidBase58Length"))
    } else {
        base58_decode(text)
    }
}

} // verus!
