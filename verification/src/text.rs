//! Canonical text forms of numbers and byte strings, and questions asked of
//! text.

use vstd::prelude::*;
use vstd::string::*;
use vstd::utf8::*;

verus! {

/// Trusted of `String::push` of std: it appends the character to the end of
/// the string and changes nothing else of it.
pub assume_specification[ String::push ](s: &mut String, c: char)
    ensures
        final(s)@ == old(s)@.push(c),
;

/// The character that writes the digit `d` in bases up to sixteen: `0` to `9`,
/// then `a` to `f`.
pub open spec fn digit_char(d: nat) -> char
    recommends
        d < 16,
{
    if d < 10 {
        (48 + d) as char
    } else {
        (87 + d) as char
    }
}

/// Whether `c` is a lower-case hexadecimal digit: `0` to `9` or `a` to `f`.
pub open spec fn is_hex_digit(c: char) -> bool {
    ('0' <= c && c <= '9') || ('a' <= c && c <= 'f')
}

/// Whether `text` is made of lower-case hexadecimal digits alone.
pub open spec fn is_hex_text(text: Seq<char>) -> bool {
    forall|i: int| 0 <= i < text.len() ==> is_hex_digit(#[trigger] text[i])
}

/// The decimal numeral of `n`, without sign or leading zeros.
pub open spec fn decimal(n: nat) -> Seq<char>
    decreases n,
{
    if n < 10 {
        seq![digit_char(n)]
    } else {
        decimal(n / 10).push(digit_char(n % 10))
    }
}

/// The lower-case hexadecimal text of `bytes`: two digits per byte, high
/// nibble first.
pub open spec fn lower_hex(bytes: Seq<u8>) -> Seq<char> {
    Seq::new(
        2 * bytes.len(),
        |i: int|
            if i % 2 == 0 {
                digit_char((bytes[i / 2] / 16) as nat)
            } else {
                digit_char((bytes[i / 2] % 16) as nat)
            },
    )
}

/// Whether `text` begins with at least `count` characters `0`.
pub open spec fn has_leading_zeros(text: Seq<char>, count: nat) -> bool {
    &&& count <= text.len()
    &&& forall|i: int| 0 <= i < count ==> text[i] == '0'
}

/// The character for a digit below sixteen.
fn digit_to_char(d: u8) -> (c: char)
    requires
        d < 16,
    ensures
        c == digit_char(d as nat),
        is_hex_digit(c),
{
    if d < 10 {
        (48 + d) as char
    } else {
        (87 + d) as char
    }
}

/// Appends the decimal numeral of `n` to `out`.
pub fn push_decimal(out: &mut String, n: u64)
    ensures
        final(out)@ == old(out)@ + decimal(n as nat),
    decreases n,
{
    if n >= 10 {
        push_decimal(out, n / 10);
    }
    out.push(digit_to_char((n % 10) as u8));
}

/// The decimal numeral of `n` as a string.
pub fn to_decimal(n: u64) -> (s: String)
    ensures
        s@ == decimal(n as nat),
{
    let mut s = String::new();
    push_decimal(&mut s, n);
    s
}

/// The lower-case hexadecimal text of `bytes` as a string.
pub fn to_lower_hex(bytes: &[u8]) -> (s: String)
    ensures
        s@ == lower_hex(bytes@),
        s@.len() == 2 * bytes@.len(),
        is_hex_text(s@),
{
    let mut s = String::new();
    let mut i: usize = 0;
    while i < bytes.len()
        invariant
            i <= bytes.len(),
            s@.len() == 2 * i,
            forall|j: int| 0 <= j < 2 * i ==> s@[j] == lower_hex(bytes@)[j],
            is_hex_text(s@),
        decreases bytes.len() - i,
    {
        let b = bytes[i];
        s.push(digit_to_char(b / 16));
        s.push(digit_to_char(b % 16));
        i += 1;
    }
    s
}

/// Tests whether two texts are the same.
pub fn same_text(a: &str, b: &str) -> (same: bool)
    ensures
        same == (a@ == b@),
{
    let left = a.as_bytes();
    let right = b.as_bytes();
    if left.len() != right.len() {
        return false;
    }
    let mut i: usize = 0;
    while i < left.len()
        invariant
            i <= left.len(),
            left.len() == right.len(),
            left@ == encode_utf8(a@),
            right@ == encode_utf8(b@),
            forall|j: int| 0 <= j < i ==> left@[j] == right@[j],
        decreases left.len() - i,
    {
        if left[i] != right[i] {
            return false;
        }
        i += 1;
    }
    proof {
        assert(left@ =~= right@);
        encode_utf8_decode_utf8(a@);
        encode_utf8_decode_utf8(b@);
    }
    true
}

/// Tests whether `text` begins with at least `count` characters `0`.
pub fn starts_with_zeros(text: &str, count: u32) -> (b: bool)
    ensures
        b == has_leading_zeros(text@, count as nat),
{
    let len = text.unicode_len();
    if (count as usize) > len {
        return false;
    }
    let mut i: usize = 0;
    while i < count as usize
        invariant
            i <= count as usize <= len,
            len == text@.len(),
            forall|j: int| 0 <= j < i ==> text@[j] == '0',
        decreases count as usize - i,
    {
        if text.get_char(i) != '0' {
            return false;
        }
        i += 1;
    }
    true
}

} // verus!
