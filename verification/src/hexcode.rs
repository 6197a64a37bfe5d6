//! Hexadecimal text for digests: what `hex::encode` writes and what
//! `hex::decode` accepts, stated over bytes.

use vstd::prelude::*;
use vstd::string::*;
use vstd::utf8::*;

verus! {

/// The byte of the lower-case hexadecimal digit for a value below sixteen:
/// `0` to `9`, then `a` to `f`.
pub open spec fn hex_digit_byte(n: u8) -> u8 {
    if n < 10 {
        ('0' as u8 + n) as u8
    } else {
        ('a' as u8 + n - 10) as u8
    }
}

/// The lower-case hexadecimal digit for a value below sixteen.
pub open spec fn hex_digit(n: u8) -> char {
    hex_digit_byte(n) as char
}

/// The value of one hexadecimal digit, given as a byte of text; both cases
/// are accepted.
pub open spec fn hex_digit_value(c: u8) -> Option<u8> {
    if '0' as u8 <= c <= '9' as u8 {
        Some((c - '0' as u8) as u8)
    } else if 'a' as u8 <= c <= 'f' as u8 {
        Some((c - 'a' as u8 + 10) as u8)
    } else if 'A' as u8 <= c <= 'F' as u8 {
        Some((c - 'A' as u8 + 10) as u8)
    } else {
        None
    }
}

/// The hexadecimal text of `bytes`: two lower-case digits per byte, the high
/// half first.
pub open spec fn hex_text(bytes: Seq<u8>) -> Seq<char> {
    Seq::new(
        2 * bytes.len(),
        |i: int|
            if i % 2 == 0 {
                hex_digit(bytes[i / 2] / 16)
            } else {
                hex_digit(bytes[i / 2] % 16)
            },
    )
}

/// Whether `text` is an even number of hexadecimal digits.
pub open spec fn is_hex_text(text: Seq<u8>) -> bool {
    &&& text.len() % 2 == 0
    &&& forall|i: int| 0 <= i < text.len() ==> (#[trigger] hex_digit_value(text[i])) is Some
}

/// The bytes that `text` spells in hexadecimal, where it spells any.
pub open spec fn hex_bytes(text: Seq<u8>) -> Option<Seq<u8>> {
    if is_hex_text(text) {
        Some(
            Seq::new(
                text.len() / 2,
                |i: int|
                    (hex_digit_value(text[2 * i])->0 * 16 + hex_digit_value(text[2 * i + 1])->0) as u8,
            ),
        )
    } else {
        None
    }
}

/// Calls `hex::encode`, which writes each byte as two lower-case digits from
/// the table `0123456789abcdef`, the high half first.
#[verifier::external_body]
pub(crate) fn hex_encode(bytes: &[u8]) -> (text: String)
    ensures
        text@ == hex_text(bytes@),
{
    hex::encode(bytes)
}

/// Calls `hex::decode` on the bytes of `text`. It fails on an odd length and
/// on any byte that is no hexadecimal digit of either case; otherwise each
/// pair of digits gives one byte, the high half first.
#[verifier::external_body]
pub(crate) fn hex_decode(text: &str) -> (bytes: Option<Vec<u8>>)
    ensures
        bytes is Some <==> hex_bytes(text.spec_bytes()) is Some,
        bytes is Some ==> bytes->0@ == hex_bytes(text.spec_bytes())->0,
{
    match hex::decode(text) {
        Ok(bytes) => Some(bytes),
        Err(_) => None,
    }
}

/// Decoding the hexadecimal text of `bytes` gives `bytes` back.
pub proof fn lemma_hex_round_trip(bytes: Seq<u8>)
    ensures
        hex_bytes(encode_utf8(hex_text(bytes))) == Some(bytes),
{
    let chars = hex_text(bytes);
    let text = encode_utf8(chars);
    is_ascii_chars_encode_utf8(chars);
    assert forall|i: int| 0 <= i < text.len() implies (#[trigger] hex_digit_value(text[i])) is Some
        && hex_digit_value(text[i])->0 == (if i % 2 == 0 {
        bytes[i / 2] / 16
    } else {
        bytes[i / 2] % 16
    }) by {
        assert(chars[i] as u8 == text[i]);
    }
    assert(is_hex_text(text));
    let decoded = hex_bytes(text)->0;
    assert(decoded.len() == bytes.len());
    assert forall|i: int| 0 <= i < bytes.len() implies decoded[i] == bytes[i] by {
        assert(hex_digit_value(text[2 * i])->0 == bytes[i] / 16);
        assert(hex_digit_value(text[2 * i + 1])->0 == bytes[i] % 16);
    }
    assert(decoded =~= bytes);
}

} // verus!
