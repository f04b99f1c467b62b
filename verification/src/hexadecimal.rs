//! Hexadecimal notation for byte strings.

use vstd::prelude::*;

verus! {

/// The lower-case hexadecimal digit for a value below sixteen.
pub open spec fn hex_digit(v: nat) -> char {
    if v < 10 {
        crate::text::digit_char(v)
    } else if v == 10 {
        'a'
    } else if v == 11 {
        'b'
    } else if v == 12 {
        'c'
    } else if v == 13 {
        'd'
    } else if v == 14 {
        'e'
    } else {
        'f'
    }
}

/// The value of a hexadecimal digit of either case, `None` for any other character.
pub open spec fn hex_value(c: char) -> Option<nat> {
    if '0' <= c && c <= '9' {
        Some((c as nat - '0' as nat) as nat)
    } else if 'a' <= c && c <= 'f' {
        Some((c as nat - 'a' as nat + 10) as nat)
    } else if 'A' <= c && c <= 'F' {
        Some((c as nat - 'A' as nat + 10) as nat)
    } else {
        None
    }
}

/// Two lower-case digits per byte, the high half first.
pub open spec fn hex_text(bytes: Seq<u8>) -> Seq<char> {
    Seq::new(
        2 * bytes.len(),
        |i: int|
            if i % 2 == 0 {
                hex_digit((bytes[i / 2] / 16) as nat)
            } else {
                hex_digit((bytes[i / 2] % 16) as nat)
            },
    )
}

/// Whether `text` is an even number of hexadecimal digits.
pub open spec fn is_hex_text(text: Seq<char>) -> bool {
    &&& text.len() % 2 == 0
    &&& forall|i: int| 0 <= i < text.len() ==> hex_value(#[trigger] text[i]) is Some
}

/// The bytes that a text of hexadecimal digits denotes.
pub open spec fn hex_bytes(text: Seq<char>) -> Seq<u8> {
    Seq::new(
        text.len() / 2,
        |i: int| (16 * hex_value(text[2 * i]).unwrap() + hex_value(text[2 * i + 1]).unwrap()) as u8,
    )
}

#[verifier::external_type_specification]
#[verifier::external_body]
pub struct ExFromHexError(hex::FromHexError);

/// `hex::encode`: every byte becomes two lower-case hexadecimal digits, high half first.
#[verifier::external_body]
pub(crate) fn hex_encode(bytes: &[u8]) -> (text: String)
    ensures
        text@ == hex_text(bytes@),
{
    hex::encode(bytes)
}

/// `hex::decode`: succeeds exactly on an even number of hexadecimal digits of either
/// case, and then yields one byte per pair of digits.
#[verifier::external_body]
pub(crate) fn hex_decode(text: &str) -> (r: Result<Vec<u8>, hex::FromHexError>)
    ensures
        r is Ok <==> is_hex_text(text@),
        r matches Ok(bytes) ==> bytes@ == hex_bytes(text@),
{
    hex::decode(text)
}

/// Writes `bytes` in lower-case hexadecimal.
pub fn encode_hex(bytes: &[u8]) -> (text: String)
    ensures
        text@ == hex_text(bytes@),
{
    hex_encode(bytes)
}

/// Reads a text of hexadecimal digits; `None` where `text` is not one.
pub fn decode_hex(text: &str) -> (r: Option<Vec<u8>>)
    ensures
        r is Some <==> is_hex_text(text@),
        r matches Some(bytes) ==> bytes@ == hex_bytes(text@),
{
    match hex_decode(text) {
        Ok(bytes) => Some(bytes),
        Err(_) => None,
    }
}

/// Decoding undoes encoding: the hexadecimal text of any bytes is well formed and
/// denotes those bytes.
pub proof fn lemma_hex_round_trip(bytes: Seq<u8>)
    ensures
        is_hex_text(hex_text(bytes)),
        hex_bytes(hex_text(bytes)) == bytes,
{
    let text = hex_text(bytes);
    assert forall|v: nat| v < 16 implies hex_value(#[trigger] hex_digit(v)) == Some(v) by {
        lemma_hex_digit_value(v);
    }
    assert forall|i: int| 0 <= i < text.len() implies hex_value(#[trigger] text[i]) is Some by {
        if i % 2 == 0 {
            lemma_hex_digit_value((bytes[i / 2] / 16) as nat);
        } else {
            lemma_hex_digit_value((bytes[i / 2] % 16) as nat);
        }
    }
    assert forall|i: int| 0 <= i < bytes.len() implies hex_bytes(text)[i] == bytes[i] by {
        let b = bytes[i];
        lemma_hex_digit_value((b / 16) as nat);
        lemma_hex_digit_value((b % 16) as nat);
        assert(text[2 * i] == hex_digit((b / 16) as nat));
        assert(text[2 * i + 1] == hex_digit((b % 16) as nat));
        assert(16 * (b / 16) + b % 16 == b);
    }
    assert(hex_bytes(text) =~= bytes);
}

/// A hexadecimal digit has the value it was written for.
pub proof fn lemma_hex_digit_value(v: nat)
    requires
        v < 16,
    ensures
        hex_value(hex_digit(v)) == Some(v),
{
}

} // verus!
