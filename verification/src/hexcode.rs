//! Identities, aliases and proofs travel as lowercase hexadecimal text.

use hex::FromHexError;
use vstd::prelude::*;

verus! {

/// The lowercase hexadecimal digit for a number below 16.
pub open spec fn hex_digit(nibble: int) -> char {
    if nibble == 0 {
        '0'
    } else if nibble == 1 {
        '1'
    } else if nibble == 2 {
        '2'
    } else if nibble == 3 {
        '3'
    } else if nibble == 4 {
        '4'
    } else if nibble == 5 {
        '5'
    } else if nibble == 6 {
        '6'
    } else if nibble == 7 {
        '7'
    } else if nibble == 8 {
        '8'
    } else if nibble == 9 {
        '9'
    } else if nibble == 10 {
        'a'
    } else if nibble == 11 {
        'b'
    } else if nibble == 12 {
        'c'
    } else if nibble == 13 {
        'd'
    } else if nibble == 14 {
        'e'
    } else {
        'f'
    }
}

/// The number that a hexadecimal digit of either case stands for.
pub open spec fn hex_value(digit: char) -> Option<int> {
    let code = digit as int;
    if 48 <= code <= 57 {
        Some(code - 48)
    } else if 97 <= code <= 102 {
        Some(code - 87)
    } else if 65 <= code <= 70 {
        Some(code - 55)
    } else {
        None
    }
}

/// The text that spells `bytes`: two lowercase digits for each byte, the high
/// half first.
pub open spec fn hex_lower(bytes: Seq<u8>) -> Seq<char> {
    Seq::new(
        2 * bytes.len(),
        |i: int|
            if i % 2 == 0 {
                hex_digit(bytes[i / 2] as int / 16)
            } else {
                hex_digit(bytes[i / 2] as int % 16)
            },
    )
}

/// The text spells some bytes: an even number of hexadecimal digits.
pub open spec fn is_hex(text: Seq<char>) -> bool {
    &&& text.len() % 2 == 0
    &&& forall|i: int| 0 <= i < text.len() ==> hex_value(#[trigger] text[i]) is Some
}

/// The bytes that `text` spells.
pub open spec fn hex_bytes(text: Seq<char>) -> Seq<u8> {
    Seq::new(
        text.len() / 2,
        |i: int| (hex_value(text[2 * i]).unwrap() * 16 + hex_value(text[2 * i + 1]).unwrap()) as u8,
    )
}

/// Text that spells bytes is read back as the same bytes.
pub proof fn lemma_hex_round_trip(bytes: Seq<u8>)
    ensures
        is_hex(hex_lower(bytes)),
        hex_bytes(hex_lower(bytes)) == bytes,
{
    let text = hex_lower(bytes);
    assert forall|i: int| 0 <= i < text.len() implies hex_value(#[trigger] text[i]) is Some by {
        lemma_digit_value(bytes[i / 2] as int / 16);
        lemma_digit_value(bytes[i / 2] as int % 16);
    }
    assert forall|i: int| 0 <= i < bytes.len() implies hex_bytes(text)[i] == bytes[i] by {
        lemma_digit_value(bytes[i] as int / 16);
        lemma_digit_value(bytes[i] as int % 16);
        assert(text[2 * i] == hex_digit(bytes[(2 * i) / 2] as int / 16));
        assert(text[2 * i + 1] == hex_digit(bytes[(2 * i + 1) / 2] as int % 16));
    }
    assert(hex_bytes(text) =~= bytes);
}

/// A digit stands for the number it was written for.
proof fn lemma_digit_value(nibble: int)
    requires
        0 <= nibble < 16,
    ensures
        hex_value(hex_digit(nibble)) == Some(nibble),
{
}

/// Why `hex::decode` refused a text.
#[verifier::external_type_specification]
#[verifier::external_body]
pub struct ExFromHexError(hex::FromHexError);

/// Calls `hex::encode`, which writes each byte as two lowercase hexadecimal
/// digits, the high half first.
#[verifier::external_body]
pub(crate) fn hex_encode(bytes: &[u8]) -> (text: String)
    ensures
        text@ == hex_lower(bytes@),
{
    hex::encode(bytes)
}

/// Calls `hex::decode`, which reads two hexadecimal digits of either case for
/// each byte. It refuses a text of odd length and one that holds anything but
/// hexadecimal digits.
#[verifier::external_body]
pub(crate) fn hex_decode(text: &str) -> (read: Result<Vec<u8>, FromHexError>)
    ensures
        read is Ok <==> is_hex(text@),
        read matches Ok(bytes) ==> bytes@ == hex_bytes(text@),
{
    hex::decode(text)
}

} // verus!
