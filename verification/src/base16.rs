//! Hexadecimal text: two digits for each byte, the high half first.

use vstd::prelude::*;

verus! {

/// The value of one hexadecimal digit written as an ASCII byte, if it is one.
pub open spec fn hex_digit_value(byte: u8) -> Option<u8> {
    if 0x30 <= byte <= 0x39 {
        Some((byte - 0x30) as u8)
    } else if 0x41 <= byte <= 0x46 {
        Some((byte - 0x41 + 10) as u8)
    } else if 0x61 <= byte <= 0x66 {
        Some((byte - 0x61 + 10) as u8)
    } else {
        None
    }
}

/// Whether `byte` is one of `0-9`, `a-f`, `A-F`.
pub open spec fn is_hex_digit(byte: u8) -> bool {
    hex_digit_value(byte) is Some
}

/// Whether `text` is an even number of hexadecimal digits.
pub open spec fn well_formed_hex(text: Seq<u8>) -> bool {
    &&& text.len() % 2 == 0
    &&& forall|i: int| 0 <= i < text.len() ==> is_hex_digit(#[trigger] text[i])
}

/// The bytes that a well-formed hexadecimal text names.
pub open spec fn hex_decoded(text: Seq<u8>) -> Seq<u8> {
    Seq::new(
        text.len() / 2,
        |k: int|
            (hex_digit_value(text[2 * k]).unwrap() * 16 + hex_digit_value(
                text[2 * k + 1],
            ).unwrap()) as u8,
    )
}

/// Whether `index` is the position of the first byte of `text` that is no
/// hexadecimal digit.
pub open spec fn first_non_hex(text: Seq<u8>, index: int) -> bool {
    &&& 0 <= index < text.len()
    &&& !is_hex_digit(text[index])
    &&& forall|j: int| 0 <= j < index ==> is_hex_digit(#[trigger] text[j])
}

/// The lower-case hexadecimal digit for a value below sixteen.
pub open spec fn lower_hex_digit(value: int) -> char {
    seq!['0', '1', '2', '3', '4', '5', '6', '7', '8', '9', 'a', 'b', 'c', 'd', 'e', 'f'][value]
}

/// The lower-case hexadecimal text of `bytes`.
pub open spec fn hex_encoded(bytes: Seq<u8>) -> Seq<char> {
    Seq::new(
        2 * bytes.len(),
        |i: int|
            if i % 2 == 0 {
                lower_hex_digit(bytes[i / 2] as int / 16)
            } else {
                lower_hex_digit(bytes[i / 2] as int % 16)
            },
    )
}

/// Why a text is not a hexadecimal byte string.
#[derive(Debug, Clone, Copy, PartialEq, Eq)]
pub enum HexError {
    /// The text has an odd number of bytes.
    OddLength,
    /// The text has an even number of bytes and `byte`, at `index`, is the
    /// first that is no hexadecimal digit.
    InvalidCharacter { index: usize, byte: u8 },
}

/// Whether `outcome` is what decoding `text` gives: its bytes, or the one
/// reason that it has none.
pub open spec fn hex_outcome(text: Seq<u8>, outcome: Result<Seq<u8>, HexError>) -> bool {
    match outcome {
        Ok(bytes) => well_formed_hex(text) && bytes == hex_decoded(text),
        Err(HexError::OddLength) => text.len() % 2 == 1,
        Err(HexError::InvalidCharacter { index, byte }) => {
            &&& text.len() % 2 == 0
            &&& first_non_hex(text, index as int)
            &&& byte == text[index as int]
        },
    }
}

/// `hex::FromHexError`, known by its name only.
#[verifier::external_type_specification]
#[verifier::external_body]
pub struct ExFromHexError(hex::FromHexError);

/// `hex::decode` on a byte string.
///
/// Trusted: the call succeeds exactly on an even number of hexadecimal
/// digits, and then returns one byte for each pair of digits, the first digit
/// of a pair being the high half of the byte.
#[verifier::external_body]
fn decode_hex(text: &[u8]) -> (decoded: Result<Vec<u8>, hex::FromHexError>)
    ensures
        decoded is Ok <==> well_formed_hex(text@),
        decoded matches Ok(bytes) ==> bytes@ == hex_decoded(text@),
{
    hex::decode(text)
}

/// `hex::encode` on a byte string.
///
/// Trusted: the text holds two lower-case digits for each byte, in order, the
/// high half of a byte first.
#[verifier::external_body]
pub(crate) fn encode_hex(bytes: &[u8]) -> (text: String)
    ensures
        text@ == hex_encoded(bytes@),
{
    hex::encode(bytes)
}

fn is_hex_byte(byte: u8) -> (hex: bool)
    ensures
        hex == is_hex_digit(byte),
{
    (0x30 <= byte && byte <= 0x39) || (0x41 <= byte && byte <= 0x46) || (0x61 <= byte && byte
        <= 0x66)
}

/// Says what is wrong with a text that is no hexadecimal byte string.
fn hex_fault(text: &[u8]) -> (fault: HexError)
    requires
        !well_formed_hex(text@),
    ensures
        hex_outcome(text@, Err(fault)),
{
    if text.len() % 2 != 0 {
        return HexError::OddLength;
    }
    let mut index: usize = 0;
    while index < text.len() && is_hex_byte(text[index])
        invariant
            index <= text.len(),
            forall|j: int| 0 <= j < index ==> is_hex_digit(#[trigger] text@[j]),
        decreases text.len() - index,
    {
        index += 1;
    }
    HexError::InvalidCharacter { index, byte: text[index] }
}

/// Decodes hexadecimal text, upper or lower case. An odd length is reported
/// before any character is looked at.
pub fn decode(text: &[u8]) -> (decoded: Result<Vec<u8>, HexError>)
    ensures
        decoded is Ok <==> well_formed_hex(text@),
        hex_outcome(
            text@,
            match decoded {
                Ok(bytes) => Ok(bytes@),
                Err(fault) => Err(fault),
            },
        ),
{
    match decode_hex(text) {
        Ok(bytes) => Ok(bytes),
        Err(_) => Err(hex_fault(text)),
    }
}

} // verus!
