//! Byte strings as hexadecimal text, and back.

use vstd::prelude::*;
use vstd::string::*;
use vstd::utf8::*;

use crate::digits::{digit_char, digit_str};
use crate::error::HexFault;

verus! {

/// The lower-case hexadecimal text of a byte string: two digits for each
/// byte, the high half first.
pub open spec fn lower_hex_text(bytes: Seq<u8>) -> Seq<char> {
    Seq::new(
        2 * bytes.len(),
        |i: int|
            digit_char(
                if i % 2 == 0 {
                    bytes[i / 2] as int / 16
                } else {
                    bytes[i / 2] as int % 16
                },
            ),
    )
}

/// Writes a byte string as lower-case hexadecimal text.
pub fn to_lower_hex(bytes: &[u8]) -> (text: String)
    ensures
        text@ == lower_hex_text(bytes@),
{
    let mut text = String::new();
    let mut i: usize = 0;
    while i < bytes.len()
        invariant
            i <= bytes.len(),
            text@ == lower_hex_text(bytes@.take(i as int)),
        decreases bytes.len() - i,
    {
        let b: u8 = bytes[i];
        text.append(digit_str(b / 16));
        text.append(digit_str(b % 16));
        i += 1;
        assert(text@ =~= lower_hex_text(bytes@.take(i as int)));
    }
    assert(bytes@.take(i as int) == bytes@);
    text
}

/// The value of a hexadecimal digit that stands in a text as the byte `c`.
/// Both cases count.
pub open spec fn hex_value(c: u8) -> Option<u8> {
    if '0' <= c as char <= '9' {
        Some((c - '0' as u8) as u8)
    } else if 'a' <= c as char <= 'f' {
        Some((c - 'a' as u8 + 10) as u8)
    } else if 'A' <= c as char <= 'F' {
        Some((c - 'A' as u8 + 10) as u8)
    } else {
        None
    }
}

/// Whether a text, taken byte by byte, is the hexadecimal form of some byte
/// string: an even number of hexadecimal digits.
pub open spec fn is_hex_text(text: Seq<u8>) -> bool {
    &&& text.len() % 2 == 0
    &&& forall|i: int| 0 <= i < text.len() ==> (#[trigger] hex_value(text[i])) is Some
}

/// The byte string that a hexadecimal text stands for.
pub open spec fn hex_bytes(text: Seq<u8>) -> Seq<u8> {
    Seq::new(
        text.len() / 2,
        |i: int| (16 * hex_value(text[2 * i]).unwrap() + hex_value(text[2 * i + 1]).unwrap()) as u8,
    )
}

/// The place of the first byte of a text that is no hexadecimal digit, or
/// the length of the text where there is none.
pub open spec fn first_non_hex(text: Seq<u8>) -> int
    decreases text.len(),
{
    if text.len() == 0 || hex_value(text[0]) is None {
        0
    } else {
        1 + first_non_hex(text.drop_first())
    }
}

/// What is wrong with a text that is not hexadecimal: its odd length, or else
/// its first offending byte.
pub open spec fn hex_fault(text: Seq<u8>) -> HexFault {
    if text.len() % 2 != 0 {
        HexFault::OddLength
    } else {
        HexFault::InvalidHexCharacter {
            c: text[first_non_hex(text)] as char,
            index: first_non_hex(text) as usize,
        }
    }
}

/// The outcome of decoding a text: its bytes where it is hexadecimal, and
/// otherwise what is wrong with it.
pub open spec fn hex_decoded(text: Seq<u8>) -> Result<Seq<u8>, HexFault> {
    if is_hex_text(text) {
        Ok(hex_bytes(text))
    } else {
        Err(hex_fault(text))
    }
}

/// An outcome of decoding with its bytes seen as a sequence.
pub open spec fn outcome_view(r: Result<Vec<u8>, HexFault>) -> Result<Seq<u8>, HexFault> {
    match r {
        Ok(bytes) => Ok(bytes@),
        Err(fault) => Err(fault),
    }
}

/// Calls `hex::decode` on the bytes of a text.
///
/// Trusted: the call returns the bytes that the text stands for where the text
/// is an even number of hexadecimal digits of either case; `OddLength` where
/// its length is odd; and otherwise `InvalidHexCharacter` with the first
/// offending byte, widened to a character, and its place.
#[verifier::external_body]
fn decode_bytes(text: &[u8]) -> (r: Result<Vec<u8>, HexFault>)
    ensures
        outcome_view(r) == hex_decoded(text@),
{
    match hex::decode(text) {
        Ok(bytes) => Ok(bytes),
        Err(hex::FromHexError::InvalidHexCharacter { c, index }) => Err(
            HexFault::InvalidHexCharacter { c, index },
        ),
        Err(hex::FromHexError::OddLength) => Err(HexFault::OddLength),
        Err(hex::FromHexError::InvalidStringLength) => Err(HexFault::InvalidStringLength),
    }
}

/// Reads hexadecimal text into the bytes it stands for.
pub fn from_hex(text: &str) -> (r: Result<Vec<u8>, HexFault>)
    ensures
        outcome_view(r) == hex_decoded(encode_utf8(text@)),
{
    decode_bytes(text.as_bytes())
}

/// Up to the first offending place every byte is a hexadecimal digit, and
/// the byte at that place, where it lies within the text, is none.
proof fn lemma_first_non_hex(text: Seq<u8>)
    ensures
        0 <= first_non_hex(text) <= text.len(),
        first_non_hex(text) < text.len() ==> hex_value(text[first_non_hex(text)]) is None,
        forall|j: int| 0 <= j < first_non_hex(text) ==> (#[trigger] hex_value(text[j])) is Some,
    decreases text.len(),
{
    if text.len() != 0 && hex_value(text[0]) is Some {
        let rest = text.drop_first();
        lemma_first_non_hex(rest);
        assert forall|j: int| 0 <= j < first_non_hex(text) implies (#[trigger] hex_value(
            text[j],
        )) is Some by {
            if j > 0 {
                assert(text[j] == rest[j - 1]);
            }
        }
    }
}

/// A text of even length that is not hexadecimal is refused for its first
/// offending byte: the fault names a place within the text, the byte there,
/// widened to a character, is no hexadecimal digit, and every byte before it
/// is one. The text is one that fits in memory.
pub proof fn lemma_fault_names_first_offender(text: Seq<u8>)
    requires
        text.len() <= usize::MAX,
        text.len() % 2 == 0,
        !is_hex_text(text),
    ensures
        hex_decoded(text) == Err::<Seq<u8>, HexFault>(hex_fault(text)),
        hex_fault(text) matches HexFault::InvalidHexCharacter { c, index } && index < text.len()
            && hex_value(text[index as int]) is None && c == text[index as int] as char
            && forall|j: int| 0 <= j < index ==> (#[trigger] hex_value(text[j])) is Some,
{
    lemma_first_non_hex(text);
}

/// Lower-case hexadecimal text is plain ASCII, one byte for each character.
pub proof fn lemma_lower_hex_is_ascii(bytes: Seq<u8>)
    ensures
        is_ascii_chars(lower_hex_text(bytes)),
        encode_utf8(lower_hex_text(bytes)).len() == 2 * bytes.len(),
        forall|i: int|
            0 <= i < 2 * bytes.len() ==> #[trigger] encode_utf8(lower_hex_text(bytes))[i]
                == lower_hex_text(bytes)[i] as u8,
{
    let text = lower_hex_text(bytes);
    assert(is_ascii_chars(text));
    is_ascii_chars_encode_utf8(text);
}

/// Decoding undoes encoding: the hexadecimal text of any byte string is read
/// back as that byte string.
pub proof fn lemma_hex_round_trip(bytes: Seq<u8>)
    ensures
        hex_decoded(encode_utf8(lower_hex_text(bytes))) == Ok::<Seq<u8>, HexFault>(bytes),
{
    let text = lower_hex_text(bytes);
    let raw = encode_utf8(text);
    lemma_lower_hex_is_ascii(bytes);
    assert forall|i: int| 0 <= i < raw.len() implies (#[trigger] hex_value(raw[i])) is Some by {
        assert(raw[i] == text[i] as u8);
    }
    assert(is_hex_text(raw));
    assert forall|k: int| 0 <= k < bytes.len() implies hex_bytes(raw)[k] == bytes[k] by {
        assert(raw[2 * k] == text[2 * k] as u8);
        assert(raw[2 * k + 1] == text[2 * k + 1] as u8);
    }
    assert(hex_bytes(raw) =~= bytes);
}

/// Two byte strings with the same hexadecimal text are the same byte string.
pub proof fn lemma_lower_hex_injective(a: Seq<u8>, b: Seq<u8>)
    requires
        lower_hex_text(a) == lower_hex_text(b),
    ensures
        a == b,
{
    lemma_hex_round_trip(a);
    lemma_hex_round_trip(b);
}

} // verus!
