//! What an answer of the service amounts to: its status is judged first, then
//! its `data` is read as hexadecimal text, decrypted, and read as UTF-8.

use vstd::prelude::*;
use vstd::utf8::*;

use crate::cipher::{
    cbc_blocks, cbc_plaintext, is_pkcs7_padded, lemma_malformed_padding_is_refused,
    lemma_padded_blocks_decrypt, pkcs7_padded, BLOCK_SIZE,
};
use crate::error::{ApiClientError, HexFault, TransportFault};
use crate::hexcode::{hex_decoded, hex_fault, is_hex_text, lemma_hex_round_trip, lower_hex_text};
use crate::text::{is_longest_utf8_prefix, lemma_longest_utf8_prefix_is_unique, read_utf8};

verus! {

/// The one status under which an answer is read.
pub const STATUS_OK: u16 = 200;

/// The verdict on a status: only 200 passes, every other one is a failure
/// of the transport that names the status.
pub open spec fn status_verdict(status: u16) -> Result<(), ApiClientError> {
    if status == STATUS_OK {
        Ok(())
    } else {
        Err(ApiClientError::ReqwestError(TransportFault::Status(status)))
    }
}

/// The length of the longest prefix of a byte string that is UTF-8.
pub open spec fn longest_utf8_prefix(bytes: Seq<u8>) -> int {
    choose|n: int| is_longest_utf8_prefix(bytes, n)
}

/// Decrypted bytes as text: the text that they encode where they are UTF-8,
/// and otherwise the failure that tells how far they are.
pub open spec fn text_of(bytes: Seq<u8>) -> Result<Seq<char>, ApiClientError> {
    if valid_utf8(bytes) {
        Ok(decode_utf8(bytes))
    } else {
        Err(ApiClientError::Utf8Error { valid_up_to: longest_utf8_prefix(bytes) as usize })
    }
}

/// What the `data` of an answer opens to under a key and an initialization
/// vector. The first step that fails decides the failure.
pub open spec fn opened(
    key: Seq<u8>,
    iv: Seq<u8>,
    data: Seq<char>,
) -> Result<Seq<char>, ApiClientError> {
    match hex_decoded(encode_utf8(data)) {
        Err(fault) => Err(ApiClientError::HexError(fault)),
        Ok(ciphertext) => match cbc_plaintext(key, iv, ciphertext) {
            None => Err(ApiClientError::AesError),
            Some(bytes) => text_of(bytes),
        },
    }
}

/// What an answer amounts to: under a status other than 200 the failure of
/// that status, whatever the data; under 200 what the data opens to.
pub open spec fn received(
    key: Seq<u8>,
    iv: Seq<u8>,
    status: u16,
    data: Seq<char>,
) -> Result<Seq<char>, ApiClientError> {
    match status_verdict(status) {
        Err(e) => Err(e),
        Ok(_) => opened(key, iv, data),
    }
}

/// An outcome with its text seen as a sequence of characters.
pub open spec fn text_view(
    outcome: Result<String, ApiClientError>,
) -> Result<Seq<char>, ApiClientError> {
    match outcome {
        Ok(text) => Ok(text@),
        Err(e) => Err(e),
    }
}

/// Judges the status of an answer.
pub fn check_status(status: u16) -> (verdict: Result<(), ApiClientError>)
    ensures
        verdict == status_verdict(status),
{
    if status == STATUS_OK {
        Ok(())
    } else {
        Err(ApiClientError::ReqwestError(TransportFault::Status(status)))
    }
}

/// Reads decrypted bytes as text.
pub fn read_text(bytes: Vec<u8>) -> (outcome: Result<String, ApiClientError>)
    ensures
        text_view(outcome) == text_of(bytes@),
{
    match read_utf8(bytes) {
        Ok(text) => Ok(text),
        Err(valid_up_to) => {
            proof {
                lemma_longest_utf8_prefix_is_unique(
                    bytes@,
                    valid_up_to as int,
                    longest_utf8_prefix(bytes@),
                );
            }
            Err(ApiClientError::Utf8Error { valid_up_to })
        },
    }
}

/// A round trip: where a ciphertext of whole blocks decrypts, before the
/// padding is taken off, to the padded UTF-8 of a text, an answer of status
/// 200 that carries the ciphertext in lower-case hexadecimal amounts to that
/// text.
pub proof fn lemma_answer_round_trip(
    key: Seq<u8>,
    iv: Seq<u8>,
    ciphertext: Seq<u8>,
    text: Seq<char>,
)
    requires
        ciphertext.len() % (BLOCK_SIZE as nat) == 0,
        cbc_blocks(key, iv, ciphertext) == pkcs7_padded(encode_utf8(text), BLOCK_SIZE as int),
    ensures
        received(key, iv, STATUS_OK, lower_hex_text(ciphertext))
            == Ok::<Seq<char>, ApiClientError>(text),
{
    lemma_hex_round_trip(ciphertext);
    lemma_padded_blocks_decrypt(key, iv, ciphertext, encode_utf8(text));
    encode_utf8_valid_utf8(text);
    encode_utf8_decode_utf8(text);
}

/// Data that is not hexadecimal text opens to the failure of the decoding,
/// under every key.
pub proof fn lemma_malformed_hex_is_refused(key: Seq<u8>, iv: Seq<u8>, data: Seq<char>)
    requires
        !is_hex_text(encode_utf8(data)),
    ensures
        opened(key, iv, data) == Err::<Seq<char>, ApiClientError>(
            ApiClientError::HexError(hex_fault(encode_utf8(data))),
        ),
        received(key, iv, STATUS_OK, data) == opened(key, iv, data),
{
}

/// Under a status other than 200 an answer amounts to the failure of that
/// status, and the data plays no part in it.
pub proof fn lemma_bad_status_decides(
    key: Seq<u8>,
    iv: Seq<u8>,
    status: u16,
    data: Seq<char>,
    other: Seq<char>,
)
    requires
        status != STATUS_OK,
    ensures
        received(key, iv, status, data) == Err::<Seq<char>, ApiClientError>(
            ApiClientError::ReqwestError(TransportFault::Status(status)),
        ),
        received(key, iv, status, data) == received(key, iv, status, other),
{
}

/// Data whose ciphertext does not decrypt to something that ends in padding
/// opens to the failure of the decryption.
pub proof fn lemma_malformed_padding_fails_the_answer(
    key: Seq<u8>,
    iv: Seq<u8>,
    data: Seq<char>,
    ciphertext: Seq<u8>,
)
    requires
        hex_decoded(encode_utf8(data)) == Ok::<Seq<u8>, HexFault>(ciphertext),
        !is_pkcs7_padded(cbc_blocks(key, iv, ciphertext)),
    ensures
        opened(key, iv, data) == Err::<Seq<char>, ApiClientError>(ApiClientError::AesError),
{
    lemma_malformed_padding_is_refused(key, iv, ciphertext);
}

} // verus!
