//! The failures a call can end in.

use vstd::prelude::*;

verus! {

/// Why a text is not the hexadecimal form of a byte string.
#[derive(Debug, Clone, Copy, PartialEq, Eq)]
pub enum HexFault {
    /// The byte at `index`, read as the character `c`, is no hexadecimal digit.
    InvalidHexCharacter { c: char, index: usize },
    /// The text has an odd number of bytes.
    OddLength,
    /// The text does not fill a container of fixed size. Reading into a byte
    /// string of any length never gives this.
    InvalidStringLength,
}

/// Why the transport did not deliver a usable answer.
#[derive(Debug, Clone, PartialEq, Eq)]
pub enum TransportFault {
    /// The server answered with this status, which is not 200.
    Status(u16),
    /// No answer arrived: the connection failed or the time ran out.
    Failure(String),
}

/// The six kinds of failure, each distinct from the others.
#[derive(Debug, Clone, PartialEq, Eq)]
pub enum ApiClientError {
    /// The transport failed, or the server answered with a status other than 200.
    ReqwestError(TransportFault),
    /// A request body could not be written as JSON, or an answer could not be
    /// read as the envelope.
    SerdeJsonError(String),
    /// The ciphertext has no whole number of blocks, or its padding is malformed.
    AesError,
    /// The decrypted bytes are not UTF-8; `valid_up_to` is the length of their
    /// longest prefix that is.
    Utf8Error { valid_up_to: usize },
    /// The `data` field of an answer is not hexadecimal text.
    HexError(HexFault),
    /// Key or initialization vector do not fit the cipher.
    InvalidConfig(String),
}

} // verus!
