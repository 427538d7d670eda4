//! A client for a signed, encrypted HTTP API.
//!
//! Every outgoing request carries a SHA-1 signature over a fixed
//! concatenation of its fields; every answer carries its payload as the
//! hexadecimal text of an AES-256-CBC ciphertext. This crate holds the
//! protocol: how a request is signed and framed, and how an answer is judged
//! and opened. It performs no network traffic itself.
//!
//! A call runs in three steps, and the transport stands between them:
//!
//! 1. [`ApiClient::prepare`] draws a nonce, reads the clock and gives the
//!    [`SignedRequest`] to send: method, address, headers and payload.
//! 2. [`response::check_status`] judges the status of the answer. Only under
//!    status 200 is the envelope of the answer read.
//! 3. [`ApiClient::open`] turns the `data` field of the envelope into the
//!    text that the server encrypted.
//!
//! [`ApiClient::receive`] is the second and third step in one, for an answer
//! that is at hand as a whole.

pub mod cipher;
pub mod client;
pub mod clock;
pub mod config;
pub mod digest;
pub mod digits;
pub mod error;
pub mod hexcode;
pub mod json;
pub mod nonce;
pub mod request;
pub mod response;
pub mod signature;
pub mod text;

pub use cipher::CipherContext;
pub use client::ApiClient;
pub use config::ApiClientConfig;
pub use error::{ApiClientError, HexFault, TransportFault};
pub use request::{Header, SignedRequest};
