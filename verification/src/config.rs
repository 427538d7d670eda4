//! What a client is made from.

use vstd::prelude::*;
use vstd::utf8::*;

use crate::cipher::sizes_fit;

verus! {

/// The settings of a client. The secret serves twice: its bytes are the key
/// of the cipher, its text closes what is signed.
#[derive(Clone)]
pub struct ApiClientConfig {
    /// The identity of the application, sent with every request.
    pub app_id: String,
    /// The shared secret.
    pub app_secret: String,
    /// The initialization vector of the cipher.
    pub iv: String,
    /// Scheme and host of the service.
    pub base_url: String,
    /// The path that stands before the path of each call.
    pub content: String,
}

impl ApiClientConfig {
    /// The key of the cipher: the secret in UTF-8.
    pub open spec fn key_bytes(&self) -> Seq<u8> {
        encode_utf8(self.app_secret@)
    }

    /// The initialization vector in UTF-8.
    pub open spec fn iv_bytes(&self) -> Seq<u8> {
        encode_utf8(self.iv@)
    }

    /// Whether the secret has the size of a key and the initialization vector
    /// the size of a block.
    pub open spec fn is_valid(&self) -> bool {
        sizes_fit(self.key_bytes(), self.iv_bytes())
    }
}

} // verus!
