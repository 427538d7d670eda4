//! The client: settings checked once, then requests signed and answers opened.

use vstd::prelude::*;
use vstd::string::*;

use crate::cipher::CipherContext;
use crate::clock::current_timestamp_millis;
use crate::config::ApiClientConfig;
use crate::error::ApiClientError;
use crate::hexcode::from_hex;
use crate::json::{frame_payload, json_text, write_json, write_json_string};
use crate::nonce::{generate_nonce, is_random_uuid_text};
use crate::request::{signed_request, SignedRequest};
use crate::response::{check_status, opened, read_text, received, text_view};
use crate::signature::{is_lower_hex_char, sign, signature_text, SignedFields};

verus! {

/// A client of the service. It holds its settings and the cipher made from
/// them; neither changes after the client is made.
pub struct ApiClient {
    config: ApiClientConfig,
    cipher: CipherContext,
}

impl View for ApiClient {
    type V = ApiClientConfig;

    /// A client is seen as the settings it was made from.
    closed spec fn view(&self) -> ApiClientConfig {
        self.config
    }
}

/// The text of a body that may be missing, as JSON.
pub open spec fn body_text(body: Option<serde_json::Value>) -> Option<Seq<char>> {
    match body {
        Some(value) => Some(json_text(value)),
        None => None,
    }
}

/// A text that may be missing, seen as a sequence of characters.
pub open spec fn optional_text(text: Option<&str>) -> Option<Seq<char>> {
    match text {
        Some(t) => Some(t@),
        None => None,
    }
}

impl ApiClient {
    #[verifier::type_invariant]
    spec fn well_formed(self) -> bool {
        &&& self.cipher.key() == self.config.key_bytes()
        &&& self.cipher.iv() == self.config.iv_bytes()
    }

    /// Makes a client. This succeeds exactly when the secret has the size of
    /// a key of the cipher and the initialization vector the size of a block.
    pub fn new(config: ApiClientConfig) -> (made: Result<ApiClient, ApiClientError>)
        ensures
            made is Ok <==> config.is_valid(),
            made matches Ok(client) ==> client@ == config,
            made matches Err(e) ==> (e matches ApiClientError::InvalidConfig(message) && message@
                == "AES config error"@),
    {
        let cipher = CipherContext::new(
            config.app_secret.as_str().as_bytes(),
            config.iv.as_str().as_bytes(),
        );
        match cipher {
            Some(cipher) => Ok(ApiClient { config, cipher }),
            None => Err(ApiClientError::InvalidConfig("AES config error".to_owned())),
        }
    }

    /// The signature of a request of this client.
    pub fn generate_signature(
        &self,
        nonce: &str,
        timestamp: i64,
        uri: &str,
        body: &str,
    ) -> (signature: String)
        ensures
            signature@ == signature_text(
                (SignedFields {
                    app_id: self@.app_id@,
                    nonce: nonce@,
                    timestamp: timestamp as int,
                    uri: uri@,
                    body: body@,
                    app_secret: self@.app_secret@,
                }),
            ),
            signature@.len() == 40,
            forall|i: int| 0 <= i < 40 ==> is_lower_hex_char(#[trigger] signature@[i]),
    {
        sign(
            self.config.app_id.as_str(),
            nonce,
            timestamp,
            uri,
            body,
            self.config.app_secret.as_str(),
        )
    }

    /// Signs and frames a request with a method for a path and a body that is
    /// already JSON text, under a given nonce and timestamp.
    pub fn sign_request(
        &self,
        method: &str,
        uri: &str,
        body: Option<&str>,
        nonce: &str,
        timestamp: i64,
    ) -> (request: SignedRequest)
        ensures
            request@ == signed_request(
                self@,
                method@,
                uri@,
                optional_text(body),
                nonce@,
                timestamp as int,
            ),
    {
        let signature: String;
        let payload: String;
        match body {
            Some(text) => {
                signature = self.generate_signature(nonce, timestamp, uri, text);
                let literal = write_json_string(text);
                payload = frame_payload(Some(literal.as_str()));
            },
            None => {
                proof {
                    reveal_strlit("");
                }
                signature = self.generate_signature(nonce, timestamp, uri, "");
                payload = frame_payload(None);
            },
        }
        let mut url = self.config.base_url.clone();
        url.append(self.config.content.as_str());
        url.append(uri);
        SignedRequest {
            method: method.to_owned(),
            url,
            app_id: self.config.app_id.clone(),
            nonce: nonce.to_owned(),
            timestamp,
            signature,
            payload,
        }
    }

    /// Prepares a request with a method for a path and a body: draws a fresh
    /// nonce, reads the clock, writes the body out once as JSON text, and
    /// signs.
    ///
    /// Without a body this succeeds. With one, it fails only where the body
    /// cannot be written as JSON.
    pub fn prepare(
        &self,
        method: &str,
        uri: &str,
        body_option: Option<serde_json::Value>,
    ) -> (prepared: Result<SignedRequest, ApiClientError>)
        ensures
            body_option is None ==> prepared is Ok,
            prepared matches Ok(request) ==> (is_random_uuid_text(request.nonce@) && request@
                == signed_request(
                self@,
                method@,
                uri@,
                body_text(body_option),
                request.nonce@,
                request.timestamp as int,
            )),
            prepared matches Err(e) ==> body_option is Some && e is SerdeJsonError,
    {
        let nonce = generate_nonce();
        let now: i64 = current_timestamp_millis();
        match body_option {
            Some(body) => match write_json(&body) {
                Ok(text) => Ok(
                    self.sign_request(method, uri, Some(text.as_str()), nonce.as_str(), now),
                ),
                Err(message) => Err(ApiClientError::SerdeJsonError(message)),
            },
            None => Ok(self.sign_request(method, uri, None, nonce.as_str(), now)),
        }
    }

    /// Opens the `data` of an answer: reads it as hexadecimal text, decrypts
    /// it, and reads the outcome as UTF-8.
    pub fn open(&self, data: &str) -> (outcome: Result<String, ApiClientError>)
        ensures
            text_view(outcome) == opened(self@.key_bytes(), self@.iv_bytes(), data@),
    {
        proof {
            use_type_invariant(self);
        }
        let ciphertext = match from_hex(data) {
            Ok(bytes) => bytes,
            Err(fault) => {
                return Err(ApiClientError::HexError(fault));
            },
        };
        match self.cipher.decrypt(ciphertext.as_slice()) {
            Some(plaintext) => read_text(plaintext),
            None => Err(ApiClientError::AesError),
        }
    }

    /// Judges a whole answer: its status first, and its `data` only under
    /// status 200.
    pub fn receive(&self, status: u16, data: &str) -> (outcome: Result<String, ApiClientError>)
        ensures
            text_view(outcome) == received(self@.key_bytes(), self@.iv_bytes(), status, data@),
    {
        match check_status(status) {
            Ok(_) => self.open(data),
            Err(e) => Err(e),
        }
    }
}

} // verus!
