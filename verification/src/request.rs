//! A request as it goes out: where to, under which headers, with what payload.

use vstd::prelude::*;

use crate::config::ApiClientConfig;
use crate::digits::{decimal_string, decimal_text};
use crate::json::{json_string_literal, lemma_payload_determines_body, payload_text};
use crate::signature::{signature_text, SignedFields};

verus! {

/// One header of a request.
#[derive(Debug, Clone, PartialEq, Eq)]
pub struct Header {
    pub name: String,
    pub value: String,
}

impl View for Header {
    type V = (Seq<char>, Seq<char>);

    open spec fn view(&self) -> (Seq<char>, Seq<char>) {
        (self.name@, self.value@)
    }
}

/// A signed request, ready to be sent.
#[derive(Debug, Clone, PartialEq, Eq)]
pub struct SignedRequest {
    /// The HTTP method, as the caller gave it.
    pub method: String,
    /// The full address: base, prefix and path, one after another.
    pub url: String,
    /// The identity of the application.
    pub app_id: String,
    /// The nonce of this request.
    pub nonce: String,
    /// The time of this request in milliseconds since the Unix epoch.
    pub timestamp: i64,
    /// The signature, in lower-case hexadecimal.
    pub signature: String,
    /// The JSON text to send.
    pub payload: String,
}

/// What a signed request holds, as mathematical values.
pub struct RequestModel {
    pub method: Seq<char>,
    pub url: Seq<char>,
    pub app_id: Seq<char>,
    pub nonce: Seq<char>,
    pub timestamp: int,
    pub signature: Seq<char>,
    pub payload: Seq<char>,
}

impl View for SignedRequest {
    type V = RequestModel;

    open spec fn view(&self) -> RequestModel {
        RequestModel {
            method: self.method@,
            url: self.url@,
            app_id: self.app_id@,
            nonce: self.nonce@,
            timestamp: self.timestamp as int,
            signature: self.signature@,
            payload: self.payload@,
        }
    }
}

/// The body text that is signed: the body, or the empty text where there is
/// none.
pub open spec fn signed_body(body: Option<Seq<char>>) -> Seq<char> {
    match body {
        Some(b) => b,
        None => Seq::empty(),
    }
}

/// The payload that is sent: the body as the `data` field of an object, or
/// the empty object where there is none.
pub open spec fn sent_payload(body: Option<Seq<char>>) -> Seq<char> {
    payload_text(
        match body {
            Some(b) => Some(json_string_literal(b)),
            None => None,
        },
    )
}

/// The fields that the signature of a request covers.
pub open spec fn signed_fields(
    config: ApiClientConfig,
    uri: Seq<char>,
    body: Option<Seq<char>>,
    nonce: Seq<char>,
    timestamp: int,
) -> SignedFields {
    SignedFields {
        app_id: config.app_id@,
        nonce,
        timestamp,
        uri,
        body: signed_body(body),
        app_secret: config.app_secret@,
    }
}

/// The request that a client of the given settings sends with a method for a
/// path and a body, under a nonce and a timestamp. The method is carried
/// along; it is no part of what is signed.
pub open spec fn signed_request(
    config: ApiClientConfig,
    method: Seq<char>,
    uri: Seq<char>,
    body: Option<Seq<char>>,
    nonce: Seq<char>,
    timestamp: int,
) -> RequestModel {
    RequestModel {
        method,
        url: config.base_url@ + config.content@ + uri,
        app_id: config.app_id@,
        nonce,
        timestamp,
        signature: signature_text(signed_fields(config, uri, body, nonce, timestamp)),
        payload: sent_payload(body),
    }
}

/// The headers of a request, in the order in which they are set.
pub open spec fn header_list(request: RequestModel) -> Seq<(Seq<char>, Seq<char>)> {
    seq![
        ("User-Agent"@, "H-RUST-SDK-1.0.0"@),
        ("HO-APP-ID"@, request.app_id),
        ("HO-NONCE"@, request.nonce),
        ("HO-TIMESTAMP"@, decimal_text(request.timestamp)),
        ("HO-SIGNATURE"@, request.signature),
    ]
}

/// The headers of a list, each as a pair of texts.
pub open spec fn header_views(headers: Seq<Header>) -> Seq<(Seq<char>, Seq<char>)> {
    Seq::new(headers.len(), |i: int| headers[i]@)
}

impl SignedRequest {
    /// The headers to send: the fixed user agent, then identity, nonce,
    /// timestamp in decimal, and signature.
    pub fn headers(&self) -> (headers: Vec<Header>)
        ensures
            header_views(headers@) == header_list(self@),
    {
        let mut headers: Vec<Header> = Vec::new();
        headers.push(
            Header { name: "User-Agent".to_owned(), value: "H-RUST-SDK-1.0.0".to_owned() },
        );
        headers.push(Header { name: "HO-APP-ID".to_owned(), value: self.app_id.clone() });
        headers.push(Header { name: "HO-NONCE".to_owned(), value: self.nonce.clone() });
        headers.push(
            Header { name: "HO-TIMESTAMP".to_owned(), value: decimal_string(self.timestamp) },
        );
        headers.push(Header { name: "HO-SIGNATURE".to_owned(), value: self.signature.clone() });
        assert(header_views(headers@) =~= header_list(self@));
        headers
    }
}

/// The body that is signed is the body that is sent: the signature covers
/// the very text whose JSON string literal stands in the `data` field of the
/// payload.
pub proof fn lemma_signed_body_is_sent_body(
    config: ApiClientConfig,
    method: Seq<char>,
    uri: Seq<char>,
    body: Seq<char>,
    nonce: Seq<char>,
    timestamp: int,
)
    ensures
        signed_fields(config, uri, Some(body), nonce, timestamp).body == body,
        signed_request(config, method, uri, Some(body), nonce, timestamp).signature == signature_text(
            signed_fields(config, uri, Some(body), nonce, timestamp),
        ),
        signed_request(config, method, uri, Some(body), nonce, timestamp).payload == payload_text(
            Some(json_string_literal(body)),
        ),
{
}

/// The payload tells what was signed: two bodies that are sent as the same
/// payload are signed as the same text.
pub proof fn lemma_payload_determines_signed_body(a: Option<Seq<char>>, b: Option<Seq<char>>)
    requires
        sent_payload(a) == sent_payload(b),
    ensures
        signed_body(a) == signed_body(b),
{
    reveal_strlit("{}");
    reveal_strlit("{\"data\":");
    reveal_strlit("}");
    match (a, b) {
        (Some(x), Some(y)) => {
            lemma_payload_determines_body(x, y);
        },
        (Some(x), None) => {
            assert(sent_payload(a).len() > 2);
        },
        (None, Some(y)) => {
            assert(sent_payload(b).len() > 2);
        },
        (None, None) => {},
    }
}

} // verus!
