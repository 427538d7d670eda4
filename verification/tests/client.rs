use aes::Aes256;
use api_client::signature::sign;
use api_client::{ApiClient, ApiClientConfig, ApiClientError, HexFault, TransportFault};
use block_modes::block_padding::Pkcs7;
use block_modes::{BlockMode, Cbc};
use serde_json::Value;

const SECRET: &str = "0123456789abcdef0123456789abcdef";
const IV: &str = "0123456789abcdef";

fn config(secret: &str, iv: &str) -> ApiClientConfig {
    ApiClientConfig {
        app_id: "id1".to_string(),
        app_secret: secret.to_string(),
        iv: iv.to_string(),
        base_url: "https://x".to_string(),
        content: "/p".to_string(),
    }
}

fn client() -> ApiClient {
    match ApiClient::new(config(SECRET, IV)) {
        Ok(client) => client,
        Err(e) => panic!("valid settings were refused: {:?}", e),
    }
}

fn refusal(secret: &str, iv: &str) -> ApiClientError {
    match ApiClient::new(config(secret, iv)) {
        Ok(_) => panic!("settings with a wrong size were accepted"),
        Err(e) => e,
    }
}

fn invalid_config() -> ApiClientError {
    ApiClientError::InvalidConfig("AES config error".to_string())
}

fn encrypt(plaintext: &[u8]) -> Vec<u8> {
    Cbc::<Aes256, Pkcs7>::new_from_slices(SECRET.as_bytes(), IV.as_bytes())
        .unwrap()
        .encrypt_vec(plaintext)
}

/// What a server would answer for a plaintext: the envelope as JSON text.
fn server_reply(plaintext: &str) -> String {
    let mut envelope = serde_json::Map::new();
    envelope.insert("data".to_string(), Value::String(hex::encode(encrypt(plaintext.as_bytes()))));
    serde_json::to_string(&Value::Object(envelope)).unwrap()
}

/// The `data` field of an envelope given as JSON text.
fn data_of(reply: &str) -> String {
    let envelope: Value = serde_json::from_str(reply).unwrap();
    envelope["data"].as_str().unwrap().to_string()
}

/// The JSON string literal of a text, written out rule by rule.
fn literal_of(text: &str) -> String {
    let mut literal = String::from("\"");
    for c in text.chars() {
        match c {
            '"' => literal.push_str("\\\""),
            '\\' => literal.push_str("\\\\"),
            '\u{8}' => literal.push_str("\\b"),
            '\t' => literal.push_str("\\t"),
            '\n' => literal.push_str("\\n"),
            '\u{c}' => literal.push_str("\\f"),
            '\r' => literal.push_str("\\r"),
            c if (c as u32) < 0x20 => literal.push_str(&format!("\\u{:04x}", c as u32)),
            c => literal.push(c),
        }
    }
    literal.push('"');
    literal
}

fn key_value_body() -> Value {
    let mut body = serde_json::Map::new();
    body.insert("key".to_string(), Value::String("value".to_string()));
    Value::Object(body)
}

fn millis_now() -> i64 {
    std::time::SystemTime::now()
        .duration_since(std::time::UNIX_EPOCH)
        .unwrap()
        .as_millis() as i64
}

#[test]
fn new_accepts_secret_of_32_bytes_and_vector_of_16() {
    assert!(ApiClient::new(config(SECRET, IV)).is_ok());
}

#[test]
fn new_counts_bytes_not_characters() {
    // Sixteen characters of two bytes each are a key of 32 bytes.
    assert!(ApiClient::new(config("éééééééééééééééé", IV)).is_ok());
    // Thirty-two such characters are 64 bytes.
    assert_eq!(refusal("éééééééééééééééééééééééééééééééé", IV), invalid_config());
    assert!(ApiClient::new(config(SECRET, "éééééééé")).is_ok());
}

#[test]
fn new_refuses_a_secret_of_another_size() {
    assert_eq!(refusal(&SECRET[..31], IV), invalid_config());
    assert_eq!(refusal("0123456789abcdef0123456789abcdef0", IV), invalid_config());
    assert_eq!(refusal(&SECRET[..16], IV), invalid_config());
    assert_eq!(refusal("", IV), invalid_config());
}

#[test]
fn new_refuses_a_vector_of_another_size() {
    assert_eq!(refusal(SECRET, &IV[..15]), invalid_config());
    assert_eq!(refusal(SECRET, "0123456789abcdef0"), invalid_config());
    assert_eq!(refusal(SECRET, ""), invalid_config());
}

#[test]
fn new_refuses_sample_settings() {
    let settings = ApiClientConfig {
        app_id: "your app id".to_string(),
        app_secret: "your app secret".to_string(),
        iv: "you app iv".to_string(),
        base_url: "https://server.zelaser.com".to_string(),
        content: "/server/common/api".to_string(),
    };
    match ApiClient::new(settings) {
        Ok(_) => panic!("a secret of fifteen bytes was accepted"),
        Err(e) => assert_eq!(e, invalid_config()),
    }
}

#[test]
fn sign_request_without_body() {
    let request =
        client().sign_request("GET", "/v1/ping", None, "5f0c3a2e-9d41-4b7a-8c1e-2a6b7d9e0f11", 1_700_000_000_000);
    assert_eq!(request.method, "GET");
    assert_eq!(request.url, "https://x/p/v1/ping");
    assert_eq!(request.app_id, "id1");
    assert_eq!(request.nonce, "5f0c3a2e-9d41-4b7a-8c1e-2a6b7d9e0f11");
    assert_eq!(request.timestamp, 1_700_000_000_000);
    assert_eq!(request.signature, "27fa7c573c64f7b7ceef40d807ae277cfa7c1c05");
    assert_eq!(request.payload, "{}");
}

#[test]
fn sign_request_with_body() {
    let request = client().sign_request(
        "GET", "/v1/lol/champion/skin?region=cn",
        Some("{\"key\":\"value\"}"),
        "n-1",
        1_718_000_000_123,
    );
    assert_eq!(request.url, "https://x/p/v1/lol/champion/skin?region=cn");
    assert_eq!(request.signature, "411692fb9eeda81fbb0446f4befebde7fe322619");
    assert_eq!(request.payload, "{\"data\":\"{\\\"key\\\":\\\"value\\\"}\"}");
}

#[test]
fn sign_request_with_empty_body_differs_from_none_in_payload_only() {
    let with = client().sign_request("GET", "/u", Some(""), "n", 5);
    let without = client().sign_request("GET", "/u", None, "n", 5);
    assert_eq!(with.signature, without.signature);
    assert_eq!(with.payload, "{\"data\":\"\"}");
    assert_eq!(without.payload, "{}");
}

#[test]
fn sign_request_escapes_the_body_as_a_json_string() {
    let body = "q\" b\\ n\n r\r t\t c\u{1} f\u{c} h\u{8} d\u{7f} s/ é ✓";
    let request = client().sign_request("GET", "/u", Some(body), "n", 5);
    assert_eq!(
        request.payload,
        "{\"data\":\"q\\\" b\\\\ n\\n r\\r t\\t c\\u0001 f\\f h\\b d\u{7f} s/ é ✓\"}"
    );
    assert_eq!(data_of(&request.payload), body);
    assert_eq!(request.signature, sign("id1", "n", 5, "/u", body, SECRET));
}

#[test]
fn sign_request_escapes_every_character_by_the_rules() {
    let client = client();
    let mut samples: Vec<char> = (0u32..0x300).filter_map(char::from_u32).collect();
    samples.extend(['\u{7ff}', '\u{800}', '\u{2028}', '\u{2029}', '\u{d7ff}', '\u{e000}']);
    samples.extend(['\u{feff}', '\u{ffff}', '\u{10000}', '\u{1d11e}', '\u{10ffff}']);
    for c in samples {
        let body = format!("a{}b", c);
        let request = client.sign_request("GET", "/u", Some(&body), "n", 5);
        assert_eq!(request.payload, format!("{{\"data\":{}}}", literal_of(&body)));
        assert_eq!(data_of(&request.payload), body);
    }
}

#[test]
fn sign_request_escapes_runs_of_backslashes_and_quotes() {
    let client = client();
    for body in ["\\", "\\\\", "\\\"", "\"\\", "\\b", "\\u0041", "\\\\u0041", "\"\"", "\\n\n"] {
        let request = client.sign_request("GET", "/u", Some(body), "n", 5);
        assert_eq!(request.payload, format!("{{\"data\":{}}}", literal_of(body)));
        assert_eq!(data_of(&request.payload), body);
    }
}

#[test]
fn sign_request_carries_the_method_and_does_not_sign_it() {
    let get = client().sign_request("GET", "/u", Some("{}"), "n", 5);
    let post = client().sign_request("POST", "/u", Some("{}"), "n", 5);
    assert_eq!(get.method, "GET");
    assert_eq!(post.method, "POST");
    assert_eq!(get.signature, post.signature);
    assert_eq!(get.payload, post.payload);
    assert_eq!(get.headers(), post.headers());
}

#[test]
fn sign_request_joins_the_address_without_escaping() {
    let request = client().sign_request("GET", "/a b?x=é&y=%20", None, "n", 5);
    assert_eq!(request.url, "https://x/p/a b?x=é&y=%20");
}

#[test]
fn headers_carry_the_request_in_order() {
    let request = client().sign_request("GET", "/v1/ping", None, "n-1", -7);
    let headers: Vec<(String, String)> =
        request.headers().into_iter().map(|h| (h.name, h.value)).collect();
    let expected: Vec<(String, String)> = [
        ("User-Agent", "H-RUST-SDK-1.0.0"),
        ("HO-APP-ID", "id1"),
        ("HO-NONCE", "n-1"),
        ("HO-TIMESTAMP", "-7"),
        ("HO-SIGNATURE", request.signature.as_str()),
    ]
    .iter()
    .map(|(name, value)| (name.to_string(), value.to_string()))
    .collect();
    assert_eq!(headers, expected);
}

#[test]
fn prepare_ping_without_body() {
    let before = millis_now();
    let request = match client().prepare("GET", "/v1/ping", None) {
        Ok(request) => request,
        Err(e) => panic!("a request without a body was refused: {:?}", e),
    };
    let after = millis_now();
    assert_eq!(request.url, "https://x/p/v1/ping");
    assert_eq!(request.payload, "{}");
    assert!(before <= request.timestamp && request.timestamp <= after);
    assert_eq!(
        request.signature,
        sign("id1", &request.nonce, request.timestamp, "/v1/ping", "", SECRET)
    );
    let headers = request.headers();
    assert!(headers.iter().any(|h| h.name == "HO-APP-ID" && h.value == "id1"));
    assert!(headers.iter().any(|h| h.name == "HO-TIMESTAMP" && h.value == request.timestamp.to_string()));
}

#[test]
fn prepare_draws_a_random_uuid_as_nonce() {
    let request = client().prepare("GET", "/v1/ping", None).unwrap();
    let parsed = uuid::Uuid::parse_str(&request.nonce).unwrap();
    assert_eq!(parsed.get_version_num(), 4);
    assert_eq!(request.nonce, parsed.hyphenated().to_string());
    assert_eq!(request.nonce.len(), 36);
    assert!(request.nonce.chars().all(|c| matches!(c, '0'..='9' | 'a'..='f' | '-')));
}

#[test]
fn prepare_nonce_has_the_form_of_a_random_uuid_every_time() {
    let client = client();
    for _ in 0..200 {
        let nonce: Vec<char> = client.prepare("GET", "/v1/ping", None).unwrap().nonce.chars().collect();
        assert_eq!(nonce.len(), 36);
        for (i, c) in nonce.iter().enumerate() {
            if i == 8 || i == 13 || i == 18 || i == 23 {
                assert_eq!(*c, '-');
            } else {
                assert!(matches!(*c, '0'..='9' | 'a'..='f'));
            }
        }
        assert_eq!(nonce[14], '4');
        assert!(matches!(nonce[19], '8' | '9' | 'a' | 'b'));
    }
}

#[test]
fn prepare_draws_a_fresh_nonce_each_time() {
    let first = client().prepare("GET", "/v1/ping", None).unwrap();
    let second = client().prepare("GET", "/v1/ping", None).unwrap();
    assert_ne!(first.nonce, second.nonce);
}

#[test]
fn prepare_signs_the_text_it_sends() {
    let body = key_value_body();
    let canonical = serde_json::to_string(&body).unwrap();
    assert_eq!(canonical, "{\"key\":\"value\"}");
    let request = client().prepare("GET", "/v1/lol/champion/skin?region=cn", Some(body)).unwrap();
    // The text in the `data` field, byte for byte, is the text under the signature.
    assert_eq!(data_of(&request.payload), canonical);
    assert_eq!(
        request.signature,
        sign(
            "id1",
            &request.nonce,
            request.timestamp,
            "/v1/lol/champion/skin?region=cn",
            &canonical,
            SECRET
        )
    );
    assert_eq!(request.payload, "{\"data\":\"{\\\"key\\\":\\\"value\\\"}\"}");
}

#[test]
fn prepare_writes_the_payload_as_serde_json_writes_the_envelope() {
    let mut inner = serde_json::Map::new();
    inner.insert("text".to_string(), Value::String("a \"quoted\" line\nand a \\".to_string()));
    inner.insert("list".to_string(), Value::Array(vec![Value::Null, Value::Bool(true), Value::from(3)]));
    let body = Value::Object(inner);
    let mut envelope = serde_json::Map::new();
    envelope.insert("data".to_string(), Value::String(serde_json::to_string(&body).unwrap()));
    let expected = serde_json::to_string(&Value::Object(envelope)).unwrap();
    let request = client().prepare("GET", "/u", Some(body)).unwrap();
    assert_eq!(request.payload, expected);
}

#[test]
fn prepare_with_a_body_that_is_not_an_object() {
    let request = client().prepare("GET", "/u", Some(Value::Null)).unwrap();
    assert_eq!(request.payload, "{\"data\":\"null\"}");
    assert_eq!(request.signature, sign("id1", &request.nonce, request.timestamp, "/u", "null", SECRET));
}

#[test]
fn receive_pong() {
    let reply = "{\"data\":\"ed733bd1d70d8bbd2235e5c092feafc9\"}";
    assert_eq!(client().receive(200, &data_of(reply)), Ok("pong".to_string()));
}

#[test]
fn ping_scenario() {
    let client = client();
    let request = client.prepare("GET", "/v1/ping", None).unwrap();
    assert!(request.headers().iter().any(|h| h.name == "HO-APP-ID" && h.value == "id1"));
    assert_eq!(request.payload, "{}");
    let reply = server_reply("pong");
    assert_eq!(client.receive(200, &data_of(&reply)), Ok("pong".to_string()));
}

#[test]
fn receive_returns_what_the_server_encrypted() {
    let client = client();
    for plaintext in [
        "",
        "a",
        "pong",
        "fifteen chars..",
        "0123456789abcdef",
        "seventeen chars..",
        "{\"ok\":true,\"items\":[1,2,3]}",
        "héllo wörld ✓ 𝄞",
        "line one\nline two\ttabbed\u{0}nul",
    ] {
        let reply = server_reply(plaintext);
        assert_eq!(client.receive(200, &data_of(&reply)), Ok(plaintext.to_string()));
        assert_eq!(client.open(&data_of(&reply)), Ok(plaintext.to_string()));
    }
}

#[test]
fn open_reads_hex_of_either_case() {
    assert_eq!(client().open("ED733BD1D70D8BBD2235E5C092FEAFC9"), Ok("pong".to_string()));
    assert_eq!(client().open("Ed733bD1d70d8bbd2235e5c092feAFc9"), Ok("pong".to_string()));
}

#[test]
fn receive_refuses_data_that_is_not_hex() {
    let client = client();
    assert_eq!(
        client.receive(200, "not hex!"),
        Err(ApiClientError::HexError(HexFault::InvalidHexCharacter { c: 'n', index: 0 }))
    );
    assert_eq!(
        client.receive(200, "ed733bd1d70d8bbd2235e5c092feafcg"),
        Err(ApiClientError::HexError(HexFault::InvalidHexCharacter { c: 'g', index: 31 }))
    );
    assert_eq!(
        client.receive(200, "ed733bd1d70d8bbd2235e5c092feafc"),
        Err(ApiClientError::HexError(HexFault::OddLength))
    );
}

#[test]
fn receive_fails_on_every_status_but_200() {
    let client = client();
    let good = data_of(&server_reply("pong"));
    for status in [0u16, 100, 199, 201, 204, 302, 400, 401, 404, 500, 503] {
        let failure = Err(ApiClientError::ReqwestError(TransportFault::Status(status)));
        assert_eq!(client.receive(status, &good), failure);
        assert_eq!(client.receive(status, "not hex!"), failure);
        assert_eq!(client.receive(status, ""), failure);
    }
}

#[test]
fn receive_refuses_malformed_padding() {
    let client = client();
    let mut ciphertext = encrypt(b"twenty bytes of text");
    ciphertext[15] ^= 0x01;
    assert_eq!(client.receive(200, &hex::encode(&ciphertext)), Err(ApiClientError::AesError));
    // A whole block whose last byte is a count of zero.
    assert_eq!(
        client.receive(200, "97df7b79f1faba2adceb85682b171642"),
        Err(ApiClientError::AesError)
    );
}

#[test]
fn receive_refuses_ciphertext_that_is_no_whole_blocks() {
    let client = client();
    assert_eq!(client.receive(200, ""), Err(ApiClientError::AesError));
    assert_eq!(client.receive(200, "ed733bd1d70d8bbd2235e5c092feaf"), Err(ApiClientError::AesError));
    assert_eq!(client.receive(200, "ed"), Err(ApiClientError::AesError));
}

#[test]
fn receive_refuses_plaintext_that_is_not_utf8() {
    let client = client();
    assert_eq!(hex::encode(encrypt(b"a\xffb")), "f0880b3432821268878b076ed1b26db6");
    assert_eq!(
        client.receive(200, "f0880b3432821268878b076ed1b26db6"),
        Err(ApiClientError::Utf8Error { valid_up_to: 1 })
    );
    assert_eq!(
        client.receive(200, "3f87dd1dceeca8de793c5ffce93cabc2"),
        Err(ApiClientError::Utf8Error { valid_up_to: 2 })
    );
}

#[test]
fn receive_under_another_secret_does_not_give_the_text() {
    let other = ApiClient::new(config("0123456789abcdef0123456789abcdeF", IV)).unwrap();
    let reply = server_reply("pong");
    assert_ne!(other.receive(200, &data_of(&reply)), Ok("pong".to_string()));
}
