//! The signature of a request: the SHA-1 digest, in lower-case hexadecimal,
//! of six fields written one after another without separators.

use vstd::prelude::*;
use vstd::string::*;
use vstd::utf8::*;

use crate::digest::{compute_sha1, sha1_digest};
use crate::digits::{decimal_string, decimal_text, lemma_decimal_text_injective};
use crate::hexcode::{lemma_lower_hex_injective, lower_hex_text, to_lower_hex};

verus! {

/// The six fields that a signature covers, in the order in which they are
/// signed.
pub struct SignedFields {
    pub app_id: Seq<char>,
    pub nonce: Seq<char>,
    pub timestamp: int,
    pub uri: Seq<char>,
    pub body: Seq<char>,
    pub app_secret: Seq<char>,
}

/// The text that is signed: the fields in their order, nothing between them,
/// the timestamp in decimal.
pub open spec fn signing_text(fields: SignedFields) -> Seq<char> {
    fields.app_id + fields.nonce + decimal_text(fields.timestamp) + fields.uri + fields.body
        + fields.app_secret
}

/// The bytes that are hashed: the signed text in UTF-8.
pub open spec fn signing_bytes(fields: SignedFields) -> Seq<u8> {
    encode_utf8(signing_text(fields))
}

/// The signature: the SHA-1 digest of the signed bytes in lower-case
/// hexadecimal.
pub open spec fn signature_text(fields: SignedFields) -> Seq<char> {
    lower_hex_text(sha1_digest(signing_bytes(fields)))
}

/// Whether a character is a lower-case hexadecimal digit.
pub open spec fn is_lower_hex_char(c: char) -> bool {
    '0' <= c <= '9' || 'a' <= c <= 'f'
}

/// Computes the signature of a request.
pub fn sign(
    app_id: &str,
    nonce: &str,
    timestamp: i64,
    uri: &str,
    body: &str,
    app_secret: &str,
) -> (signature: String)
    ensures
        signature@ == signature_text(
            (SignedFields {
                app_id: app_id@,
                nonce: nonce@,
                timestamp: timestamp as int,
                uri: uri@,
                body: body@,
                app_secret: app_secret@,
            }),
        ),
        signature@.len() == 40,
        forall|i: int| 0 <= i < 40 ==> is_lower_hex_char(#[trigger] signature@[i]),
{
    let mut text = String::new();
    text.append(app_id);
    text.append(nonce);
    let stamp = decimal_string(timestamp);
    text.append(stamp.as_str());
    text.append(uri);
    text.append(body);
    text.append(app_secret);
    let digest = compute_sha1(text.as_str().as_bytes());
    to_lower_hex(digest.as_slice())
}

/// Whether two sets of fields differ in one field and agree in the other five.
pub open spec fn differ_in_one_field(a: SignedFields, b: SignedFields) -> bool {
    (if a.app_id != b.app_id { 1int } else { 0int })
        + (if a.nonce != b.nonce { 1int } else { 0int })
        + (if a.timestamp != b.timestamp { 1int } else { 0int })
        + (if a.uri != b.uri { 1int } else { 0int })
        + (if a.body != b.body { 1int } else { 0int })
        + (if a.app_secret != b.app_secret { 1int } else { 0int })
        == 1
}

/// Texts that are equal, and begin and end alike, are alike in the middle.
proof fn lemma_middle_cancels(before: Seq<char>, x: Seq<char>, y: Seq<char>, after: Seq<char>)
    requires
        before + x + after == before + y + after,
    ensures
        x == y,
{
    let left = before + x + after;
    let right = before + y + after;
    assert(left.len() == right.len());
    assert(x.len() == y.len());
    assert forall|i: int| 0 <= i < x.len() implies x[i] == y[i] by {
        assert(left[before.len() + i] == x[i]);
        assert(right[before.len() + i] == y[i]);
    }
    assert(x =~= y);
}

/// The same fields give the same signature.
pub proof fn lemma_signature_is_determined(a: SignedFields, b: SignedFields)
    requires
        a.app_id == b.app_id,
        a.nonce == b.nonce,
        a.timestamp == b.timestamp,
        a.uri == b.uri,
        a.body == b.body,
        a.app_secret == b.app_secret,
    ensures
        signature_text(a) == signature_text(b),
{
}

/// A change of one field, the others kept, changes the bytes that are hashed.
pub proof fn lemma_one_field_changes_signed_bytes(a: SignedFields, b: SignedFields)
    requires
        differ_in_one_field(a, b),
    ensures
        signing_bytes(a) != signing_bytes(b),
{
    let stamp_a = decimal_text(a.timestamp);
    let stamp_b = decimal_text(b.timestamp);
    if signing_text(a) == signing_text(b) {
        let empty = Seq::<char>::empty();
        if a.app_id != b.app_id {
            let after = a.nonce + stamp_a + a.uri + a.body + a.app_secret;
            assert(signing_text(a) =~= empty + a.app_id + after);
            assert(signing_text(b) =~= empty + b.app_id + after);
            lemma_middle_cancels(empty, a.app_id, b.app_id, after);
        } else if a.nonce != b.nonce {
            let after = stamp_a + a.uri + a.body + a.app_secret;
            assert(signing_text(a) =~= a.app_id + a.nonce + after);
            assert(signing_text(b) =~= a.app_id + b.nonce + after);
            lemma_middle_cancels(a.app_id, a.nonce, b.nonce, after);
        } else if a.timestamp != b.timestamp {
            let before = a.app_id + a.nonce;
            let after = a.uri + a.body + a.app_secret;
            assert(signing_text(a) =~= before + stamp_a + after);
            assert(signing_text(b) =~= before + stamp_b + after);
            lemma_middle_cancels(before, stamp_a, stamp_b, after);
            lemma_decimal_text_injective(a.timestamp, b.timestamp);
        } else if a.uri != b.uri {
            let before = a.app_id + a.nonce + stamp_a;
            let after = a.body + a.app_secret;
            assert(signing_text(a) =~= before + a.uri + after);
            assert(signing_text(b) =~= before + b.uri + after);
            lemma_middle_cancels(before, a.uri, b.uri, after);
        } else if a.body != b.body {
            let before = a.app_id + a.nonce + stamp_a + a.uri;
            assert(signing_text(a) =~= before + a.body + a.app_secret);
            assert(signing_text(b) =~= before + b.body + a.app_secret);
            lemma_middle_cancels(before, a.body, b.body, a.app_secret);
        } else {
            let before = a.app_id + a.nonce + stamp_a + a.uri + a.body;
            assert(signing_text(a) =~= before + a.app_secret + empty);
            assert(signing_text(b) =~= before + b.app_secret + empty);
            lemma_middle_cancels(before, a.app_secret, b.app_secret, empty);
        }
    }
    assert(signing_text(a) != signing_text(b));
    encode_utf8_decode_utf8(signing_text(a));
    encode_utf8_decode_utf8(signing_text(b));
}

/// A change of one field, the others kept, changes the signature, wherever
/// SHA-1 tells the two byte strings apart that are hashed.
pub proof fn lemma_one_field_changes_signature(a: SignedFields, b: SignedFields)
    requires
        differ_in_one_field(a, b),
        sha1_digest(signing_bytes(a)) != sha1_digest(signing_bytes(b)),
    ensures
        signature_text(a) != signature_text(b),
{
    lemma_signatures_equal_iff_digests_equal(a, b);
}

/// Two signatures are the same exactly when the digests under them are: the
/// hexadecimal form loses nothing.
pub proof fn lemma_signatures_equal_iff_digests_equal(a: SignedFields, b: SignedFields)
    ensures
        signature_text(a) == signature_text(b) <==> sha1_digest(signing_bytes(a)) == sha1_digest(
            signing_bytes(b),
        ),
{
    if signature_text(a) == signature_text(b) {
        lemma_lower_hex_injective(sha1_digest(signing_bytes(a)), sha1_digest(signing_bytes(b)));
    }
}

} // verus!
