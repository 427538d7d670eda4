//! The nonce of a request: a fresh random UUID, by the crate `uuid`.

use vstd::prelude::*;

use crate::signature::is_lower_hex_char;

verus! {

/// Whether a text has the form of a random UUID written in lower case with
/// hyphens: thirty-six characters in groups of eight, four, four, four and
/// twelve hexadecimal digits, `4` for the version at the head of the third
/// group, and `8`, `9`, `a` or `b` for the variant at the head of the fourth.
pub open spec fn is_random_uuid_text(text: Seq<char>) -> bool {
    &&& text.len() == 36
    &&& forall|i: int|
        0 <= i < 36 ==> if i == 8 || i == 13 || i == 18 || i == 23 {
            #[trigger] text[i] == '-'
        } else {
            is_lower_hex_char(text[i])
        }
    &&& text[14] == '4'
    &&& (text[19] == '8' || text[19] == '9' || text[19] == 'a' || text[19] == 'b')
}

/// Calls `Uuid::new_v4` of the crate `uuid` and writes the outcome with
/// `to_string`.
///
/// Trusted: whatever the random bits, the text has the form of a random UUID
/// in lower case with hyphens. Two calls may differ.
#[verifier::external_body]
pub(crate) fn generate_nonce() -> (nonce: String)
    ensures
        is_random_uuid_text(nonce@),
{
    uuid::Uuid::new_v4().to_string()
}

} // verus!
