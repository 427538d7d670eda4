//! Bytes as UTF-8 text.

use vstd::prelude::*;
use vstd::utf8::*;

verus! {

/// Whether the first `n` bytes are the longest prefix of a byte string that
/// is UTF-8.
pub open spec fn is_longest_utf8_prefix(bytes: Seq<u8>, n: int) -> bool {
    &&& 0 <= n <= bytes.len()
    &&& valid_utf8(bytes.take(n))
    &&& forall|m: int| n < m <= bytes.len() ==> !valid_utf8(#[trigger] bytes.take(m))
}

/// Whether an outcome of reading bytes as text is the right one: the text
/// that the bytes encode where they are UTF-8, and else the length of their
/// longest prefix that is.
pub open spec fn is_utf8_reading(bytes: Seq<u8>, outcome: Result<String, usize>) -> bool {
    match outcome {
        Ok(text) => valid_utf8(bytes) && text@ == decode_utf8(bytes),
        Err(valid_up_to) => !valid_utf8(bytes) && is_longest_utf8_prefix(bytes, valid_up_to as int),
    }
}

/// Calls `String::from_utf8` of the standard library and, where it fails,
/// `valid_up_to` on the error.
///
/// Trusted: the call succeeds exactly on bytes that are UTF-8 and then gives
/// the text that they encode; on a failure, `valid_up_to` is the greatest
/// length of a prefix that is UTF-8.
#[verifier::external_body]
pub(crate) fn read_utf8(bytes: Vec<u8>) -> (outcome: Result<String, usize>)
    ensures
        is_utf8_reading(bytes@, outcome),
{
    match String::from_utf8(bytes) {
        Ok(text) => Ok(text),
        Err(e) => Err(e.utf8_error().valid_up_to()),
    }
}

/// There is one longest UTF-8 prefix.
pub proof fn lemma_longest_utf8_prefix_is_unique(bytes: Seq<u8>, n: int, m: int)
    requires
        is_longest_utf8_prefix(bytes, n),
        is_longest_utf8_prefix(bytes, m),
    ensures
        n == m,
{
    if n < m {
        assert(!valid_utf8(bytes.take(m)));
    } else if m < n {
        assert(!valid_utf8(bytes.take(n)));
    }
}

} // verus!
