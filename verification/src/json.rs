//! JSON texts, as the crate `serde_json` writes them.

use vstd::prelude::*;
use vstd::string::*;

use crate::digits::digit_char;

verus! {

/// A JSON value of the crate `serde_json`. Nothing of its inside is read
/// here: it is only written out as text.
#[verifier::external_type_specification]
#[verifier::external_body]
pub struct ExValue(serde_json::Value);

/// The compact JSON text of a value.
pub uninterp spec fn json_text(value: serde_json::Value) -> Seq<char>;

/// How one character stands inside a JSON string literal: the quote and the
/// backslash behind a backslash; backspace, tab, line feed, form feed and
/// carriage return as a backslash and a letter; any other character below the
/// space as `\u00` and its two hexadecimal digits in lower case; every other
/// character as itself.
pub open spec fn json_escaped(c: char) -> Seq<char> {
    if c == '"' {
        seq!['\\', '"']
    } else if c == '\\' {
        seq!['\\', '\\']
    } else if c == '\u{8}' {
        seq!['\\', 'b']
    } else if c == '\t' {
        seq!['\\', 't']
    } else if c == '\n' {
        seq!['\\', 'n']
    } else if c == '\u{c}' {
        seq!['\\', 'f']
    } else if c == '\r' {
        seq!['\\', 'r']
    } else if (c as int) < 0x20 {
        seq!['\\', 'u', '0', '0', digit_char(c as int / 16), digit_char(c as int % 16)]
    } else {
        seq![c]
    }
}

/// The characters of a text, each as it stands inside a JSON string literal.
pub open spec fn json_escaped_text(text: Seq<char>) -> Seq<char>
    decreases text.len(),
{
    if text.len() == 0 {
        Seq::empty()
    } else {
        json_escaped(text.first()) + json_escaped_text(text.drop_first())
    }
}

/// The JSON string literal of a text: the escaped text between double quotes.
pub open spec fn json_string_literal(text: Seq<char>) -> Seq<char> {
    seq!['"'] + json_escaped_text(text) + seq!['"']
}

/// Calls `serde_json::to_string` on a value and, where it fails, renders the
/// error as its message.
///
/// Trusted: a text that comes back is the compact JSON text of the value,
/// which depends on the value alone. Nothing is claimed of a failure.
#[verifier::external_body]
pub(crate) fn write_json(value: &serde_json::Value) -> (outcome: Result<String, String>)
    ensures
        outcome is Ok ==> outcome.unwrap()@ == json_text(*value),
{
    match serde_json::to_string(value) {
        Ok(text) => Ok(text),
        Err(e) => Err(e.to_string()),
    }
}

/// Calls `serde_json::to_string` on a text.
///
/// Trusted: the call does not fail on a text, and gives its JSON string
/// literal: a double quote, the characters of the text with the escapes
/// above and no others, and a double quote.
#[verifier::external_body]
pub(crate) fn write_json_string(text: &str) -> (literal: String)
    ensures
        literal@ == json_string_literal(text@),
{
    serde_json::to_string(text).unwrap()
}

/// The payload of a request that carries no body: the empty JSON object.
pub open spec fn empty_payload() -> Seq<char> {
    "{}"@
}

/// The payload of a request: an object whose one field, `data`, holds the
/// body as a JSON string literal; the empty object where there is no body.
pub open spec fn payload_text(literal: Option<Seq<char>>) -> Seq<char> {
    match literal {
        Some(l) => "{\"data\":"@ + l + "}"@,
        None => empty_payload(),
    }
}

/// Frames the payload of a request around the JSON string literal of its
/// body.
pub fn frame_payload(literal: Option<&str>) -> (payload: String)
    ensures
        payload@ == payload_text(
            match literal {
                Some(l) => Some(l@),
                None => None,
            },
        ),
{
    match literal {
        Some(l) => {
            let mut payload = "{\"data\":".to_owned();
            payload.append(l);
            payload.append("}");
            payload
        },
        None => "{}".to_owned(),
    }
}

/// Whether a character stands inside a JSON string literal behind a
/// backslash.
pub open spec fn needs_escape(c: char) -> bool {
    c == '"' || c == '\\' || (c as int) < 0x20
}

/// An escaped character is never empty; it begins with a backslash exactly
/// when the character needs an escape, and is else the character alone.
proof fn lemma_escaped_shape(c: char)
    ensures
        json_escaped(c).len() >= 1,
        needs_escape(c) ==> json_escaped(c).len() >= 2 && json_escaped(c)[0] == '\\',
        !needs_escape(c) ==> json_escaped(c) == seq![c],
{
}

/// Two characters that are escaped alike are the same character.
proof fn lemma_escaped_injective(c: char, d: char)
    requires
        json_escaped(c) == json_escaped(d),
    ensures
        c == d,
{
    lemma_escaped_shape(c);
    lemma_escaped_shape(d);
    let e = json_escaped(c);
    if needs_escape(c) {
        assert(e[0] == '\\');
        assert(needs_escape(d)) by {
            if !needs_escape(d) {
                assert(json_escaped(d)[0] == d);
            }
        }
        assert(e[1] == json_escaped(d)[1]);
        if e[1] == 'u' {
            assert(e.len() == 6);
            assert(e[4] == digit_char(c as int / 16));
            assert(e[5] == digit_char(c as int % 16));
            assert(json_escaped(d)[4] == digit_char(d as int / 16));
            assert(json_escaped(d)[5] == digit_char(d as int % 16));
            assert(c as int / 16 == d as int / 16);
            assert(c as int % 16 == d as int % 16);
        }
    } else {
        assert(e[0] == c);
        assert(!needs_escape(d)) by {
            if needs_escape(d) {
                assert(json_escaped(d)[0] == '\\');
            }
        }
        assert(json_escaped(d)[0] == d);
    }
}

/// Of two escaped characters, neither is the beginning of the longer text of
/// the other: where two texts that begin with them agree, the characters are
/// the same.
proof fn lemma_escaped_prefix_free(c: char, d: char, after_c: Seq<char>, after_d: Seq<char>)
    requires
        json_escaped(c) + after_c == json_escaped(d) + after_d,
    ensures
        c == d,
        after_c == after_d,
{
    lemma_escaped_shape(c);
    lemma_escaped_shape(d);
    let left = json_escaped(c) + after_c;
    let right = json_escaped(d) + after_d;
    let ec = json_escaped(c);
    let ed = json_escaped(d);
    assert(left[0] == ec[0]);
    assert(right[0] == ed[0]);
    if needs_escape(c) {
        assert(needs_escape(d)) by {
            if !needs_escape(d) {
                assert(ed[0] == d);
            }
        }
        assert(left[1] == ec[1]);
        assert(right[1] == ed[1]);
        if ec[1] == 'u' {
            assert(ec.len() == 6 && ed.len() == 6);
            assert forall|i: int| 0 <= i < 6 implies ec[i] == ed[i] by {
                assert(left[i] == ec[i]);
                assert(right[i] == ed[i]);
            }
            assert(ec =~= ed);
        } else {
            assert(ec.len() == 2 && ed.len() == 2);
            assert(ec =~= ed);
        }
    } else {
        assert(!needs_escape(d)) by {
            if needs_escape(d) {
                assert(ed[0] == '\\');
            }
        }
        assert(ec =~= ed);
    }
    lemma_escaped_injective(c, d);
    assert(after_c =~= left.subrange(ec.len() as int, left.len() as int));
    assert(after_d =~= right.subrange(ed.len() as int, right.len() as int));
}

/// Two texts that are escaped alike are the same text.
pub proof fn lemma_escaped_text_injective(a: Seq<char>, b: Seq<char>)
    requires
        json_escaped_text(a) == json_escaped_text(b),
    ensures
        a == b,
    decreases a.len(),
{
    if a.len() == 0 {
        if b.len() != 0 {
            lemma_escaped_shape(b.first());
            assert(json_escaped_text(b).len() >= json_escaped(b.first()).len());
        }
        assert(a =~= b);
    } else if b.len() == 0 {
        lemma_escaped_shape(a.first());
        assert(json_escaped_text(a).len() >= json_escaped(a.first()).len());
    } else {
        lemma_escaped_prefix_free(
            a.first(),
            b.first(),
            json_escaped_text(a.drop_first()),
            json_escaped_text(b.drop_first()),
        );
        lemma_escaped_text_injective(a.drop_first(), b.drop_first());
        assert(a =~= seq![a.first()] + a.drop_first());
        assert(b =~= seq![b.first()] + b.drop_first());
    }
}

/// Two texts with the same JSON string literal are the same text: the
/// literal loses nothing.
pub proof fn lemma_json_string_literal_injective(a: Seq<char>, b: Seq<char>)
    requires
        json_string_literal(a) == json_string_literal(b),
    ensures
        a == b,
{
    let quote = seq!['"'];
    let ea = json_escaped_text(a);
    let eb = json_escaped_text(b);
    assert(json_string_literal(a).len() == ea.len() + 2);
    assert(json_string_literal(b).len() == eb.len() + 2);
    assert forall|i: int| 0 <= i < ea.len() implies ea[i] == eb[i] by {
        assert(json_string_literal(a)[i + 1] == ea[i]);
        assert(json_string_literal(b)[i + 1] == eb[i]);
    }
    assert(ea =~= eb);
    lemma_escaped_text_injective(a, b);
}

/// Two bodies with the same payload are the same body.
pub proof fn lemma_payload_determines_body(a: Seq<char>, b: Seq<char>)
    requires
        payload_text(Some(json_string_literal(a))) == payload_text(Some(json_string_literal(b))),
    ensures
        a == b,
{
    let head = "{\"data\":"@;
    let tail = "}"@;
    let la = json_string_literal(a);
    let lb = json_string_literal(b);
    let pa = head + la + tail;
    let pb = head + lb + tail;
    assert(pa.len() == pb.len());
    assert(la.len() == lb.len());
    assert forall|i: int| 0 <= i < la.len() implies la[i] == lb[i] by {
        assert(pa[head.len() + i] == la[i]);
        assert(pb[head.len() + i] == lb[i]);
    }
    assert(la =~= lb);
    lemma_json_string_literal_injective(a, b);
}

} // verus!
