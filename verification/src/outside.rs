//! The functions of other crates and of the standard library that the library
//! calls, each with what is taken on trust of it.

use crate::percent::{url_decoded, url_encoded};
use crate::text::opt_view;
use vstd::prelude::*;
use vstd::utf8::{decode_utf8, valid_utf8};

verus! {

/// [`String::push`] appends one character at the end.
pub assume_specification[ String::push ](s: &mut String, c: char)
    ensures
        final(s)@ == old(s)@.push(c),
;

/// A character with the Unicode property `White_Space`.
pub open spec fn white_space(c: char) -> bool {
    ||| '\u{9}' <= c <= '\u{d}'
    ||| c == ' '
    ||| c == '\u{85}'
    ||| c == '\u{a0}'
    ||| c == '\u{1680}'
    ||| '\u{2000}' <= c <= '\u{200a}'
    ||| c == '\u{2028}'
    ||| c == '\u{2029}'
    ||| c == '\u{202f}'
    ||| c == '\u{205f}'
    ||| c == '\u{3000}'
}

/// [`char::is_whitespace`] holds of the characters with the Unicode property
/// `White_Space`, which are the twenty-five of [`white_space`].
pub assume_specification[ char::is_whitespace ](c: char) -> (r: bool)
    ensures
        r == white_space(c),
;

/// The text that [`String::from_utf8_lossy`] makes of bytes that are not UTF-8, with
/// U+FFFD for each malformed part.
pub uninterp spec fn repaired_text(bytes: Seq<u8>) -> Seq<char>;

/// Bytes read as text.
pub open spec fn lossy_text(bytes: Seq<u8>) -> Seq<char> {
    if valid_utf8(bytes) {
        decode_utf8(bytes)
    } else {
        repaired_text(bytes)
    }
}

/// [`String::from_utf8_lossy`] depends on the bytes alone, and bytes that are
/// UTF-8 it decodes as such.
#[verifier::external_body]
pub(crate) fn utf8_lossy(bytes: &[u8]) -> (r: String)
    ensures
        valid_utf8(bytes@) ==> r@ == decode_utf8(bytes@),
        !valid_utf8(bytes@) ==> r@ == repaired_text(bytes@),
{
    String::from_utf8_lossy(bytes).into_owned()
}

/// `urlencoding::encode` percent-encodes every UTF-8 byte of the text except
/// letters, digits, `-`, `_`, `.` and `~`, with upper-case digits.
#[verifier::external_body]
pub(crate) fn url_encode(s: &str) -> (r: String)
    ensures
        r@ == url_encoded(s@),
{
    urlencoding::encode(s).into_owned()
}

/// `urlencoding::decode` replaces each `%` with two hexadecimal digits after it by
/// the byte they stand for, keeps every other byte as it is, a `+` and a broken
/// escape among them, and fails where the bytes it ends with are not UTF-8.
#[verifier::external_body]
pub(crate) fn url_decode(s: &str) -> (r: Option<String>)
    ensures
        opt_view(r) == url_decoded(s@),
{
    match urlencoding::decode(s) {
        Ok(text) => Some(text.into_owned()),
        Err(_) => None,
    }
}

/// A parsed JSON document, `serde_json::Value`.
#[verifier::external_type_specification]
#[verifier::external_body]
pub struct ExJsonValue(serde_json::Value);

/// The members of a JSON object whose values are strings, by name; nothing for a
/// document that is no object.
pub uninterp spec fn text_members(value: serde_json::Value) -> Map<Seq<char>, Seq<char>>;

/// What `serde_json::from_slice` reads in bytes, by the string members of the
/// document; `None` where it finds no JSON document.
pub uninterp spec fn json_text_members(bytes: Seq<u8>) -> Option<Map<Seq<char>, Seq<char>>>;

/// `serde_json::from_slice`, read into a `serde_json::Value`, depends on the bytes
/// alone: whether it succeeds, and the string members of what it reads.
#[verifier::external_body]
pub(crate) fn parse_json(bytes: &[u8]) -> (r: Option<serde_json::Value>)
    ensures
        (match r {
            Some(value) => json_text_members(bytes@) == Some(text_members(value)),
            None => json_text_members(bytes@) is None,
        }),
{
    match serde_json::from_slice::<serde_json::Value>(bytes) {
        Ok(value) => Some(value),
        Err(_) => None,
    }
}

/// `serde_json::Value::get` followed by `serde_json::Value::as_str` gives the text
/// of the member with that name, and nothing where the document is no object, has
/// no such member, or the member is no string.
#[verifier::external_body]
pub(crate) fn text_member<'a>(value: &'a serde_json::Value, name: &str) -> (r: Option<&'a str>)
    ensures
        (match r {
            Some(text) => text_members(*value).contains_key(name@) && text@ == text_members(
                *value,
            )[name@],
            None => !text_members(*value).contains_key(name@),
        }),
{
    value.get(name)?.as_str()
}

} // verus!
