//! The header collection of `http` as this crate sees it: a map from header
//! names to the values stored under each name, and the calls that read and
//! change it.
//!
//! The types are those of `http`. What a value holds is given a name here,
//! and each call is stated over those names; none of these statements is
//! proved.

use http::header::{HeaderMap, HeaderName, HeaderValue};
use vstd::prelude::*;
use vstd::utf8::encode_utf8;

verus! {

/// `http::HeaderMap`, taken as it is; what it holds is `header_entries`.
#[verifier::external_type_specification]
#[verifier::external_body]
#[verifier::reject_recursive_types(T)]
pub struct ExHeaderMap<T>(HeaderMap<T>);

/// `http::HeaderName`, taken as it is; what it holds is `header_name_text`.
#[verifier::external_type_specification]
#[verifier::external_body]
pub struct ExHeaderName(HeaderName);

/// `http::HeaderValue`, taken as it is; what it holds is
/// `header_value_bytes`.
#[verifier::external_type_specification]
#[verifier::external_body]
pub struct ExHeaderValue(HeaderValue);

/// The values that a header map holds: under each header name that occurs,
/// the values stored for it, in the order in which they were added.
pub uninterp spec fn header_entries(headers: HeaderMap<HeaderValue>) -> Map<
    Seq<char>,
    Seq<Seq<u8>>,
>;

/// The text of a header name, which is always in lower case.
pub uninterp spec fn header_name_text(name: HeaderName) -> Seq<char>;

/// The bytes of a header value.
pub uninterp spec fn header_value_bytes(value: HeaderValue) -> Seq<u8>;

/// The first value stored under `name`, if the name occurs.
pub open spec fn first_of(entries: Map<Seq<char>, Seq<Seq<u8>>>, name: Seq<char>) -> Option<
    Seq<u8>,
> {
    if entries.dom().contains(name) {
        Some(entries[name][0])
    } else {
        None
    }
}

/// The bytes of an optional header value.
pub open spec fn value_bytes(value: Option<HeaderValue>) -> Option<Seq<u8>> {
    match value {
        Some(v) => Some(header_value_bytes(v)),
        None => None,
    }
}

/// A byte that may occur in a header value: anything from the space on
/// except the delete character, and the tab.
pub open spec fn is_value_byte(b: u8) -> bool {
    (b >= 32 && b != 127) || b == 9
}

/// A byte of a header value that reads as text: a printable ASCII
/// character, the space or the tab.
pub open spec fn is_visible_byte(b: u8) -> bool {
    (32 <= b < 127) || b == 9
}

/// Whether every byte may occur in a header value.
pub open spec fn is_value(bytes: Seq<u8>) -> bool {
    forall|i: int| 0 <= i < bytes.len() ==> is_value_byte(#[trigger] bytes[i])
}

/// Whether every byte reads as text.
pub open spec fn is_visible(bytes: Seq<u8>) -> bool {
    forall|i: int| 0 <= i < bytes.len() ==> is_visible_byte(#[trigger] bytes[i])
}

/// ASCII bytes read as characters, one character per byte.
pub open spec fn ascii_text(bytes: Seq<u8>) -> Seq<char> {
    Seq::new(bytes.len(), |i: int| bytes[i] as char)
}

/// The text of the name of the header that carries a credential.
pub open spec fn authorization_text() -> Seq<char> {
    "authorization"@
}

/// `http::header::AUTHORIZATION`: the standard header name whose text is
/// `authorization`.
#[verifier::external_body]
pub(crate) fn authorization() -> (name: HeaderName)
    ensures
        header_name_text(name) == authorization_text(),
{
    http::header::AUTHORIZATION
}

/// `HeaderValue::from_str`: accepts a string exactly when each byte of its
/// UTF-8 encoding may occur in a header value, and then holds those bytes.
#[verifier::external_body]
pub(crate) fn value_from_str(text: &str) -> (value: Option<HeaderValue>)
    ensures
        value is Some <==> is_value(encode_utf8(text@)),
        value matches Some(v) ==> header_value_bytes(v) == encode_utf8(text@),
{
    HeaderValue::from_str(text).ok()
}

/// `HeaderValue::to_str`: yields the value as text exactly when each of its
/// bytes reads as text, one character per byte.
#[verifier::external_body]
pub(crate) fn value_to_str(value: &HeaderValue) -> (text: Option<&str>)
    ensures
        text is Some <==> is_visible(header_value_bytes(*value)),
        text matches Some(t) ==> t@ == ascii_text(header_value_bytes(*value)),
{
    value.to_str().ok()
}

/// `HeaderMap::get`: the first value stored under the name, `None` when the
/// name does not occur.
#[verifier::external_body]
pub(crate) fn first_value<'a>(
    headers: &'a HeaderMap<HeaderValue>,
    name: &HeaderName,
) -> (value: Option<&'a HeaderValue>)
    ensures
        match value {
            Some(v) => first_of(header_entries(*headers), header_name_text(*name)) == Some(
                header_value_bytes(*v),
            ),
            None => first_of(header_entries(*headers), header_name_text(*name)) is None,
        },
{
    headers.get(name)
}

/// `HeaderMap::try_insert`: on success the name holds the new value and
/// nothing else, and the other names are as before; when the map refuses to
/// grow, its entries are as before. Which of the two happens depends on the
/// room that the map has.
#[verifier::external_body]
pub(crate) fn try_insert(
    headers: &mut HeaderMap<HeaderValue>,
    name: &HeaderName,
    value: HeaderValue,
) -> (done: bool)
    ensures
        done ==> header_entries(*final(headers)) == header_entries(*old(headers)).insert(
            header_name_text(*name),
            seq![header_value_bytes(value)],
        ),
        !done ==> header_entries(*final(headers)) == header_entries(*old(headers)),
{
    headers.try_insert(name, value).is_ok()
}

/// `HeaderMap::remove`: takes every value stored under the name out of the
/// map and hands back the first of them; `None`, and no change, when the name
/// does not occur.
#[verifier::external_body]
pub(crate) fn remove(
    headers: &mut HeaderMap<HeaderValue>,
    name: &HeaderName,
) -> (value: Option<HeaderValue>)
    ensures
        header_entries(*final(headers)) == header_entries(*old(headers)).remove(
            header_name_text(*name),
        ),
        value_bytes(value) == first_of(header_entries(*old(headers)), header_name_text(*name)),
{
    headers.remove(name)
}

/// `HeaderMap::clone`: a map with the same entries.
#[verifier::external_body]
pub(crate) fn clone_headers(headers: &HeaderMap<HeaderValue>) -> (copy: HeaderMap<HeaderValue>)
    ensures
        header_entries(copy) == header_entries(*headers),
{
    headers.clone()
}

} // verus!
