//! What the bridge takes from the `http` types that `axum` re-exports and from
//! `serde_json`: the syntax checks on methods, targets and headers, the reason
//! phrase of a status code, and the encoding of a structured body.
//!
//! The functions marked `external_body` call those crates; their contracts
//! are taken on trust. Everything else in this file is proved.

use vstd::prelude::*;
use axum::http::Error as HttpError;
use serde_json::Error as JsonError;

verus! {

/// Whether `b` may occur in an HTTP token: a letter, a digit, or one of
/// ``! # $ % & ' * + - . ^ _ ` | ~``.
pub open spec fn is_token_byte(b: u8) -> bool {
    ||| 0x30 <= b <= 0x39
    ||| 0x41 <= b <= 0x5a
    ||| 0x61 <= b <= 0x7a
    ||| b == 0x21
    ||| 0x23 <= b <= 0x27
    ||| b == 0x2a
    ||| b == 0x2b
    ||| b == 0x2d
    ||| b == 0x2e
    ||| 0x5e <= b <= 0x60
    ||| b == 0x7c
    ||| b == 0x7e
}

/// Whether `s` is an HTTP token: not empty, token bytes only.
pub open spec fn is_token(s: Seq<u8>) -> bool {
    s.len() > 0 && forall|i: int| 0 <= i < s.len() ==> is_token_byte(#[trigger] s[i])
}

/// `b` with an ASCII capital letter turned into the small one.
pub open spec fn lower_byte(b: u8) -> u8 {
    if 0x41 <= b <= 0x5a {
        (b + 0x20) as u8
    } else {
        b
    }
}

/// `s` with every ASCII capital letter turned into the small one.
pub open spec fn lowered(s: Seq<u8>) -> Seq<u8> {
    Seq::new(s.len(), |i: int| lower_byte(s[i]))
}

/// The longest header name that is accepted, in bytes.
pub const MAX_HEADER_NAME_LEN: usize = 65535;

/// The name under which a header called `src` is stored: `src` in small
/// letters, if `src` is a token of at most `MAX_HEADER_NAME_LEN` bytes.
pub open spec fn canonical_header_name(src: Seq<u8>) -> Option<Seq<u8>> {
    if is_token(src) && src.len() <= MAX_HEADER_NAME_LEN {
        Some(lowered(src))
    } else {
        None
    }
}

/// Whether `b` may occur in a header value: anything but a control character
/// other than the tab.
pub open spec fn is_header_value_byte(b: u8) -> bool {
    (b >= 32 && b != 127) || b == 9
}

/// Whether `s` can be a header value.
pub open spec fn is_header_value(s: Seq<u8>) -> bool {
    forall|i: int| 0 <= i < s.len() ==> is_header_value_byte(#[trigger] s[i])
}

/// Whether `b` is a printable ASCII character, a blank or a tab.
pub open spec fn is_visible_ascii(b: u8) -> bool {
    (32 <= b < 127) || b == 9
}

/// Whether `s` can be shown as text: visible ASCII only.
pub open spec fn is_visible_text(s: Seq<u8>) -> bool {
    forall|i: int| 0 <= i < s.len() ==> is_visible_ascii(#[trigger] s[i])
}

/// The characters that the ASCII bytes `s` stand for.
pub open spec fn ascii_chars(s: Seq<u8>) -> Seq<char> {
    Seq::new(s.len(), |i: int| s[i] as char)
}

/// Whether `src` is accepted as a request target. The grammar is that of
/// `http::Uri`; nothing is said of it here but through the functions below.
pub uninterp spec fn uri_accepted(src: Seq<u8>) -> bool;

/// The reason phrase that `http::StatusCode` knows for `code`, if any.
pub uninterp spec fn canonical_reason(code: u16) -> Option<Seq<char>>;

#[verifier::external_type_specification]
#[verifier::external_body]
pub struct ExHttpError(HttpError);

#[verifier::external_type_specification]
#[verifier::external_body]
pub struct ExJsonValue(serde_json::Value);

#[verifier::external_type_specification]
#[verifier::external_body]
pub struct ExJsonError(JsonError);

/// `http::Method::from_bytes`: accepts exactly the tokens. The error is the
/// crate's own, turned into its general error type.
#[verifier::external_body]
pub(crate) fn check_method(src: &[u8]) -> (r: Result<(), HttpError>)
    ensures
        r is Ok <==> is_token(src@),
{
    match axum::http::Method::from_bytes(src) {
        Ok(_) => Ok(()),
        Err(e) => Err(e.into()),
    }
}

/// `http::Uri::try_from(&[u8])`: says whether the bytes parse as a request
/// target. The empty input is refused and a lone `/` is accepted.
#[verifier::external_body]
pub(crate) fn check_uri(src: &[u8]) -> (r: Result<(), HttpError>)
    ensures
        r is Ok <==> uri_accepted(src@),
        src@.len() == 0 ==> r is Err,
        src@ == seq![0x2fu8] ==> r is Ok,
{
    match axum::http::Uri::try_from(src) {
        Ok(_) => Ok(()),
        Err(e) => Err(e.into()),
    }
}

/// `Display` of `http::Error`: the message of the error, of which nothing is claimed.
#[verifier::external_body]
pub(crate) fn http_error_text(e: &HttpError) -> (text: String) {
    e.to_string()
}

/// `http::HeaderName::from_bytes` followed by `as_str`: the name in small
/// letters if the input is a token of at most `MAX_HEADER_NAME_LEN` bytes,
/// nothing otherwise.
#[verifier::external_body]
pub(crate) fn header_name_from_bytes(src: &[u8]) -> (r: Option<Vec<u8>>)
    ensures
        match canonical_header_name(src@) {
            Some(name) => r is Some && r->0@ == name,
            None => r is None,
        },
{
    match axum::http::HeaderName::from_bytes(src) {
        Ok(name) => Some(name.as_str().as_bytes().to_vec()),
        Err(_) => None,
    }
}

/// `http::HeaderValue::from_bytes`: accepts the bytes exactly if none of them
/// is a control character other than the tab.
#[verifier::external_body]
pub(crate) fn header_value_accepts(src: &[u8]) -> (ok: bool)
    ensures
        ok == is_header_value(src@),
{
    axum::http::HeaderValue::from_bytes(src).is_ok()
}

/// `http::StatusCode::canonical_reason`, for a code that `StatusCode` can hold.
#[verifier::external_body]
pub(crate) fn reason_of(code: u16) -> (r: Option<String>)
    requires
        100 <= code <= 999,
    ensures
        match canonical_reason(code) {
            Some(phrase) => r is Some && r->0@ == phrase,
            None => r is None,
        },
{
    match axum::http::StatusCode::from_u16(code) {
        Ok(status) => match status.canonical_reason() {
            Some(phrase) => Some(phrase.to_string()),
            None => None,
        },
        Err(_) => None,
    }
}

/// `serde_json::to_vec` on a JSON value: its encoding, or the encoder's error.
#[verifier::external_body]
pub(crate) fn json_to_vec(value: &serde_json::Value) -> (r: Result<Vec<u8>, JsonError>) {
    serde_json::to_vec(value)
}

/// `Display` of `serde_json::Error`: the message of the error, of which nothing is claimed.
#[verifier::external_body]
pub(crate) fn json_error_text(e: &JsonError) -> (text: String) {
    e.to_string()
}

/// `String::from_utf8` on ASCII bytes: one character per byte.
#[verifier::external_body]
pub(crate) fn string_from_ascii(bytes: Vec<u8>) -> (text: String)
    requires
        forall|i: int| 0 <= i < bytes@.len() ==> #[trigger] bytes@[i] < 128,
    ensures
        text@ == ascii_chars(bytes@),
{
    match String::from_utf8(bytes) {
        Ok(text) => text,
        Err(_) => String::new(),
    }
}

/// Whether `b` may occur in an HTTP token.
pub fn token_byte(b: u8) -> (ok: bool)
    ensures
        ok == is_token_byte(b),
{
    (0x30 <= b && b <= 0x39) || (0x41 <= b && b <= 0x5a) || (0x61 <= b && b <= 0x7a) || b == 0x21
        || (0x23 <= b && b <= 0x27) || b == 0x2a || b == 0x2b || b == 0x2d || b == 0x2e || (0x5e
        <= b && b <= 0x60) || b == 0x7c || b == 0x7e
}

/// `b` with an ASCII capital letter turned into the small one.
pub fn to_lower(b: u8) -> (l: u8)
    ensures
        l == lower_byte(b),
{
    if 0x41 <= b && b <= 0x5a {
        b + 0x20
    } else {
        b
    }
}

/// Whether `a` and `b` are the same but for the case of ASCII letters.
pub open spec fn same_name(a: Seq<u8>, b: Seq<u8>) -> bool {
    lowered(a) == lowered(b)
}

/// Compares two header names without regard to the case of ASCII letters.
pub fn names_match(a: &[u8], b: &[u8]) -> (same: bool)
    ensures
        same == same_name(a@, b@),
{
    if a.len() != b.len() {
        assert(lowered(a@).len() != lowered(b@).len());
        return false;
    }
    let mut i: usize = 0;
    while i < a.len()
        invariant
            i <= a.len(),
            a.len() == b.len(),
            forall|j: int| 0 <= j < i ==> lower_byte(a@[j]) == lower_byte(b@[j]),
        decreases a.len() - i,
    {
        if to_lower(a[i]) != to_lower(b[i]) {
            assert(lowered(a@)[i as int] != lowered(b@)[i as int]);
            return false;
        }
        i += 1;
    }
    assert(lowered(a@) =~= lowered(b@));
    true
}

/// The text of a header value as it is shown to the frontend: the value
/// itself if it is visible ASCII throughout, the empty text otherwise.
pub open spec fn header_text(value: Seq<u8>) -> Seq<char> {
    if is_visible_text(value) {
        ascii_chars(value)
    } else {
        Seq::empty()
    }
}

/// Whether every byte of `value` is visible ASCII.
pub fn visible_text(value: &[u8]) -> (ok: bool)
    ensures
        ok == is_visible_text(value@),
{
    let mut i: usize = 0;
    while i < value.len()
        invariant
            i <= value.len(),
            forall|j: int| 0 <= j < i ==> is_visible_ascii(#[trigger] value@[j]),
        decreases value.len() - i,
    {
        let b = value[i];
        if !((32 <= b && b < 127) || b == 9) {
            assert(!is_visible_ascii(value@[i as int]));
            return false;
        }
        i += 1;
    }
    true
}

/// Turns a header value into the text shown to the frontend.
pub fn header_value_text(value: Vec<u8>) -> (text: String)
    ensures
        text@ == header_text(value@),
{
    if visible_text(value.as_slice()) {
        assert forall|i: int| 0 <= i < value@.len() implies #[trigger] value@[i] < 128 by {
            assert(is_visible_ascii(value@[i]));
        }
        string_from_ascii(value)
    } else {
        String::new()
    }
}

/// The status text of `code`: its reason phrase where one is known, the empty
/// text otherwise.
pub open spec fn status_text_of(code: u16) -> Seq<char> {
    if 100 <= code <= 999 {
        reason_or_empty(canonical_reason(code))
    } else {
        Seq::empty()
    }
}

/// The phrase, or the empty text where there is none.
pub open spec fn reason_or_empty(reason: Option<Seq<char>>) -> Seq<char> {
    match reason {
        Some(phrase) => phrase,
        None => Seq::empty(),
    }
}

/// Picks the status text from a looked-up reason phrase.
pub fn reason_text(reason: Option<String>) -> (text: String)
    ensures
        text@ == reason_or_empty(
            match reason {
                Some(phrase) => Some(phrase@),
                None => None,
            },
        ),
{
    match reason {
        Some(phrase) => phrase,
        None => String::new(),
    }
}

/// The status text of `code`.
pub fn status_text(code: u16) -> (text: String)
    ensures
        text@ == status_text_of(code),
{
    if 100 <= code && code <= 999 {
        reason_text(reason_of(code))
    } else {
        String::new()
    }
}

} // verus!
