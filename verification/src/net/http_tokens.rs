//! The syntax that the `http` crate accepts for methods, header names and
//! header values.

use vstd::prelude::*;

verus! {

/// A token character of RFC 9110: a letter, a digit, or one of
/// "!#$%&'*+-.^_`|~".
pub open spec fn is_tchar(b: u8) -> bool {
    ||| 0x30 <= b <= 0x39
    ||| 0x41 <= b <= 0x5a
    ||| 0x61 <= b <= 0x7a
    ||| b == 0x21 || b == 0x23 || b == 0x24 || b == 0x25 || b == 0x26 || b == 0x27
    ||| b == 0x2a || b == 0x2b || b == 0x2d || b == 0x2e
    ||| b == 0x5e || b == 0x5f || b == 0x60 || b == 0x7c || b == 0x7e
}

/// Bytes that `http::Method::from_bytes` accepts: a non-empty token.
pub open spec fn is_method_token(b: Seq<u8>) -> bool {
    b.len() > 0 && forall|i: int| 0 <= i < b.len() ==> is_tchar(#[trigger] b[i])
}

/// Bytes that `http::HeaderName::from_bytes` accepts: a token of at most
/// 65535 bytes (upper-case letters are accepted and lower-cased).
pub open spec fn is_header_name(b: Seq<u8>) -> bool {
    0 < b.len() <= 65535 && forall|i: int| 0 <= i < b.len() ==> is_tchar(#[trigger] b[i])
}

/// A byte that `http::HeaderValue::from_str` accepts.
pub open spec fn is_header_value_byte(b: u8) -> bool {
    (b >= 32 && b != 127) || b == 9
}

/// Bytes that `http::HeaderValue::from_str` accepts.
pub open spec fn is_header_value(b: Seq<u8>) -> bool {
    forall|i: int| 0 <= i < b.len() ==> is_header_value_byte(#[trigger] b[i])
}

/// Calls `http::Method::from_bytes`; its source accepts exactly the
/// non-empty sequences of token bytes.
#[verifier::external_body]
pub(crate) fn method_is_valid(b: &[u8]) -> (r: bool)
    ensures
        r == is_method_token(b@),
{
    http::Method::from_bytes(b).is_ok()
}

/// Calls `http::HeaderName::from_bytes`; its source accepts exactly the token
/// byte sequences of length 1 to 65535.
#[verifier::external_body]
pub(crate) fn header_name_is_valid(b: &[u8]) -> (r: bool)
    ensures
        r == is_header_name(b@),
{
    http::header::HeaderName::from_bytes(b).is_ok()
}

/// Calls `http::HeaderValue::from_str`; its source accepts exactly the strings
/// whose bytes are all tab or at least 32 and not 127.
#[verifier::external_body]
pub(crate) fn header_value_is_valid(s: &str) -> (r: bool)
    ensures
        r == is_header_value(vstd::utf8::encode_utf8(s@)),
{
    http::header::HeaderValue::from_str(s).is_ok()
}

} // verus!
