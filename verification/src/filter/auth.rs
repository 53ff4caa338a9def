//! HTTP Basic authentication of proxy routes.

use vstd::prelude::*;
use vstd::utf8::{decode_utf8, encode_utf8, valid_utf8};

use crate::config::schema::BasicAuthConfig;
use crate::net::base64_codec::{base64_decode, base64_standard_decoded};

verus! {

/// A byte that `HeaderValue::to_str` accepts: visible ASCII or tab.
pub open spec fn is_visible_ascii(b: u8) -> bool {
    (32 <= b && b < 127) || b == 9
}

/// The bytes of "Basic ".
pub open spec fn basic_scheme() -> Seq<u8> {
    seq![0x42u8, 0x61u8, 0x73u8, 0x69u8, 0x63u8, 0x20u8]
}

/// The credentials that a header value carries when it reads as text,
/// starts with "Basic " and the rest is standard base64.
pub open spec fn presented_credentials(value: Seq<u8>) -> Option<Seq<u8>> {
    if (forall|i: int| 0 <= i < value.len() ==> is_visible_ascii(#[trigger] value[i]))
        && value.len() >= 6 && value.subrange(0, 6) == basic_scheme() {
        base64_standard_decoded(value.subrange(6, value.len() as int))
    } else {
        None
    }
}

/// A request passes basic auth when the route requires none, or when its
/// `authorization` header presents credentials that decode as UTF-8 text
/// to exactly "username:password".
pub open spec fn basic_auth_passes(authorization: Option<Seq<u8>>, config: Option<BasicAuthConfig>) -> bool {
    match config {
        None => true,
        Some(c) => match authorization {
            None => false,
            Some(v) => match presented_credentials(v) {
                None => false,
                Some(d) => valid_utf8(d) && decode_utf8(d) == c.username@ + seq![':'] + c.password@,
            },
        },
    }
}

fn bytes_eq(a: &[u8], b: &[u8]) -> (r: bool)
    ensures
        r == (a@ == b@),
{
    if a.len() != b.len() {
        return false;
    }
    let mut i: usize = 0;
    while i < a.len()
        invariant
            a@.len() == b@.len(),
            i <= a@.len(),
            forall|j: int| 0 <= j < i ==> a@[j] == b@[j],
        decreases a@.len() - i,
    {
        if a[i] != b[i] {
            return false;
        }
        i = i + 1;
    }
    assert(a@ =~= b@);
    true
}

/// Checks the raw `authorization` header value of a request against the
/// route's basic-auth settings.
#[verifier::loop_isolation(false)]
pub fn check_basic_auth(authorization: Option<&[u8]>, config: Option<&BasicAuthConfig>) -> (r: bool)
    ensures
        r == basic_auth_passes(
            match authorization { Some(v) => Some(v@), None => None },
            match config { Some(c) => Some(*c), None => None },
        ),
{
    let config = match config {
        None => return true,
        Some(c) => c,
    };
    let value = match authorization {
        None => return false,
        Some(v) => v,
    };
    let mut i: usize = 0;
    while i < value.len()
        invariant
            i <= value@.len(),
            forall|j: int| 0 <= j < i ==> is_visible_ascii(#[trigger] value@[j]),
        decreases value@.len() - i,
    {
        let b = value[i];
        if !((32 <= b && b < 127) || b == 9) {
            assert(!is_visible_ascii(value@[i as int]));
            return false;
        }
        i = i + 1;
    }
    if value.len() < 6 {
        return false;
    }
    let (scheme, encoded) = value.split_at(6);
    if !(scheme[0] == 0x42 && scheme[1] == 0x61 && scheme[2] == 0x73 && scheme[3] == 0x69
        && scheme[4] == 0x63 && scheme[5] == 0x20) {
        assert(value@.subrange(0, 6) != basic_scheme()) by {
            assert(scheme@ == value@.subrange(0, 6));
            if value@.subrange(0, 6) == basic_scheme() {
                assert(scheme@[0] == 0x42u8 && scheme@[1] == 0x61u8 && scheme@[2] == 0x73u8);
                assert(scheme@[3] == 0x69u8 && scheme@[4] == 0x63u8 && scheme@[5] == 0x20u8);
            }
        }
        return false;
    }
    assert(scheme@ =~= basic_scheme());
    let decoded = match base64_decode(encoded) {
        None => return false,
        Some(d) => d,
    };
    let mut expected = config.username.clone();
    expected.append(":");
    expected.append(config.password.as_str());
    proof {
        reveal_strlit(":");
    }
    let ghost text = config.username@ + seq![':'] + config.password@;
    assert(expected@ =~= text);
    let expected_bytes = expected.as_str().as_bytes();
    let same = bytes_eq(decoded.as_slice(), expected_bytes);
    proof {
        vstd::utf8::encode_utf8_valid_utf8(text);
        vstd::utf8::encode_utf8_decode_utf8(text);
        if valid_utf8(decoded@) && decode_utf8(decoded@) == text {
            vstd::utf8::decode_utf8_encode_utf8(decoded@);
        }
    }
    same
}

} // verus!
