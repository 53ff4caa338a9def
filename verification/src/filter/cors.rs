//! CORS response headers and preflight detection.

use indexmap::IndexMap;
use vstd::prelude::*;

use crate::config::schema::CorsConfig;
use crate::header_map::{
    entries_insert, header_entries, header_map_insert, lemma_insert_effect, names_unique, value_of, Entries,
};
use crate::text::str_eq;

verus! {

/// The view of an optional setting, or `default` when it is absent.
pub open spec fn setting_or(o: Option<String>, default: Seq<char>) -> Seq<char> {
    match o {
        Some(s) => s@,
        None => default,
    }
}

/// `e` with the three `access-control-allow-*` headers set from `cors`
/// (defaults "*", "GET,POST,OPTIONS" and "content-type,authorization").
pub open spec fn with_cors_headers(e: Entries, cors: Option<CorsConfig>) -> Entries {
    match cors {
        None => e,
        Some(c) => entries_insert(
            entries_insert(
                entries_insert(
                    e,
                    "access-control-allow-origin"@,
                    setting_or(c.allow_origin, "*"@),
                ),
                "access-control-allow-methods"@,
                setting_or(c.allow_methods, "GET,POST,OPTIONS"@),
            ),
            "access-control-allow-headers"@,
            setting_or(c.allow_headers, "content-type,authorization"@),
        ),
    }
}

fn setting_value(o: &Option<String>, default: &str) -> (r: String)
    ensures
        r@ == setting_or(*o, default@),
{
    match o {
        Some(s) => s.clone(),
        None => String::from_str(default),
    }
}

/// Sets the CORS headers when CORS is configured, overwriting any header of
/// the same name; without CORS the map is left as it is.
pub fn apply_cors_headers(headers: &mut IndexMap<String, String>, cors: Option<&CorsConfig>)
    ensures
        header_entries(*final(headers)) == with_cors_headers(
            header_entries(*old(headers)),
            match cors { Some(c) => Some(*c), None => None },
        ),
{
    let cors = match cors {
        Some(c) => c,
        None => return,
    };
    let allow_origin = setting_value(&cors.allow_origin, "*");
    let allow_methods = setting_value(&cors.allow_methods, "GET,POST,OPTIONS");
    let allow_headers = setting_value(&cors.allow_headers, "content-type,authorization");
    header_map_insert(headers, String::from_str("access-control-allow-origin"), allow_origin);
    header_map_insert(headers, String::from_str("access-control-allow-methods"), allow_methods);
    header_map_insert(headers, String::from_str("access-control-allow-headers"), allow_headers);
}

/// Whether some name in `names` equals `k`.
pub open spec fn names_contain(names: Seq<String>, k: Seq<char>) -> bool {
    exists|i: int| 0 <= i < names.len() && names[i]@ == k
}

fn contains_name(names: &Vec<String>, k: &str) -> (r: bool)
    ensures
        r == names_contain(names@, k@),
{
    let mut i: usize = 0;
    while i < names.len()
        invariant
            i <= names.len(),
            forall|j: int| 0 <= j < i ==> names@[j]@ != k@,
        decreases names.len() - i,
    {
        if str_eq(names[i].as_str(), k) {
            return true;
        }
        i = i + 1;
    }
    false
}

/// A CORS preflight: an `OPTIONS` request carrying both `origin` and
/// `access-control-request-method` headers. `header_names` are the request's
/// header names, lower-cased as HTTP header maps hold them.
pub fn is_preflight(method: &str, header_names: &Vec<String>) -> (r: bool)
    ensures
        r == (method@ == "OPTIONS"@ && names_contain(header_names@, "origin"@)
            && names_contain(header_names@, "access-control-request-method"@)),
{
    if !str_eq(method, "OPTIONS") {
        return false;
    }
    contains_name(header_names, "origin") && contains_name(header_names, "access-control-request-method")
}

} // verus!

verus! {

/// With CORS configured, the three `access-control-allow-*` headers carry the
/// configured values (or the defaults), whatever the map held before; every
/// other header is left as it was. Without CORS nothing changes.
pub proof fn law_cors_headers(e: Entries, cors: Option<CorsConfig>, other: Seq<char>)
    requires
        names_unique(e),
    ensures
        ({
            let r = with_cors_headers(e, cors);
            &&& names_unique(r)
            &&& cors is None ==> r == e
            &&& cors matches Some(c) ==> {
                &&& value_of(r, "access-control-allow-origin"@) == Some(setting_or(c.allow_origin, "*"@))
                &&& value_of(r, "access-control-allow-methods"@) == Some(setting_or(c.allow_methods, "GET,POST,OPTIONS"@))
                &&& value_of(r, "access-control-allow-headers"@) == Some(setting_or(c.allow_headers, "content-type,authorization"@))
                &&& other != "access-control-allow-origin"@ && other != "access-control-allow-methods"@
                    && other != "access-control-allow-headers"@ ==> value_of(r, other) == value_of(e, other)
            }
        }),
{
    if let Some(c) = cors {
        reveal_strlit("access-control-allow-origin");
        reveal_strlit("access-control-allow-methods");
        reveal_strlit("access-control-allow-headers");
        let a = "access-control-allow-origin"@;
        let b = "access-control-allow-methods"@;
        let h = "access-control-allow-headers"@;
        assert(a != b && a != h && b != h) by {
            assert(a[21] != b[21] && a[21] != h[21] && b[21] != h[21]);
        }
        let va = setting_or(c.allow_origin, "*"@);
        let vb = setting_or(c.allow_methods, "GET,POST,OPTIONS"@);
        let vh = setting_or(c.allow_headers, "content-type,authorization"@);
        let e1 = entries_insert(e, a, va);
        let e2 = entries_insert(e1, b, vb);
        lemma_insert_effect(e, a, va, other);
        lemma_insert_effect(e1, b, vb, a);
        lemma_insert_effect(e1, b, vb, other);
        lemma_insert_effect(e2, h, vh, a);
        lemma_insert_effect(e2, h, vh, b);
        lemma_insert_effect(e2, h, vh, other);
    }
}

} // verus!
