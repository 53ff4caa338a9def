//! The default security response headers.

use indexmap::IndexMap;
use vstd::prelude::*;

use crate::header_map::{
    entries_insert, has_name, header_entries, header_map_contains, header_map_insert, lemma_insert_effect, names_unique,
    value_of, Entries,
};

verus! {

/// `e` with (`k`, `v`) appended, unless a header named `k` is already there.
pub open spec fn entries_add_missing(e: Entries, k: Seq<char>, v: Seq<char>) -> Entries {
    if has_name(e, k) {
        e
    } else {
        e.push((k, v))
    }
}

/// `e` with the three security headers added where missing.
pub open spec fn with_security_headers(e: Entries) -> Entries {
    entries_add_missing(
        entries_add_missing(
            entries_add_missing(e, "x-content-type-options"@, "nosniff"@),
            "x-frame-options"@,
            "DENY"@,
        ),
        "referrer-policy"@,
        "no-referrer"@,
    )
}

fn insert_if_missing(headers: &mut IndexMap<String, String>, name: &str, value: &str)
    ensures
        header_entries(*final(headers)) == entries_add_missing(header_entries(*old(headers)), name@, value@),
{
    if !header_map_contains(headers, name) {
        header_map_insert(headers, String::from_str(name), String::from_str(value));
    }
}

/// Adds `x-content-type-options: nosniff`, `x-frame-options: DENY` and
/// `referrer-policy: no-referrer` where missing, when `enabled`; a header the
/// configuration already sets keeps its value.
pub fn apply_security_headers(headers: &mut IndexMap<String, String>, enabled: bool)
    ensures
        header_entries(*final(headers)) == if enabled {
            with_security_headers(header_entries(*old(headers)))
        } else {
            header_entries(*old(headers))
        },
{
    if !enabled {
        return;
    }
    insert_if_missing(headers, "x-content-type-options", "nosniff");
    insert_if_missing(headers, "x-frame-options", "DENY");
    insert_if_missing(headers, "referrer-policy", "no-referrer");
}

} // verus!

verus! {

proof fn lemma_add_missing_effect(e: Entries, k: Seq<char>, v: Seq<char>, other: Seq<char>)
    requires
        names_unique(e),
    ensures
        names_unique(entries_add_missing(e, k, v)),
        has_name(entries_add_missing(e, k, v), k),
        value_of(entries_add_missing(e, k, v), k) == if has_name(e, k) { value_of(e, k) } else { Some(v) },
        other != k ==> has_name(entries_add_missing(e, k, v), other) == has_name(e, other),
        other != k ==> value_of(entries_add_missing(e, k, v), other) == value_of(e, other),
{
    if !has_name(e, k) {
        lemma_insert_effect(e, k, v, other);
        assert(entries_add_missing(e, k, v) == entries_insert(e, k, v));
    }
}

/// With security headers on, each of the three headers is present; a value
/// that the configuration already gives is kept, else the default is used.
/// Every other header is left as it was.
pub proof fn law_security_headers(e: Entries, other: Seq<char>)
    requires
        names_unique(e),
    ensures
        ({
            let r = with_security_headers(e);
            &&& names_unique(r)
            &&& value_of(r, "x-content-type-options"@) == if has_name(e, "x-content-type-options"@) {
                value_of(e, "x-content-type-options"@)
            } else {
                Some("nosniff"@)
            }
            &&& value_of(r, "x-frame-options"@) == if has_name(e, "x-frame-options"@) {
                value_of(e, "x-frame-options"@)
            } else {
                Some("DENY"@)
            }
            &&& value_of(r, "referrer-policy"@) == if has_name(e, "referrer-policy"@) {
                value_of(e, "referrer-policy"@)
            } else {
                Some("no-referrer"@)
            }
            &&& other != "x-content-type-options"@ && other != "x-frame-options"@ && other != "referrer-policy"@
                ==> value_of(r, other) == value_of(e, other)
        }),
{
    reveal_strlit("x-content-type-options");
    reveal_strlit("x-frame-options");
    reveal_strlit("referrer-policy");
    let a = "x-content-type-options"@;
    let b = "x-frame-options"@;
    let c = "referrer-policy"@;
    assert(a != b && a != c && b != c) by {
        assert(a.len() != b.len() && a.len() != c.len() && b[0] != c[0]);
    }
    let e1 = entries_add_missing(e, a, "nosniff"@);
    let e2 = entries_add_missing(e1, b, "DENY"@);
    lemma_add_missing_effect(e, a, "nosniff"@, b);
    lemma_add_missing_effect(e, a, "nosniff"@, c);
    lemma_add_missing_effect(e, a, "nosniff"@, other);
    lemma_add_missing_effect(e1, b, "DENY"@, a);
    lemma_add_missing_effect(e1, b, "DENY"@, c);
    lemma_add_missing_effect(e1, b, "DENY"@, other);
    lemma_add_missing_effect(e2, c, "no-referrer"@, a);
    lemma_add_missing_effect(e2, c, "no-referrer"@, b);
    lemma_add_missing_effect(e2, c, "no-referrer"@, other);
}

} // verus!
