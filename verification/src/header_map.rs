//! Response-header maps: an `indexmap::IndexMap<String, String>` seen through
//! the ordered sequence of its (name, value) entries.

use indexmap::IndexMap;
use vstd::prelude::*;

verus! {

#[verifier::external_type_specification]
#[verifier::external_body]
#[verifier::reject_recursive_types(K)]
#[verifier::reject_recursive_types(V)]
#[verifier::reject_recursive_types(S)]
pub struct ExIndexMap<K, V, S>(IndexMap<K, V, S>);

/// An ordered sequence of (name, value) header entries.
pub type Entries = Seq<(Seq<char>, Seq<char>)>;

/// The entries of a header map, in insertion order, each as (name, value).
pub uninterp spec fn header_entries(m: IndexMap<String, String>) -> Seq<(Seq<char>, Seq<char>)>;

/// No two entries share a name.
pub open spec fn names_unique(e: Entries) -> bool {
    forall|i: int, j: int| 0 <= i < e.len() && 0 <= j < e.len() && i != j ==> e[i].0 != e[j].0
}

/// Some entry carries the name `k`.
pub open spec fn has_name(e: Entries, k: Seq<char>) -> bool {
    exists|i: int| 0 <= i < e.len() && e[i].0 == k
}

/// The value stored under name `k`, if any.
pub open spec fn value_of(e: Entries, k: Seq<char>) -> Option<Seq<char>> {
    if has_name(e, k) {
        Some(e[choose|i: int| 0 <= i < e.len() && e[i].0 == k].1)
    } else {
        None
    }
}

/// Inserting into an ordered map: a present name keeps its place and takes the
/// new value; an absent name is appended at the end.
pub open spec fn entries_insert(e: Entries, k: Seq<char>, v: Seq<char>) -> Entries {
    if has_name(e, k) {
        let i = choose|i: int| 0 <= i < e.len() && e[i].0 == k;
        e.update(i, (k, v))
    } else {
        e.push((k, v))
    }
}

/// Calls `IndexMap::insert`. As its documentation says, an equal key keeps its
/// position and gets the new value (the old one is returned); otherwise the
/// pair is appended last. An `IndexMap` never holds two equal keys.
#[verifier::external_body]
pub fn header_map_insert(m: &mut IndexMap<String, String>, k: String, v: String) -> (old_value: Option<String>)
    ensures
        names_unique(header_entries(*old(m))),
        header_entries(*final(m)) == entries_insert(header_entries(*old(m)), k@, v@),
        names_unique(header_entries(*final(m))),
        match old_value {
            Some(o) => value_of(header_entries(*old(m)), k@) == Some(o@),
            None => !has_name(header_entries(*old(m)), k@),
        },
{
    m.insert(k, v)
}

/// Calls `IndexMap::contains_key`.
#[verifier::external_body]
pub fn header_map_contains(m: &IndexMap<String, String>, k: &str) -> (r: bool)
    ensures
        r == has_name(header_entries(*m), k@),
{
    m.contains_key(k)
}

/// Calls `IndexMap::len`.
#[verifier::external_body]
pub fn header_map_len(m: &IndexMap<String, String>) -> (n: usize)
    ensures
        n == header_entries(*m).len(),
{
    m.len()
}

/// Calls `IndexMap::get_index`: the entry at position `i`, if `i` is in range.
/// Its name occurs at no other position.
#[verifier::external_body]
pub fn header_map_get_index(m: &IndexMap<String, String>, i: usize) -> (r: Option<(&String, &String)>)
    ensures
        match r {
            Some((k, v)) => {
                &&& i < header_entries(*m).len()
                &&& header_entries(*m)[i as int] == (k@, v@)
                &&& forall|j: int| 0 <= j < header_entries(*m).len() && j != i
                    ==> header_entries(*m)[j].0 != k@
            },
            None => i >= header_entries(*m).len(),
        },
{
    m.get_index(i)
}

/// Calls `IndexMap::clone`: the copy holds the same entries in the same order.
#[verifier::external_body]
pub fn header_map_clone(m: &IndexMap<String, String>) -> (c: IndexMap<String, String>)
    ensures
        header_entries(c) == header_entries(*m),
{
    m.clone()
}

} // verus!

verus! {

/// Inserting keeps names unique, sets the inserted name's value, and leaves
/// every other name's presence and value as they were.
pub proof fn lemma_insert_effect(e: Entries, k: Seq<char>, v: Seq<char>, other: Seq<char>)
    requires
        names_unique(e),
    ensures
        names_unique(entries_insert(e, k, v)),
        value_of(entries_insert(e, k, v), k) == Some(v),
        other != k ==> has_name(entries_insert(e, k, v), other) == has_name(e, other),
        other != k ==> value_of(entries_insert(e, k, v), other) == value_of(e, other),
{
    let r = entries_insert(e, k, v);
    if has_name(e, k) {
        let i = choose|i: int| 0 <= i < e.len() && e[i].0 == k;
        assert(r[i].0 == k);
        if has_name(e, other) && other != k {
            let j = choose|j: int| 0 <= j < e.len() && e[j].0 == other;
            assert(r[j] == e[j]);
        }
        if has_name(r, other) && other != k {
            let j = choose|j: int| 0 <= j < r.len() && r[j].0 == other;
            assert(e[j] == r[j]);
        }
    } else {
        assert(r[e.len() as int] == (k, v));
        if has_name(e, other) {
            let j = choose|j: int| 0 <= j < e.len() && e[j].0 == other;
            assert(r[j] == e[j]);
        }
        if has_name(r, other) && other != k {
            let j = choose|j: int| 0 <= j < r.len() && r[j].0 == other;
            assert(e[j] == r[j]);
        }
    }
}

} // verus!
