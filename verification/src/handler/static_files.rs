//! Mapping a request path to a file under the static directory.

use vstd::prelude::*;

use crate::text::chars_of;

verus! {

/// `p` holds ".." somewhere.
pub open spec fn has_dot_dot(p: Seq<char>) -> bool {
    exists|i: int| 0 <= i < p.len() - 1 && #[trigger] p[i] == '.' && p[i + 1] == '.'
}

/// `p` without its leading '/' characters.
pub open spec fn without_leading_slashes(p: Seq<char>) -> Seq<char>
    decreases p.len(),
{
    if p.len() > 0 && p[0] == '/' {
        without_leading_slashes(p.drop_first())
    } else {
        p
    }
}

/// The file that a request path asks for, relative to the static directory:
/// none when the path holds ".." (no escaping the directory), "index.html"
/// for the root, else the path without its leading slashes.
pub open spec fn relative_file(p: Seq<char>) -> Option<Seq<char>> {
    if has_dot_dot(p) {
        None
    } else if without_leading_slashes(p).len() == 0 {
        Some("index.html"@)
    } else {
        Some(without_leading_slashes(p))
    }
}

/// The relative file for a request path.
pub fn normalize_path(path: &str) -> (r: Option<String>)
    ensures
        match r {
            Some(s) => relative_file(path@) == Some(s@),
            None => relative_file(path@) is None,
        },
{
    let cs = chars_of(path);
    let n = cs.len();
    let mut i: usize = 0;
    while n > 0 && i < n - 1
        invariant
            cs@ == path@,
            n == cs@.len(),
            i <= n,
            forall|k: int| 0 <= k < i && k < n - 1 ==> !(#[trigger] cs@[k] == '.' && cs@[k + 1] == '.'),
        decreases n - i,
    {
        if cs[i] == '.' && cs[i + 1] == '.' {
            assert(has_dot_dot(path@)) by {
                assert(path@[i as int] == '.' && path@[i + 1] == '.');
            }
            return None;
        }
        i = i + 1;
    }
    assert(!has_dot_dot(path@));
    assert(cs@.subrange(0, n as int) =~= cs@);
    let mut start: usize = 0;
    while start < n && cs[start] == '/'
        invariant
            cs@ == path@,
            n == cs@.len(),
            start <= n,
            without_leading_slashes(path@) == without_leading_slashes(cs@.subrange(start as int, n as int)),
        decreases n - start,
    {
        assert(cs@.subrange(start as int, n as int).drop_first() =~= cs@.subrange(start + 1, n as int));
        start = start + 1;
    }
    if start == n {
        return Some(String::from_str("index.html"));
    }
    Some(String::from_str(path.substring_char(start, n)))
}

/// `PathBuf::join` of a relative file onto a directory, on Unix: an absolute
/// file replaces the directory; otherwise a '/' separates them unless the
/// directory is empty or already ends with one.
pub open spec fn joined_path(dir: Seq<char>, file: Seq<char>) -> Seq<char> {
    if file.len() > 0 && file[0] == '/' {
        file
    } else if dir.len() == 0 || dir.last() == '/' {
        dir + file
    } else {
        dir + seq!['/'] + file
    }
}

/// The path of `file` under `dir`.
pub fn join_path(dir: &str, file: &str) -> (r: String)
    ensures
        r@ == joined_path(dir@, file@),
{
    let n = dir.unicode_len();
    if file.unicode_len() > 0 && file.get_char(0) == '/' {
        return String::from_str(file);
    }
    let mut r = String::from_str(dir);
    if !(n == 0 || dir.get_char(n - 1) == '/') {
        r.append("/");
        proof {
            reveal_strlit("/");
        }
    }
    r.append(file);
    r
}

} // verus!

verus! {

proof fn lemma_without_leading_slashes_suffix(p: Seq<char>)
    ensures
        without_leading_slashes(p).len() <= p.len(),
        without_leading_slashes(p) == p.subrange(p.len() - without_leading_slashes(p).len(), p.len() as int),
    decreases p.len(),
{
    if p.len() > 0 && p[0] == '/' {
        lemma_without_leading_slashes_suffix(p.drop_first());
        let w = without_leading_slashes(p.drop_first());
        assert(p.drop_first().subrange(p.drop_first().len() - w.len(), p.drop_first().len() as int)
            =~= p.subrange(p.len() - w.len(), p.len() as int));
    } else {
        assert(p.subrange(0, p.len() as int) =~= p);
    }
}

/// A request can only name a file inside the static directory: the file
/// that a path maps to never holds "..", and is never empty.
pub proof fn law_static_file_stays_inside(p: Seq<char>)
    ensures
        relative_file(p) matches Some(f) ==> !has_dot_dot(f) && f.len() > 0,
{
    if !has_dot_dot(p) {
        reveal_strlit("index.html");
        lemma_without_leading_slashes_suffix(p);
        let w = without_leading_slashes(p);
        let off = p.len() - w.len();
        if w.len() > 0 {
            assert forall|i: int| 0 <= i < w.len() - 1 && #[trigger] w[i] == '.' implies w[i + 1] != '.' by {
                assert(w[i] == p[off + i]);
                assert(w[i + 1] == p[off + i + 1]);
            }
        } else {
            let f = "index.html"@;
            assert forall|i: int| 0 <= i < f.len() - 1 && #[trigger] f[i] == '.' implies f[i + 1] != '.' by {}
        }
    }
}

} // verus!
