//! Content types of static files, by file extension.

use vstd::prelude::*;

use crate::text::{after_last, lemma_after_last_bounds, str_eq, chars_of};

verus! {

/// The last component of a Unix path (`Path::file_name`): '/' separators and
/// "." components are skipped, and a last component ".." gives none.
pub open spec fn file_name(p: Seq<char>) -> Option<Seq<char>>
    decreases p.len(),
{
    if p.len() == 0 {
        None
    } else if p.last() == '/' {
        file_name(p.drop_last())
    } else {
        let k = after_last(p, '/');
        proof {
            lemma_after_last_bounds(p, '/');
        }
        let seg = p.subrange(k, p.len() as int);
        if seg == seq!['.'] {
            file_name(p.subrange(0, k))
        } else if seg == seq!['.', '.'] {
            None
        } else {
            Some(seg)
        }
    }
}

/// The extension of a file name (`Path::extension`): what follows its last
/// '.', unless it has none or its only '.' is its first character.
pub open spec fn name_extension(name: Seq<char>) -> Option<Seq<char>> {
    let k = after_last(name, '.');
    if k <= 1 {
        None
    } else {
        Some(name.subrange(k, name.len() as int))
    }
}

/// The extension of a path's file name.
pub open spec fn path_extension(p: Seq<char>) -> Option<Seq<char>> {
    match file_name(p) {
        Some(name) => name_extension(name),
        None => None,
    }
}

/// The content type served for an extension.
pub open spec fn content_type_of(ext: Option<Seq<char>>) -> Seq<char> {
    match ext {
        Some(e) => if e == "html"@ {
            "text/html; charset=utf-8"@
        } else if e == "css"@ {
            "text/css; charset=utf-8"@
        } else if e == "js"@ {
            "application/javascript; charset=utf-8"@
        } else if e == "json"@ {
            "application/json"@
        } else if e == "png"@ {
            "image/png"@
        } else if e == "jpg"@ || e == "jpeg"@ {
            "image/jpeg"@
        } else if e == "svg"@ {
            "image/svg+xml"@
        } else {
            "application/octet-stream"@
        },
        None => "application/octet-stream"@,
    }
}

fn file_name_bounds(cs: &Vec<char>) -> (r: Option<(usize, usize)>)
    ensures
        match r {
            Some((a, b)) => a <= b <= cs@.len() && file_name(cs@) == Some(cs@.subrange(a as int, b as int)),
            None => file_name(cs@) is None,
        },
{
    let mut end = cs.len();
    assert(cs@.subrange(0, end as int) =~= cs@);
    loop
        invariant
            end <= cs@.len(),
            file_name(cs@) == file_name(cs@.subrange(0, end as int)),
        decreases end,
    {
        let ghost p = cs@.subrange(0, end as int);
        if end == 0 {
            return None;
        }
        if cs[end - 1] == '/' {
            assert(p.drop_last() =~= cs@.subrange(0, end - 1));
            end = end - 1;
        } else {
            let mut start = end;
            while start > 0 && cs[start - 1] != '/'
                invariant
                    start <= end,
                    end <= cs@.len(),
                    p == cs@.subrange(0, end as int),
                    after_last(p, '/') == after_last(cs@.subrange(0, start as int), '/'),
                decreases start,
            {
                assert(cs@.subrange(0, start as int).drop_last() =~= cs@.subrange(0, start - 1));
                start = start - 1;
            }
            assert(after_last(p, '/') == start as int);
            proof {
                lemma_after_last_bounds(p, '/');
            }
            let ghost seg = p.subrange(start as int, end as int);
            assert(seg =~= cs@.subrange(start as int, end as int));
            let len = end - start;
            if len == 1 && cs[start] == '.' {
                assert(seg =~= seq!['.']);
                assert(p.subrange(0, start as int) =~= cs@.subrange(0, start as int));
                end = start;
            } else if len == 2 && cs[start] == '.' && cs[start + 1] == '.' {
                assert(seg =~= seq!['.', '.']);
                return None;
            } else {
                assert(seg != seq!['.']) by {
                    if seg == seq!['.'] {
                        assert(seg.len() == 1 && seg[0] == cs@[start as int]);
                    }
                }
                assert(seg != seq!['.', '.']) by {
                    if seg == seq!['.', '.'] {
                        assert(seg[0] == cs@[start as int] && seg[1] == cs@[start + 1]);
                    }
                }
                return Some((start, end));
            }
        }
    }
}

/// The content type of the file at `path`, by its extension; unknown
/// extensions and files without one are "application/octet-stream".
pub fn content_type(path: &str) -> (r: &'static str)
    ensures
        r@ == content_type_of(path_extension(path@)),
{
    let cs = chars_of(path);
    let ext = match file_name_bounds(&cs) {
        None => None,
        Some((a, b)) => {
            let ghost name = cs@.subrange(a as int, b as int);
            let mut k = b;
            while k > a && cs[k - 1] != '.'
                invariant
                    a <= k <= b <= cs@.len(),
                    name == cs@.subrange(a as int, b as int),
                    after_last(name, '.') == after_last(cs@.subrange(a as int, k as int), '.'),
                decreases k,
            {
                assert(cs@.subrange(a as int, k as int).drop_last() =~= cs@.subrange(a as int, k - 1));
                k = k - 1;
            }
            assert(after_last(cs@.subrange(a as int, k as int), '.') == (k - a) as int);
            if k - a <= 1 {
                None
            } else {
                assert(name.subrange(k - a, name.len() as int) =~= cs@.subrange(k as int, b as int));
                Some(path.substring_char(k, b))
            }
        },
    };
    match ext {
        None => "application/octet-stream",
        Some(e) => if str_eq(e, "html") {
            "text/html; charset=utf-8"
        } else if str_eq(e, "css") {
            "text/css; charset=utf-8"
        } else if str_eq(e, "js") {
            "application/javascript; charset=utf-8"
        } else if str_eq(e, "json") {
            "application/json"
        } else if str_eq(e, "png") {
            "image/png"
        } else if str_eq(e, "jpg") || str_eq(e, "jpeg") {
            "image/jpeg"
        } else if str_eq(e, "svg") {
            "image/svg+xml"
        } else {
            "application/octet-stream"
        },
    }
}

} // verus!
