//! Character-level helpers over string views: equality, prefixes, Unicode
//! white space and trimming, and decimal rendering of integers.

use vstd::prelude::*;

verus! {

/// The copy of a string slice's characters.
pub fn chars_of(s: &str) -> (v: Vec<char>)
    ensures
        v@ == s@,
{
    let n = s.unicode_len();
    let mut v: Vec<char> = Vec::new();
    let mut i: usize = 0;
    while i < n
        invariant
            n == s@.len(),
            i <= n,
            v@ == s@.subrange(0, i as int),
        decreases n - i,
    {
        v.push(s.get_char(i));
        i = i + 1;
    }
    v
}

/// Whether two string slices hold the same characters.
pub fn str_eq(a: &str, b: &str) -> (r: bool)
    ensures
        r == (a@ == b@),
{
    let n = a.unicode_len();
    if n != b.unicode_len() {
        return false;
    }
    let mut i: usize = 0;
    while i < n
        invariant
            n == a@.len(),
            n == b@.len(),
            i <= n,
            a@.subrange(0, i as int) == b@.subrange(0, i as int),
        decreases n - i,
    {
        if a.get_char(i) != b.get_char(i) {
            return false;
        }
        assert(a@.subrange(0, i + 1) == a@.subrange(0, i as int).push(a@[i as int]));
        assert(b@.subrange(0, i + 1) == b@.subrange(0, i as int).push(b@[i as int]));
        i = i + 1;
    }
    assert(a@ == a@.subrange(0, n as int));
    assert(b@ == b@.subrange(0, n as int));
    true
}

/// `p` is a prefix of `s`.
pub open spec fn has_prefix(s: Seq<char>, p: Seq<char>) -> bool {
    p.len() <= s.len() && s.subrange(0, p.len() as int) == p
}

/// Whether `s` starts with `p`.
pub fn starts_with(s: &str, p: &str) -> (r: bool)
    ensures
        r == has_prefix(s@, p@),
{
    let n = s.unicode_len();
    let m = p.unicode_len();
    if m > n {
        return false;
    }
    let mut i: usize = 0;
    while i < m
        invariant
            n == s@.len(),
            m == p@.len(),
            m <= n,
            i <= m,
            s@.subrange(0, i as int) == p@.subrange(0, i as int),
        decreases m - i,
    {
        if s.get_char(i) != p.get_char(i) {
            assert(s@.subrange(0, m as int)[i as int] != p@[i as int]);
            return false;
        }
        assert(s@.subrange(0, i + 1) == s@.subrange(0, i as int).push(s@[i as int]));
        assert(p@.subrange(0, i + 1) == p@.subrange(0, i as int).push(p@[i as int]));
        i = i + 1;
    }
    assert(p@ == p@.subrange(0, m as int));
    true
}

/// A character with the Unicode `White_Space` property, the set that
/// `char::is_whitespace` and `str::trim` use.
pub open spec fn is_white(c: char) -> bool {
    let u = c as u32;
    ||| 0x9 <= u <= 0xd
    ||| u == 0x20
    ||| u == 0x85
    ||| u == 0xa0
    ||| u == 0x1680
    ||| 0x2000 <= u <= 0x200a
    ||| u == 0x2028
    ||| u == 0x2029
    ||| u == 0x202f
    ||| u == 0x205f
    ||| u == 0x3000
}

/// Whether `c` is white space.
pub fn char_is_white(c: char) -> (r: bool)
    ensures
        r == is_white(c),
{
    let u = c as u32;
    (0x9 <= u && u <= 0xd) || u == 0x20 || u == 0x85 || u == 0xa0 || u == 0x1680
        || (0x2000 <= u && u <= 0x200a) || u == 0x2028 || u == 0x2029 || u == 0x202f
        || u == 0x205f || u == 0x3000
}

/// `s` with leading and trailing white space removed.
pub open spec fn trimmed(s: Seq<char>) -> Seq<char>
    decreases s.len(),
{
    if s.len() > 0 && is_white(s[0]) {
        trimmed(s.drop_first())
    } else if s.len() > 0 && is_white(s.last()) {
        trimmed(s.drop_last())
    } else {
        s
    }
}

/// Every character of `s` is white space.
pub open spec fn all_white(s: Seq<char>) -> bool {
    forall|i: int| 0 <= i < s.len() ==> is_white(#[trigger] s[i])
}

/// Trimming leaves nothing exactly when every character is white space.
pub proof fn lemma_trimmed_empty(s: Seq<char>)
    ensures
        (trimmed(s).len() == 0) == all_white(s),
    decreases s.len(),
{
    if s.len() > 0 && is_white(s[0]) {
        lemma_trimmed_empty(s.drop_first());
        if all_white(s.drop_first()) {
            assert forall|i: int| 0 <= i < s.len() implies is_white(#[trigger] s[i]) by {
                if i > 0 {
                    assert(s[i] == s.drop_first()[i - 1]);
                }
            }
        }
    } else if s.len() > 0 && is_white(s.last()) {
        lemma_trimmed_empty(s.drop_last());
        if all_white(s.drop_last()) {
            assert forall|i: int| 0 <= i < s.len() implies is_white(#[trigger] s[i]) by {
                if i < s.len() - 1 {
                    assert(s[i] == s.drop_last()[i]);
                }
            }
        }
        if all_white(s) {
            assert forall|i: int| 0 <= i < s.drop_last().len() implies is_white(#[trigger] s.drop_last()[i]) by {
                assert(s[i] == s.drop_last()[i]);
            }
        }
    } else {
        if s.len() > 0 {
            assert(!is_white(s[0]));
        }
    }
}

/// Whether every character of `s` is white space (`s.trim().is_empty()`).
pub fn is_blank(s: &str) -> (r: bool)
    ensures
        r == all_white(s@),
        r == (trimmed(s@).len() == 0),
{
    proof {
        lemma_trimmed_empty(s@);
    }
    let n = s.unicode_len();
    let mut i: usize = 0;
    while i < n
        invariant
            n == s@.len(),
            i <= n,
            forall|j: int| 0 <= j < i ==> is_white(#[trigger] s@[j]),
        decreases n - i,
    {
        if !char_is_white(s.get_char(i)) {
            assert(!is_white(s@[i as int]));
            proof {
                lemma_trimmed_empty(s@);
            }
            return false;
        }
        i = i + 1;
    }
    true
}

} // verus!

verus! {

/// The bounds, within `[a, b)` of `cs`, of that range with leading and
/// trailing white space removed.
pub fn trim_range(cs: &Vec<char>, a: usize, b: usize) -> (r: (usize, usize))
    requires
        a <= b <= cs@.len(),
    ensures
        a <= r.0 <= r.1 <= b,
        cs@.subrange(r.0 as int, r.1 as int) == trimmed(cs@.subrange(a as int, b as int)),
{
    let mut lo = a;
    while lo < b && char_is_white(cs[lo])
        invariant
            a <= lo <= b <= cs@.len(),
            trimmed(cs@.subrange(a as int, b as int)) == trimmed(cs@.subrange(lo as int, b as int)),
        decreases b - lo,
    {
        assert(cs@.subrange(lo as int, b as int).drop_first() =~= cs@.subrange(lo + 1, b as int));
        lo = lo + 1;
    }
    let mut hi = b;
    while hi > lo && char_is_white(cs[hi - 1])
        invariant
            a <= lo <= hi <= b <= cs@.len(),
            lo < hi ==> !is_white(cs@[lo as int]),
            trimmed(cs@.subrange(a as int, b as int)) == trimmed(cs@.subrange(lo as int, hi as int)),
        decreases hi - lo,
    {
        let ghost sub = cs@.subrange(lo as int, hi as int);
        assert(sub[0] == cs@[lo as int]);
        assert(sub.last() == cs@[hi - 1]);
        assert(sub.drop_last() =~= cs@.subrange(lo as int, hi - 1));
        hi = hi - 1;
    }
    proof {
        let sub = cs@.subrange(lo as int, hi as int);
        if lo < hi {
            assert(sub[0] == cs@[lo as int]);
            assert(sub.last() == cs@[hi - 1]);
        }
    }
    (lo, hi)
}

/// The pieces of `s` between commas, in order (`str::split(',')`).
pub open spec fn split_commas(s: Seq<char>) -> Seq<Seq<char>>
    decreases s.len(),
{
    if s.len() == 0 {
        seq![Seq::<char>::empty()]
    } else {
        let p = split_commas(s.drop_last());
        if s.last() == ',' {
            p.push(Seq::<char>::empty())
        } else {
            p.update(p.len() - 1, p.last().push(s.last()))
        }
    }
}

/// There is always at least one piece.
pub proof fn lemma_split_nonempty(s: Seq<char>)
    ensures
        split_commas(s).len() >= 1,
    decreases s.len(),
{
    if s.len() > 0 {
        lemma_split_nonempty(s.drop_last());
    }
}

/// Without a comma, `s` is its only piece.
pub proof fn lemma_split_no_comma(s: Seq<char>)
    requires
        forall|i: int| 0 <= i < s.len() ==> s[i] != ',',
    ensures
        split_commas(s) == seq![s],
    decreases s.len(),
{
    if s.len() > 0 {
        let t = s.drop_last();
        assert forall|i: int| 0 <= i < t.len() implies t[i] != ',' by {
            assert(t[i] == s[i]);
        }
        lemma_split_no_comma(t);
        assert(t.push(s.last()) =~= s);
        assert(split_commas(s) =~= seq![s]);
    } else {
        assert(s =~= Seq::<char>::empty());
    }
}

/// Splitting around a comma: the pieces of `a`, then those of `b`.
pub proof fn lemma_split_concat(a: Seq<char>, b: Seq<char>)
    ensures
        split_commas(a + seq![','] + b) == split_commas(a) + split_commas(b),
    decreases b.len(),
{
    let s = a + seq![','] + b;
    if b.len() == 0 {
        assert(s.drop_last() =~= a);
        assert(split_commas(s) =~= split_commas(a) + split_commas(b));
    } else {
        let b2 = b.drop_last();
        assert(s.drop_last() =~= a + seq![','] + b2);
        lemma_split_concat(a, b2);
        lemma_split_nonempty(b2);
        let x = split_commas(a);
        let y = split_commas(b2);
        if b.last() == ',' {
            assert(split_commas(s) =~= (x + y).push(Seq::<char>::empty()));
            assert((x + y).push(Seq::<char>::empty()) =~= x + y.push(Seq::<char>::empty()));
        } else {
            assert((x + y).last() == y.last());
            assert((x + y).update((x + y).len() - 1, y.last().push(b.last()))
                =~= x + y.update(y.len() - 1, y.last().push(b.last())));
        }
    }
}

/// The first `Some` in `s`, if any.
pub open spec fn first_some<T>(s: Seq<Option<T>>) -> Option<T>
    decreases s.len(),
{
    if s.len() == 0 {
        None
    } else if s[0] is Some {
        s[0]
    } else {
        first_some(s.drop_first())
    }
}

/// The first `Some` of a concatenation.
pub proof fn lemma_first_some_concat<T>(a: Seq<Option<T>>, b: Seq<Option<T>>)
    ensures
        first_some(a + b) == if first_some(a) is Some { first_some(a) } else { first_some(b) },
    decreases a.len(),
{
    if a.len() > 0 {
        assert((a + b).drop_first() =~= a.drop_first() + b);
        lemma_first_some_concat(a.drop_first(), b);
    } else {
        assert(a + b =~= b);
    }
}

/// When all of `s` before `i` is `None`, the first `Some` lies from `i` on.
pub proof fn lemma_first_some_skip<T>(s: Seq<Option<T>>, i: int)
    requires
        0 <= i <= s.len(),
        forall|k: int| 0 <= k < i ==> s[k] is None,
    ensures
        first_some(s) == first_some(s.subrange(i, s.len() as int)),
    decreases i,
{
    if i > 0 {
        assert(s[0] is None);
        let t = s.drop_first();
        assert forall|k: int| 0 <= k < i - 1 implies t[k] is None by {
            assert(t[k] == s[k + 1]);
        }
        lemma_first_some_skip(t, i - 1);
        assert(t.subrange(i - 1, t.len() as int) =~= s.subrange(i, s.len() as int));
    } else {
        assert(s.subrange(0, s.len() as int) =~= s);
    }
}

/// Characters with ASCII upper-case letters lower-cased
/// (`str::to_ascii_lowercase`).
pub open spec fn ascii_lower(s: Seq<char>) -> Seq<char> {
    s.map_values(|c: char| if 'A' <= c && c <= 'Z' { ((c as u8) + 32u8) as char } else { c })
}

/// Whether `s`, with ASCII letters lower-cased, equals `lower`.
pub fn eq_ascii_lowercase(s: &str, lower: &str) -> (r: bool)
    ensures
        r == (ascii_lower(s@) == lower@),
{
    let n = s.unicode_len();
    if n != lower.unicode_len() {
        return false;
    }
    let mut i: usize = 0;
    while i < n
        invariant
            n == s@.len(),
            n == lower@.len(),
            i <= n,
            forall|j: int| 0 <= j < i ==> ascii_lower(s@)[j] == lower@[j],
        decreases n - i,
    {
        let c = s.get_char(i);
        let l = if 'A' <= c && c <= 'Z' { ((c as u8) + 32u8) as char } else { c };
        assert(ascii_lower(s@)[i as int] == l);
        if l != lower.get_char(i) {
            return false;
        }
        i = i + 1;
    }
    assert(ascii_lower(s@) =~= lower@);
    true
}

} // verus!

verus! {

/// Decimal digit `d` as a character.
pub open spec fn digit_char(d: int) -> char {
    ((d + 48) as u8) as char
}

/// The decimal representation of `n`, without leading zeros.
pub open spec fn decimal(n: nat) -> Seq<char>
    decreases n,
{
    if n < 10 {
        seq![digit_char(n as int)]
    } else {
        decimal(n / 10).push(digit_char((n % 10) as int))
    }
}

fn digit_str(d: u64) -> (s: &'static str)
    requires
        d < 10,
    ensures
        s@ == seq![digit_char(d as int)],
{
    proof {
        reveal_strlit("0");
        reveal_strlit("1");
        reveal_strlit("2");
        reveal_strlit("3");
        reveal_strlit("4");
        reveal_strlit("5");
        reveal_strlit("6");
        reveal_strlit("7");
        reveal_strlit("8");
        reveal_strlit("9");
    }
    let s = match d {
        0 => "0",
        1 => "1",
        2 => "2",
        3 => "3",
        4 => "4",
        5 => "5",
        6 => "6",
        7 => "7",
        8 => "8",
        _ => "9",
    };
    assert(s@ =~= seq![digit_char(d as int)]);
    s
}

/// `n` written in decimal (`u64::to_string`).
pub fn decimal_string(n: u64) -> (s: String)
    ensures
        s@ == decimal(n as nat),
    decreases n,
{
    if n < 10 {
        String::from_str(digit_str(n))
    } else {
        let mut s = decimal_string(n / 10);
        s.append(digit_str(n % 10));
        s
    }
}

/// The position just after the last `c` in `p`, 0 when there is none.
pub open spec fn after_last(p: Seq<char>, c: char) -> int
    decreases p.len(),
{
    if p.len() == 0 {
        0
    } else if p.last() == c {
        p.len() as int
    } else {
        after_last(p.drop_last(), c)
    }
}

pub proof fn lemma_after_last_bounds(p: Seq<char>, c: char)
    ensures
        0 <= after_last(p, c) <= p.len(),
        p.len() > 0 && p.last() != c ==> after_last(p, c) < p.len(),
        after_last(p, c) > 0 ==> p[after_last(p, c) - 1] == c,
        forall|i: int| after_last(p, c) <= i < p.len() ==> p[i] != c,
    decreases p.len(),
{
    if p.len() > 0 && p.last() != c {
        lemma_after_last_bounds(p.drop_last(), c);
        let q = p.drop_last();
        assert forall|i: int| after_last(p, c) <= i < p.len() implies p[i] != c by {
            if i < q.len() {
                assert(p[i] == q[i]);
            }
        }
    }
}

} // verus!

verus! {

/// No `Some` is first exactly when all are `None`.
pub proof fn lemma_first_some_none<T>(s: Seq<Option<T>>)
    ensures
        (first_some(s) is None) == (forall|k: int| 0 <= k < s.len() ==> #[trigger] s[k] is None),
    decreases s.len(),
{
    if s.len() > 0 {
        lemma_first_some_none(s.drop_first());
        if first_some(s) is None {
            assert forall|k: int| 0 <= k < s.len() implies #[trigger] s[k] is None by {
                if k > 0 {
                    assert(s[k] == s.drop_first()[k - 1]);
                }
            }
        }
        if forall|k: int| 0 <= k < s.len() ==> #[trigger] s[k] is None {
            assert(s[0] is None);
            assert forall|k: int| 0 <= k < s.drop_first().len() implies #[trigger] s.drop_first()[k] is None by {
                assert(s.drop_first()[k] == s[k + 1]);
            }
        }
    }
}

} // verus!
