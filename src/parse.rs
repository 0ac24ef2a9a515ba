//! Character-level searches used to read names out of response headers and URLs.
use vstd::prelude::*;
use crate::text::str_eq;

verus! {

/// `p` occurs in `s` at position `i`.
pub open spec fn occurs_at(s: Seq<char>, p: Seq<char>, i: int) -> bool {
    0 <= i && i + p.len() <= s.len() && s.subrange(i, i + p.len()) == p
}

/// `i` is the first position from `from` on where `p` occurs, or `s.len()` when there is none.
pub open spec fn is_next_occ(s: Seq<char>, p: Seq<char>, from: int, i: int) -> bool {
    &&& from <= i <= s.len()
    &&& i < s.len() ==> occurs_at(s, p, i)
    &&& forall|j: int| from <= j < i ==> !occurs_at(s, p, j)
}

pub open spec fn next_occ(s: Seq<char>, p: Seq<char>, from: int) -> int {
    choose|i: int| is_next_occ(s, p, from, i)
}

/// What `s.split(p).nth(1)` gives: the text between the first and the second
/// occurrence of `p` (or the end), when `p` occurs at all.
pub open spec fn second_piece(s: Seq<char>, p: Seq<char>) -> Option<Seq<char>> {
    let i = next_occ(s, p, 0);
    if i >= s.len() {
        None
    } else {
        Some(s.subrange(i + p.len(), next_occ(s, p, i + p.len())))
    }
}

pub open spec fn trim_front(s: Seq<char>, c: char) -> Seq<char>
    decreases s.len(),
{
    if s.len() > 0 && s[0] == c {
        trim_front(s.subrange(1, s.len() as int), c)
    } else {
        s
    }
}

pub open spec fn trim_back(s: Seq<char>, c: char) -> Seq<char>
    decreases s.len(),
{
    if s.len() > 0 && s[s.len() - 1] == c {
        trim_back(s.subrange(0, s.len() - 1), c)
    } else {
        s
    }
}

/// `s` without any `c` at either end.
pub open spec fn trim_char(s: Seq<char>, c: char) -> Seq<char> {
    trim_back(trim_front(s, c), c)
}

/// `i` is the position of the last `c` in `s`, or -1 when there is none.
pub open spec fn is_last_of(s: Seq<char>, c: char, i: int) -> bool {
    &&& -1 <= i < s.len()
    &&& i >= 0 ==> s[i] == c
    &&& forall|j: int| i < j < s.len() ==> s[j] != c
}

/// The text after the last `c`, or all of `s` when there is none.
pub open spec fn after_last(s: Seq<char>, c: char) -> Seq<char> {
    s.subrange((choose|i: int| is_last_of(s, c, i)) + 1, s.len() as int)
}

proof fn lemma_next_occ_unique(s: Seq<char>, p: Seq<char>, from: int, a: int, b: int)
    requires
        p.len() > 0,
        is_next_occ(s, p, from, a),
        is_next_occ(s, p, from, b),
    ensures
        a == b,
{
    if a < b {
        assert(occurs_at(s, p, a));
    } else if b < a {
        assert(occurs_at(s, p, b));
    }
}

fn occurs_at_exec(s: &str, p: &str, i: usize) -> (r: bool)
    requires
        i <= s@.len(),
    ensures
        r == occurs_at(s@, p@, i as int),
{
    let n = s.unicode_len();
    let m = p.unicode_len();
    if m > n - i {
        return false;
    }
    let piece = s.substring_char(i, i + m);
    str_eq(piece, p)
}

/// The first position from `from` on where `p` occurs, or `s.len()`.
pub fn find_from(s: &str, p: &str, from: usize) -> (r: usize)
    requires
        from <= s@.len(),
        p@.len() > 0,
    ensures
        r as int == next_occ(s@, p@, from as int),
        is_next_occ(s@, p@, from as int, r as int),
{
    let n = s.unicode_len();
    let mut i: usize = from;
    while i < n && !occurs_at_exec(s, p, i)
        invariant
            n == s@.len(),
            from <= i <= n,
            forall|j: int| from <= j < i ==> !occurs_at(s@, p@, j),
        decreases n - i,
    {
        i = i + 1;
    }
    proof {
        assert(is_next_occ(s@, p@, from as int, i as int));
        lemma_next_occ_unique(s@, p@, from as int, i as int, next_occ(s@, p@, from as int));
    }
    i
}

/// The second piece of `s` split at `p`, as `s.split(p).nth(1)` gives it.
pub fn second_piece_exec<'a>(s: &'a str, p: &str) -> (r: Option<&'a str>)
    requires
        p@.len() > 0,
    ensures
        match r {
            Some(t) => second_piece(s@, p@) == Some(t@),
            None => second_piece(s@, p@) is None,
        },
{
    let n = s.unicode_len();
    let i = find_from(s, p, 0);
    if i >= n {
        return None;
    }
    let m = p.unicode_len();
    let a = i + m;
    let b = find_from(s, p, a);
    Some(s.substring_char(a, b))
}

/// `s` with every `c` at either end removed, as `s.trim_matches(c)` gives it.
pub fn trim_char_exec(s: &str, c: char) -> (r: &str)
    ensures
        r@ == trim_char(s@, c),
{
    let n = s.unicode_len();
    let mut a: usize = 0;
    assert(s@.subrange(0, n as int) =~= s@);
    while a < n && s.get_char(a) == c
        invariant
            n == s@.len(),
            a <= n,
            trim_front(s@, c) == trim_front(s@.subrange(a as int, n as int), c),
        decreases n - a,
    {
        assert(s@.subrange(a as int, n as int).subrange(1, n - a) =~= s@.subrange(
            a + 1,
            n as int,
        ));
        a = a + 1;
    }
    assert(trim_front(s@, c) == s@.subrange(a as int, n as int));
    let mut b: usize = n;
    while b > a && s.get_char(b - 1) == c
        invariant
            n == s@.len(),
            a <= b <= n,
            trim_char(s@, c) == trim_back(s@.subrange(a as int, b as int), c),
        decreases b - a,
    {
        assert(s@.subrange(a as int, b as int).subrange(0, b - a - 1) =~= s@.subrange(
            a as int,
            b - 1,
        ));
        b = b - 1;
    }
    s.substring_char(a, b)
}

/// The text after the last `c`, as `s.split(c).last()` gives it.
pub fn after_last_exec(s: &str, c: char) -> (r: &str)
    ensures
        r@ == after_last(s@, c),
{
    let n = s.unicode_len();
    let mut k: usize = n;
    while k > 0 && s.get_char(k - 1) != c
        invariant
            n == s@.len(),
            k <= n,
            forall|j: int| k <= j < n ==> s@[j] != c,
        decreases k,
    {
        k = k - 1;
    }
    proof {
        let i = k - 1;
        assert(is_last_of(s@, c, i));
        let w = choose|i: int| is_last_of(s@, c, i);
        if w < i {
            assert(s@[i] == c);
        } else if i < w {
            assert(s@[w] == c);
        }
    }
    s.substring_char(k, n)
}

/// `p` occurs somewhere in `s`.
pub open spec fn contains(s: Seq<char>, p: Seq<char>) -> bool {
    exists|i: int| occurs_at(s, p, i)
}

/// Whether `p` occurs in `s`.
pub fn contains_exec(s: &str, p: &str) -> (r: bool)
    requires
        p@.len() > 0,
    ensures
        r == contains(s@, p@),
{
    let i = find_from(s, p, 0);
    let found = i < s.unicode_len();
    proof {
        if !found {
            assert forall|j: int| !occurs_at(s@, p@, j) by {
                if 0 <= j < s@.len() {
                    assert(!occurs_at(s@, p@, j));
                }
            }
        }
    }
    found
}

} // verus!
