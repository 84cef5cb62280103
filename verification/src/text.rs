//! Searching and cutting text, stated over sequences of characters.
//!
//! Positions count characters, not bytes: position `i` of a string `s` is
//! index `i` of its view `s@`.

use vstd::prelude::*;
use vstd::std_specs::iter::IteratorSpec;
use vstd::string::StrSliceExecFns;

verus! {

/// `pat` stands in `s` at position `i`.
pub open spec fn occurs_at(s: Seq<char>, pat: Seq<char>, i: int) -> bool {
    &&& 0 <= i
    &&& i + pat.len() <= s.len()
    &&& s.subrange(i, i + pat.len()) == pat
}

/// `pat` stands somewhere in `s`.
pub open spec fn has_infix(s: Seq<char>, pat: Seq<char>) -> bool {
    exists|i: int| occurs_at(s, pat, i)
}

/// `s` with one leading `pat` taken off; `s` itself where it does not start
/// with `pat`.
pub open spec fn without_prefix(s: Seq<char>, pat: Seq<char>) -> Seq<char> {
    if occurs_at(s, pat, 0) {
        s.skip(pat.len() as int)
    } else {
        s
    }
}

/// What stands before the first `c` in `s`; all of `s` where it holds no `c`.
pub open spec fn before_first(s: Seq<char>, c: char) -> Seq<char> {
    match s.index_of_first(c) {
        Some(i) => s.take(i),
        None => s,
    }
}

/// What follows the first `c` in `s`, where there is one.
pub open spec fn after_first(s: Seq<char>, c: char) -> Option<Seq<char>> {
    match s.index_of_first(c) {
        Some(i) => Some(s.skip(i + 1)),
        None => None,
    }
}

/// The first `c` of `s` is found at `i` and nowhere before.
pub proof fn lemma_first_at(s: Seq<char>, c: char, i: int)
    requires
        0 <= i < s.len(),
        s[i] == c,
        forall|j: int| 0 <= j < i ==> s[j] != c,
    ensures
        s.index_of_first(c) == Some(i),
{
    s.index_of_first_ensures(c);
}

/// A sequence without `c` has no first `c`.
pub proof fn lemma_first_absent(s: Seq<char>, c: char)
    requires
        forall|j: int| 0 <= j < s.len() ==> s[j] != c,
    ensures
        s.index_of_first(c) is None,
{
    s.index_of_first_ensures(c);
}

/// What stands before the first `c` holds no `c`.
pub proof fn lemma_before_first_lacks(s: Seq<char>, c: char)
    ensures
        !before_first(s, c).contains(c),
{
    s.index_of_first_ensures(c);
}

/// Cutting at the first `c` loses nothing: the two pieces, with `c` between
/// them where it was found, are `s` again.
pub proof fn lemma_cut_rejoins(s: Seq<char>, c: char)
    ensures
        s == before_first(s, c) + match after_first(s, c) {
            Some(t) => seq![c] + t,
            None => Seq::empty(),
        },
{
    s.index_of_first_ensures(c);
}

/// The characters of `s`, in order, as a vector.
pub fn chars_of(s: &str) -> (v: Vec<char>)
    ensures
        v@ == s@,
{
    broadcast use vstd::string::group_string_axioms;

    let mut v: Vec<char> = Vec::new();
    let mut it = s.chars();
    loop
        invariant
            v@ + it.remaining() == s@,
            it.decrease() is Some,
        decreases it.decrease()->0,
    {
        match it.next() {
            Some(c) => {
                v.push(c);
            },
            None => {
                return v;
            },
        }
    }
}

/// Whether `pat` stands in `hay` at position `i`.
fn matches_at(hay: &Vec<char>, pat: &Vec<char>, i: usize) -> (b: bool)
    requires
        i + pat.len() <= hay.len(),
    ensures
        b == occurs_at(hay@, pat@, i as int),
{
    let m = pat.len();
    let mut k: usize = 0;
    while k < m
        invariant
            m == pat.len(),
            k <= m,
            i + m <= hay.len(),
            forall|j: int| 0 <= j < k ==> hay@[i + j] == pat@[j],
        decreases m - k,
    {
        if hay[i + k] != pat[k] {
            return false;
        }
        k += 1;
    }
    assert(hay@.subrange(i as int, i + m) =~= pat@);
    true
}

/// Whether `pat` stands somewhere in `s`. The empty pattern stands in every
/// string.
pub fn contains(s: &str, pat: &str) -> (b: bool)
    ensures
        b == has_infix(s@, pat@),
{
    let hay = chars_of(s);
    let needle = chars_of(pat);
    let n = hay.len();
    let m = needle.len();
    if m > n {
        return false;
    }
    let last = n - m;
    let mut i: usize = 0;
    loop
        invariant
            hay@ == s@,
            needle@ == pat@,
            last + needle.len() == hay.len(),
            i <= last,
            forall|k: int| 0 <= k < i ==> !occurs_at(s@, pat@, k),
        decreases last - i,
    {
        if matches_at(&hay, &needle, i) {
            return true;
        }
        if i == last {
            return false;
        }
        i += 1;
    }
}

/// `s` with one leading `pat` taken off; `s` itself where it does not start
/// with `pat`.
pub fn trim_prefix<'a>(s: &'a str, pat: &str) -> (r: &'a str)
    ensures
        r@ == without_prefix(s@, pat@),
{
    let hay = chars_of(s);
    let needle = chars_of(pat);
    if needle.len() <= hay.len() && matches_at(&hay, &needle, 0) {
        s.substring_char(needle.len(), hay.len())
    } else {
        s
    }
}

/// The position of the first `c` in `s`; `None` where `s` holds no `c`.
pub fn find(s: &str, c: char) -> (r: Option<usize>)
    ensures
        match r {
            Some(i) => {
                &&& s@.index_of_first(c) == Some(i as int)
                &&& i < s@.len()
                &&& s@[i as int] == c
                &&& forall|j: int| 0 <= j < i ==> s@[j] != c
            },
            None => {
                &&& s@.index_of_first(c) is None
                &&& !s@.contains(c)
            },
        },
{
    broadcast use vstd::string::group_string_axioms;

    let n = s.unicode_len();
    let mut it = s.chars();
    let mut i: usize = 0;
    while i < n
        invariant
            n == s@.len(),
            i <= n,
            it.remaining() == s@.skip(i as int),
            forall|j: int| 0 <= j < i ==> s@[j] != c,
        decreases n - i,
    {
        let next = it.next();
        if next == Some(c) {
            proof {
                lemma_first_at(s@, c, i as int);
            }
            return Some(i);
        }
        i += 1;
    }
    proof {
        lemma_first_absent(s@, c);
    }
    None
}

/// What stands before the first `c` in `s`; all of `s` where it holds no `c`.
pub fn before<'a>(s: &'a str, c: char) -> (r: &'a str)
    ensures
        r@ == before_first(s@, c),
{
    match find(s, c) {
        Some(i) => s.substring_char(0, i),
        None => s,
    }
}

/// What follows the first `c` in `s`, where there is one.
pub fn after<'a>(s: &'a str, c: char) -> (r: Option<&'a str>)
    ensures
        match r {
            Some(t) => after_first(s@, c) == Some(t@),
            None => after_first(s@, c) is None,
        },
{
    match find(s, c) {
        Some(i) => {
            let n = s.unicode_len();
            Some(s.substring_char(i + 1, n))
        },
        None => None,
    }
}

} // verus!
