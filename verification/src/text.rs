//! Character-sequence primitives shared by the feed resolvers: substring
//! search over bounded windows, prefix/suffix tests, ASCII lowercasing and
//! trailing-slash trimming, each with a specification over `Seq<char>`.

use vstd::prelude::*;
use vstd::std_specs::iter::IteratorSpec;

verus! {

/// The pattern `pat` occurs in `s` starting exactly at index `i`.
pub open spec fn match_at(s: Seq<char>, pat: Seq<char>, i: int) -> bool {
    &&& 0 <= i
    &&& i + pat.len() <= s.len()
    &&& forall|j: int| 0 <= j < pat.len() ==> s[i + j] == pat[j]
}

/// Index of the leftmost occurrence of `pat` in `s` that starts at or after
/// `from` and ends at or before `hi`; `None` when there is none.
pub open spec fn first_match_in(s: Seq<char>, pat: Seq<char>, from: int, hi: int) -> Option<int>
    decreases hi - from,
{
    if from < 0 || hi > s.len() || from + pat.len() > hi {
        None
    } else if match_at(s, pat, from) {
        Some(from)
    } else {
        first_match_in(s, pat, from + 1, hi)
    }
}

/// `pat` occurs somewhere in `s`.
pub open spec fn contains_seq(s: Seq<char>, pat: Seq<char>) -> bool {
    first_match_in(s, pat, 0, s.len() as int) is Some
}

/// `s` starts with `pat`.
pub open spec fn starts_with(s: Seq<char>, pat: Seq<char>) -> bool {
    pat.len() <= s.len() && match_at(s, pat, 0)
}

/// `s` ends with `pat`.
pub open spec fn ends_with(s: Seq<char>, pat: Seq<char>) -> bool {
    pat.len() <= s.len() && match_at(s, pat, s.len() - pat.len())
}

/// ASCII lowercasing of a single character; non-ASCII characters are kept.
pub open spec fn lower_char(c: char) -> char {
    if 'A' <= c && c <= 'Z' {
        (((c as u32) + 32) as u8) as char
    } else {
        c
    }
}

/// ASCII lowercasing of a whole sequence.
pub open spec fn lower_seq(s: Seq<char>) -> Seq<char> {
    Seq::new(s.len(), |i: int| lower_char(s[i]))
}

/// Length of `s` once every trailing `'/'` has been removed.
pub open spec fn trimmed_len(s: Seq<char>) -> int
    decreases s.len(),
{
    if s.len() > 0 && s[s.len() - 1] == '/' {
        trimmed_len(s.drop_last())
    } else {
        s.len() as int
    }
}

/// `s` with every trailing `'/'` removed.
pub open spec fn trim_end_slashes(s: Seq<char>) -> Seq<char> {
    s.take(trimmed_len(s))
}

pub proof fn lemma_trimmed_len_bounds(s: Seq<char>)
    ensures
        0 <= trimmed_len(s) <= s.len(),
    decreases s.len(),
{
    if s.len() > 0 && s[s.len() - 1] == '/' {
        lemma_trimmed_len_bounds(s.drop_last());
    }
}

/// Skipping one position that does not match leaves the leftmost match unchanged.
pub proof fn lemma_first_match_in_step(s: Seq<char>, pat: Seq<char>, from: int, hi: int)
    requires
        0 <= from,
        hi <= s.len(),
        from + pat.len() <= hi,
        !match_at(s, pat, from),
    ensures
        first_match_in(s, pat, from, hi) == first_match_in(s, pat, from + 1, hi),
{
}

/// The pieces of `s` from `from` on, split at every occurrence of `sep`.
/// A separator at the very end yields a trailing empty piece.
pub open spec fn split_char(s: Seq<char>, sep: char, from: int) -> Seq<Seq<char>>
    decreases s.len() - from,
{
    if from < 0 || from > s.len() {
        seq![]
    } else {
        match first_match_in(s, seq![sep], from, s.len() as int) {
            None => seq![s.subrange(from, s.len() as int)],
            Some(i) => if from <= i && i < s.len() {
                seq![s.subrange(from, i)] + split_char(s, sep, i + 1)
            } else {
                seq![]
            },
        }
    }
}

/// The index of the last piece equal to `x`, if any.
pub open spec fn last_index_of(parts: Seq<Seq<char>>, x: Seq<char>) -> Option<int>
    decreases parts.len(),
{
    if parts.len() == 0 {
        None
    } else if parts.last() == x {
        Some(parts.len() - 1)
    } else {
        last_index_of(parts.drop_last(), x)
    }
}

/// The pieces denoted by a sequence of index ranges into `s`.
pub open spec fn pieces_of(s: Seq<char>, rs: Seq<(usize, usize)>) -> Seq<Seq<char>> {
    rs.map_values(|r: (usize, usize)| s.subrange(r.0 as int, r.1 as int))
}

/// Copies the characters of `s` into a vector.
pub fn to_chars(s: &str) -> (v: Vec<char>)
    ensures
        v@ == s@,
{
    broadcast use vstd::string::group_string_axioms;

    let mut it = s.chars();
    let mut v: Vec<char> = Vec::new();
    loop
        invariant
            it.obeys_prophetic_iter_laws(),
            v@ + it.remaining() == s@,
        decreases s@.len() - v@.len(),
    {
        match it.next() {
            Some(c) => {
                v.push(c);
                proof {
                    assert(v@ + it.remaining() =~= s@);
                }
            },
            None => {
                proof {
                    assert(v@ =~= s@);
                }
                return v;
            },
        }
    }
}

/// Whether `pat` occurs in `v` starting exactly at `i`.
pub fn matches_pat_at(v: &Vec<char>, pat: &Vec<char>, i: usize) -> (b: bool)
    requires
        i + pat@.len() <= v@.len(),
    ensures
        b == match_at(v@, pat@, i as int),
{
    let n = v.len();
    let mut j: usize = 0;
    while j < pat.len()
        invariant
            n == v@.len(),
            i + pat@.len() <= v@.len(),
            j <= pat@.len(),
            forall|k: int| 0 <= k < j ==> v@[i + k] == pat@[k],
        decreases pat@.len() - j,
    {
        if v[i + j] != pat[j] {
            proof {
                let k = j as int;
                assert(v@[i + k] != pat@[k]);
            }
            return false;
        }
        j += 1;
    }
    true
}

/// Leftmost occurrence of `pat` in `v` starting at or after `from` and ending
/// at or before `hi`.
pub fn find_in(v: &Vec<char>, pat: &Vec<char>, from: usize, hi: usize) -> (r: Option<usize>)
    requires
        hi <= v@.len(),
    ensures
        match r {
            Some(k) => first_match_in(v@, pat@, from as int, hi as int) == Some(k as int),
            None => first_match_in(v@, pat@, from as int, hi as int) is None,
        },
{
    if pat.len() > hi {
        return None;
    }
    let last = hi - pat.len();
    let mut i: usize = from;
    while i <= last
        invariant
            hi <= v@.len(),
            pat@.len() <= hi,
            last == hi - pat@.len(),
            first_match_in(v@, pat@, from as int, hi as int) == first_match_in(
                v@,
                pat@,
                i as int,
                hi as int,
            ),
        decreases last + 1 - i,
    {
        if matches_pat_at(v, pat, i) {
            return Some(i);
        }
        proof {
            lemma_first_match_in_step(v@, pat@, i as int, hi as int);
        }
        i += 1;
    }
    None
}

/// Whether `pat` occurs anywhere in `v`.
pub fn contains_chars(v: &Vec<char>, pat: &Vec<char>) -> (b: bool)
    ensures
        b == contains_seq(v@, pat@),
{
    find_in(v, pat, 0, v.len()).is_some()
}

/// Whether `v` starts with `pat`.
pub fn starts_with_chars(v: &Vec<char>, pat: &Vec<char>) -> (b: bool)
    ensures
        b == starts_with(v@, pat@),
{
    if pat.len() > v.len() {
        false
    } else {
        matches_pat_at(v, pat, 0)
    }
}

/// Whether `v` ends with `pat`.
pub fn ends_with_chars(v: &Vec<char>, pat: &Vec<char>) -> (b: bool)
    ensures
        b == ends_with(v@, pat@),
{
    if pat.len() > v.len() {
        false
    } else {
        matches_pat_at(v, pat, v.len() - pat.len())
    }
}

/// ASCII lowercasing of a single character.
pub fn lower_char_exec(c: char) -> (r: char)
    ensures
        r == lower_char(c),
{
    if 'A' <= c && c <= 'Z' {
        (((c as u32) + 32) as u8) as char
    } else {
        c
    }
}

/// ASCII lowercasing of a whole vector of characters.
pub fn lower_chars(v: &Vec<char>) -> (r: Vec<char>)
    ensures
        r@ == lower_seq(v@),
{
    let mut r: Vec<char> = Vec::new();
    let mut i: usize = 0;
    while i < v.len()
        invariant
            i <= v@.len(),
            r@.len() == i,
            forall|j: int| 0 <= j < i ==> r@[j] == lower_char(v@[j]),
        decreases v@.len() - i,
    {
        r.push(lower_char_exec(v[i]));
        i += 1;
    }
    proof {
        assert(r@ =~= lower_seq(v@));
    }
    r
}

/// Copies the first `n` characters of `v` into a new vector.
pub fn take_prefix(v: &Vec<char>, n: usize) -> (r: Vec<char>)
    requires
        n <= v@.len(),
    ensures
        r@ == v@.take(n as int),
{
    let mut r: Vec<char> = Vec::new();
    let mut i: usize = 0;
    while i < n
        invariant
            n <= v@.len(),
            i <= n,
            r@.len() == i,
            forall|j: int| 0 <= j < i ==> r@[j] == v@[j],
        decreases n - i,
    {
        r.push(v[i]);
        i += 1;
    }
    proof {
        assert(r@ =~= v@.take(n as int));
    }
    r
}

/// Whether `pat` occurs in `v` starting exactly at `i`, with the bounds check
/// folded in.
pub fn match_lit_at(v: &Vec<char>, pat: &Vec<char>, i: usize) -> (b: bool)
    ensures
        b == match_at(v@, pat@, i as int),
{
    if pat.len() > v.len() || i > v.len() - pat.len() {
        false
    } else {
        matches_pat_at(v, pat, i)
    }
}

/// Copies the characters of `v` in `[a, b)` into a new vector.
pub fn copy_range(v: &Vec<char>, a: usize, b: usize) -> (r: Vec<char>)
    requires
        a <= b <= v@.len(),
    ensures
        r@ == v@.subrange(a as int, b as int),
{
    let mut r: Vec<char> = Vec::new();
    let mut i: usize = a;
    while i < b
        invariant
            a <= i <= b <= v@.len(),
            r@.len() == i - a,
            forall|j: int| 0 <= j < i - a ==> r@[j] == v@[a + j],
        decreases b - i,
    {
        r.push(v[i]);
        i += 1;
    }
    proof {
        assert(r@ =~= v@.subrange(a as int, b as int));
    }
    r
}

/// Whether the characters of `v` in `[a, b)` are exactly `pat`.
pub fn range_equals(v: &Vec<char>, a: usize, b: usize, pat: &Vec<char>) -> (r: bool)
    requires
        a <= b <= v@.len(),
    ensures
        r == (v@.subrange(a as int, b as int) == pat@),
{
    if b - a != pat.len() {
        return false;
    }
    let m = matches_pat_at(v, pat, a);
    proof {
        if m {
            assert(v@.subrange(a as int, b as int) =~= pat@);
        } else {
            if v@.subrange(a as int, b as int) == pat@ {
                assert(forall|j: int|
                    0 <= j < pat@.len() ==> v@.subrange(a as int, b as int)[j] == pat@[j]);
                assert(match_at(v@, pat@, a as int));
            }
        }
    }
    m
}

/// The ranges of the pieces of `v`, split at every `sep`.
pub fn split_ranges(v: &Vec<char>, sep: char) -> (rs: Vec<(usize, usize)>)
    ensures
        pieces_of(v@, rs@) == split_char(v@, sep, 0),
        forall|k: int| 0 <= k < rs@.len() ==> #[trigger] rs@[k].0 <= rs@[k].1 <= v@.len(),
{
    let n = v.len();
    let sep_pat = vec![sep];
    proof {
        assert(sep_pat@ =~= seq![sep]);
    }
    let mut rs: Vec<(usize, usize)> = Vec::new();
    let mut cur: usize = 0;
    loop
        invariant
            n == v@.len(),
            cur <= n,
            sep_pat@ == seq![sep],
            forall|k: int| 0 <= k < rs@.len() ==> #[trigger] rs@[k].0 <= rs@[k].1 <= v@.len(),
            split_char(v@, sep, 0) =~= pieces_of(v@, rs@) + split_char(v@, sep, cur as int),
        decreases n - cur,
    {
        let found = find_in(v, &sep_pat, cur, n);
        match found {
            None => {
                rs.push((cur, n));
                proof {
                    assert(pieces_of(v@, rs@) =~= pieces_of(v@, rs@.drop_last()) + seq![
                        v@.subrange(cur as int, n as int),
                    ]);
                    assert(split_char(v@, sep, cur as int) =~= seq![
                        v@.subrange(cur as int, n as int),
                    ]);
                    assert(split_char(v@, sep, 0) =~= pieces_of(v@, rs@));
                }
                return rs;
            },
            Some(i) => {
                proof {
                    // the leftmost separator lies in the searched window
                    assert(first_match_in(v@, seq![sep], cur as int, n as int) == Some(i as int));
                    lemma_first_match_in_located(v@, seq![sep], cur as int, n as int);
                }
                rs.push((cur, i));
                proof {
                    assert(pieces_of(v@, rs@) =~= pieces_of(v@, rs@.drop_last()) + seq![
                        v@.subrange(cur as int, i as int),
                    ]);
                }
                cur = i + 1;
            },
        }
    }
}

/// A found leftmost match lies inside the searched window.
pub proof fn lemma_first_match_in_located(s: Seq<char>, pat: Seq<char>, from: int, hi: int)
    requires
        first_match_in(s, pat, from, hi) is Some,
    ensures
        from <= first_match_in(s, pat, from, hi)->Some_0,
        first_match_in(s, pat, from, hi)->Some_0 + pat.len() <= hi <= s.len(),
        match_at(s, pat, first_match_in(s, pat, from, hi)->Some_0),
    decreases hi - from,
{
    if from < 0 || hi > s.len() || from + pat.len() > hi {
    } else if match_at(s, pat, from) {
    } else {
        lemma_first_match_in_located(s, pat, from + 1, hi);
    }
}

/// Length of `v` once every trailing `'/'` has been removed.
pub fn trim_end_len(v: &Vec<char>) -> (n: usize)
    ensures
        n == trimmed_len(v@),
        n <= v@.len(),
{
    let mut n = v.len();
    proof {
        assert(v@.take(n as int) =~= v@);
    }
    while n > 0 && v[n - 1] == '/'
        invariant
            n <= v@.len(),
            trimmed_len(v@) == trimmed_len(v@.take(n as int)),
        decreases n,
    {
        proof {
            assert(v@.take(n as int).drop_last() =~= v@.take(n as int - 1));
        }
        n -= 1;
    }
    proof {
        lemma_trimmed_len_bounds(v@);
    }
    n
}

/// End of the window `[lo, hi)` of `v` once every trailing `'/'` has been
/// removed from it.
pub fn trim_end_range(v: &Vec<char>, lo: usize, hi: usize) -> (e: usize)
    requires
        lo <= hi <= v@.len(),
    ensures
        e == lo + trimmed_len(v@.subrange(lo as int, hi as int)),
        lo <= e <= hi,
{
    let mut n = hi;
    proof {
        assert(v@.subrange(lo as int, hi as int).take(n - lo) =~= v@.subrange(
            lo as int,
            n as int,
        ));
    }
    while n > lo && v[n - 1] == '/'
        invariant
            lo <= n <= hi <= v@.len(),
            trimmed_len(v@.subrange(lo as int, hi as int)) == trimmed_len(
                v@.subrange(lo as int, n as int),
            ),
        decreases n,
    {
        proof {
            assert(v@.subrange(lo as int, n as int).drop_last() =~= v@.subrange(
                lo as int,
                n as int - 1,
            ));
        }
        n -= 1;
    }
    proof {
        lemma_trimmed_len_bounds(v@.subrange(lo as int, hi as int));
        assert(trimmed_len(v@.subrange(lo as int, n as int)) == n - lo);
    }
    n
}

} // verus!
