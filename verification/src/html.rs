//! Shared HTML signal extractors: pattern-based scans that locate a single
//! string value — a feed URL, a channel identifier, a meta-tag content —
//! inside a fetched page body. The scans work on raw text, by design: no DOM
//! tree is built, and each extractor's tie-break order (first line, leftmost
//! tag, first matching alternative) is part of its specification.

use vstd::prelude::*;
use vstd::string::StrSliceExecFns;
use crate::text::{
    match_at, first_match_in, to_chars, find_in, match_lit_at,
    lemma_first_match_in_located, lemma_first_match_in_step,
};

verus! {

/// The capture produced by scanning one line `[lo, hi)` for a meta tag: the
/// line must hold `needle`, then `content="` at or after it, and the capture
/// runs from past that marker to the next `'"'` on the same line.
pub open spec fn meta_capture_in_line(
    s: Seq<char>,
    needle: Seq<char>,
    lo: int,
    hi: int,
) -> Option<(int, int)> {
    match first_match_in(s, needle, lo, hi) {
        None => None,
        Some(idx) => match first_match_in(s, "content=\""@, idx, hi) {
            None => None,
            Some(c) => {
                let start = c + "content=\""@.len();
                match first_match_in(s, "\""@, start, hi) {
                    None => None,
                    Some(e) => Some((start, e)),
                }
            },
        },
    }
}

/// Scans the body line by line (lines split at `'\n'`, with a `'\r'` before
/// the split stripped) and yields the first line's meta capture.
pub open spec fn meta_capture_from(s: Seq<char>, needle: Seq<char>, from: int) -> Option<(int, int)>
    decreases s.len() - from,
{
    if from < 0 || from >= s.len() {
        None
    } else {
        let nl = first_match_in(s, "\n"@, from, s.len() as int);
        let hi = match nl {
            Some(j) => if j > from && s[j - 1] == '\r' {
                j - 1
            } else {
                j
            },
            None => s.len() as int,
        };
        match meta_capture_in_line(s, needle, from, hi) {
            Some(r) => Some(r),
            None => {
                let next = match nl {
                    Some(j) => j + 1,
                    None => s.len() as int,
                };
                if from < next && next <= s.len() {
                    meta_capture_from(s, needle, next)
                } else {
                    None
                }
            },
        }
    }
}

/// The value of the first meta tag whose line holds `needle`.
pub open spec fn spec_extract_meta_content(s: Seq<char>, needle: Seq<char>) -> Option<Seq<char>> {
    match meta_capture_from(s, needle, 0) {
        Some((a, b)) => Some(s.subrange(a, b)),
        None => None,
    }
}

/// Extracts the quoted `content` value of the first line holding `needle`
/// (for example a meta-tag attribute marker).
pub fn extract_meta_content(body: &str, needle: &str) -> (r: Option<String>)
    ensures
        r.deep_view() == spec_extract_meta_content(body@, needle@),
{
    let v = to_chars(body);
    let nv = to_chars(needle);
    let nl_pat = to_chars("\n");
    let cm_pat = to_chars("content=\"");
    let q_pat = to_chars("\"");
    let n = v.len();
    proof {
        reveal_strlit("\n");
        reveal_strlit("content=\"");
        reveal_strlit("\"");
    }
    let mut from: usize = 0;
    while from < n
        invariant
            n == v@.len(),
            v@ == body@,
            nv@ == needle@,
            nl_pat@ == "\n"@,
            cm_pat@ == "content=\""@,
            q_pat@ == "\""@,
            "content=\""@.len() == 9,
            "\n"@.len() == 1,
            "\""@.len() == 1,
            from <= n,
            meta_capture_from(body@, needle@, 0) == meta_capture_from(body@, needle@, from as int),
        decreases n - from,
    {
        let nl = find_in(&v, &nl_pat, from, n);
        let (hi, next): (usize, usize) = match nl {
            Some(j) => {
                proof {
                    lemma_first_match_in_located(v@, "\n"@, from as int, n as int);
                }
                if j > from && v[j - 1] == '\r' {
                    (j - 1, j + 1)
                } else {
                    (j, j + 1)
                }
            },
            None => (n, n),
        };
        let cap: Option<(usize, usize)> = match find_in(&v, &nv, from, hi) {
            None => None,
            Some(idx) => match find_in(&v, &cm_pat, idx, hi) {
                None => None,
                Some(c) => {
                    proof {
                        lemma_first_match_in_located(v@, "content=\""@, idx as int, hi as int);
                    }
                    let start = c + 9;
                    match find_in(&v, &q_pat, start, hi) {
                        None => None,
                        Some(e) => Some((start, e)),
                    }
                },
            },
        };
        match cap {
            Some((a, b)) => {
                proof {
                    assert(meta_capture_in_line(v@, nv@, from as int, hi as int) == Some(
                        (a as int, b as int),
                    ));
                    assert(meta_capture_from(body@, needle@, from as int) == Some(
                        (a as int, b as int),
                    ));
                    lemma_first_match_in_located(v@, "\""@, a as int, hi as int);
                }
                return Some(String::from_str(body.substring_char(a, b)));
            },
            None => {
                proof {
                    assert(meta_capture_in_line(v@, nv@, from as int, hi as int) is None);
                    assert(meta_capture_from(body@, needle@, from as int) == meta_capture_from(
                        body@,
                        needle@,
                        next as int,
                    ));
                }
                from = next;
            },
        }
    }
    None
}

/// A quote character, either kind accepted by the tag grammar.
pub open spec fn is_quote(c: char) -> bool {
    c == '"' || c == '\''
}

/// Index of the first quote character at or after `from`.
pub open spec fn first_quote_in(s: Seq<char>, from: int) -> Option<int>
    decreases s.len() - from,
{
    if from < 0 || from >= s.len() {
        None
    } else if is_quote(s[from]) {
        Some(from)
    } else {
        first_quote_in(s, from + 1)
    }
}

/// Finds the first quote character at or after `from`.
pub fn find_quote_in(v: &Vec<char>, from: usize) -> (r: Option<usize>)
    ensures
        match r {
            Some(k) => first_quote_in(v@, from as int) == Some(k as int) && from <= k < v@.len(),
            None => first_quote_in(v@, from as int) is None,
        },
{
    let n = v.len();
    let mut i = from;
    while i < n
        invariant
            n == v@.len(),
            from <= i,
            first_quote_in(v@, from as int) == first_quote_in(v@, i as int),
        decreases n - i,
    {
        let c = v[i];
        if c == '"' || c == '\'' {
            return Some(i);
        }
        i += 1;
    }
    None
}

/// The leftmost of two marker occurrences inside `[from, hi)`.
pub open spec fn first_either(
    s: Seq<char>,
    p1: Seq<char>,
    p2: Seq<char>,
    from: int,
    hi: int,
) -> Option<int> {
    match (first_match_in(s, p1, from, hi), first_match_in(s, p2, from, hi)) {
        (Some(i), Some(j)) => if i <= j {
            Some(i)
        } else {
            Some(j)
        },
        (Some(i), None) => Some(i),
        (None, Some(j)) => Some(j),
        (None, None) => None,
    }
}

/// Finds the leftmost occurrence of either marker inside `[from, hi)`.
pub fn find_either(v: &Vec<char>, p1: &Vec<char>, p2: &Vec<char>, from: usize, hi: usize) -> (r:
    Option<usize>)
    requires
        hi <= v@.len(),
    ensures
        match r {
            Some(k) => first_either(v@, p1@, p2@, from as int, hi as int) == Some(k as int)
                && from <= k && (k + p1@.len() <= hi || k + p2@.len() <= hi),
            None => first_either(v@, p1@, p2@, from as int, hi as int) is None,
        },
{
    let r1 = find_in(v, p1, from, hi);
    let r2 = find_in(v, p2, from, hi);
    proof {
        if r1 is Some {
            lemma_first_match_in_located(v@, p1@, from as int, hi as int);
        }
        if r2 is Some {
            lemma_first_match_in_located(v@, p2@, from as int, hi as int);
        }
    }
    match (r1, r2) {
        (Some(i), Some(j)) => if i <= j {
            Some(i)
        } else {
            Some(j)
        },
        (Some(i), None) => Some(i),
        (None, Some(j)) => Some(j),
        (None, None) => None,
    }
}

/// End of a tag's attribute region: the first `'>'` at or after `p`, or the
/// end of the body when there is none.
pub open spec fn tag_window_end(s: Seq<char>, p: int) -> int {
    match first_match_in(s, ">"@, p, s.len() as int) {
        Some(j) => j,
        None => s.len() as int,
    }
}

/// Finds the end of the attribute region that starts at `p`.
pub fn window_end_exec(v: &Vec<char>, gt: &Vec<char>, p: usize) -> (w: usize)
    requires
        p <= v@.len(),
        gt@ == ">"@,
    ensures
        w == tag_window_end(v@, p as int),
        p <= w <= v@.len(),
{
    let n = v.len();
    match find_in(v, gt, p, n) {
        Some(j) => {
            proof {
                lemma_first_match_in_located(v@, ">"@, p as int, n as int);
            }
            j
        },
        None => n,
    }
}

/// An `href` capture inside the window `[p, w)`: past the first `href=`
/// marker, the value runs to the next quote character and must be non-empty.
pub open spec fn href_capture_from(s: Seq<char>, p: int, w: int) -> Option<(int, int)> {
    match first_either(s, "href=\""@, "href='"@, p, w) {
        None => None,
        Some(c) => {
            let cap = c + "href=\""@.len();
            match first_quote_in(s, cap) {
                None => None,
                Some(e) => if e > cap {
                    Some((cap, e))
                } else {
                    None
                },
            }
        },
    }
}

/// The capture of a `<link ...>` tag starting at `i`: inside the region up to
/// the next `'>'` the tag must carry `rel=` `alternate` (when `with_rel` is
/// set), then a `type=` marker holding `ftype`, then an `href` value, in that
/// order and each preceded by at least one character.
pub open spec fn link_capture_at(s: Seq<char>, i: int, with_rel: bool, ftype: Seq<char>) -> Option<
    (int, int),
> {
    let a0 = i + 5;
    let w = tag_window_end(s, a0);
    let t_dq = "type=\""@ + ftype + "\""@;
    let t_sq = "type='"@ + ftype + "'"@;
    let rel = if with_rel {
        match first_either(s, "rel=\"alternate\""@, "rel='alternate'"@, a0 + 1, w) {
            Some(a) => Some(a + "rel=\"alternate\""@.len()),
            None => None,
        }
    } else {
        Some(a0)
    };
    match rel {
        None => None,
        Some(p) => match first_either(s, t_dq, t_sq, p + 1, w) {
            None => None,
            Some(b) => href_capture_from(s, b + t_dq.len() + 1, w),
        },
    }
}

/// The capture of the leftmost `<link` tag at or after `from` whose
/// attributes satisfy [`link_capture_at`].
pub open spec fn find_link_capture(
    s: Seq<char>,
    from: int,
    with_rel: bool,
    ftype: Seq<char>,
) -> Option<(int, int)>
    decreases s.len() - from,
{
    match first_match_in(s, "<link"@, from, s.len() as int) {
        None => None,
        Some(i) => match link_capture_at(s, i, with_rel, ftype) {
            Some(r) => Some(r),
            None => if from <= i && i + 1 <= s.len() {
                find_link_capture(s, i + 1, with_rel, ftype)
            } else {
                None
            },
        },
    }
}

/// The marker strings a link-tag scan compares against, prepared once.
struct LinkMarkers {
    rel_dq: Vec<char>,
    rel_sq: Vec<char>,
    t_dq: Vec<char>,
    t_sq: Vec<char>,
    h_dq: Vec<char>,
    h_sq: Vec<char>,
    gt: Vec<char>,
    link: Vec<char>,
}

impl LinkMarkers {
    spec fn wf_for(&self, ftype: Seq<char>) -> bool {
        &&& self.rel_dq@ == "rel=\"alternate\""@
        &&& self.rel_sq@ == "rel='alternate'"@
        &&& self.t_dq@ == "type=\""@ + ftype + "\""@
        &&& self.t_sq@ == "type='"@ + ftype + "'"@
        &&& self.h_dq@ == "href=\""@
        &&& self.h_sq@ == "href='"@
        &&& self.gt@ == ">"@
        &&& self.link@ == "<link"@
    }

    fn make(feed_type: &str) -> (m: LinkMarkers)
        ensures
            m.wf_for(feed_type@),
    {
        let d = String::from_str("type=\"").concat(feed_type).concat("\"");
        let s = String::from_str("type='").concat(feed_type).concat("'");
        LinkMarkers {
            rel_dq: to_chars("rel=\"alternate\""),
            rel_sq: to_chars("rel='alternate'"),
            t_dq: to_chars(d.as_str()),
            t_sq: to_chars(s.as_str()),
            h_dq: to_chars("href=\""),
            h_sq: to_chars("href='"),
            gt: to_chars(">"),
            link: to_chars("<link"),
        }
    }
}

/// Scans the attributes of one `<link` tag at `i` for the wanted capture.
fn link_capture_exec(
    v: &Vec<char>,
    i: usize,
    with_rel: bool,
    m: &LinkMarkers,
    Ghost(ftype): Ghost<Seq<char>>,
) -> (r: Option<(usize, usize)>)
    requires
        i + 5 <= v@.len(),
        m.wf_for(ftype),
    ensures
        match r {
            Some((a, b)) => link_capture_at(v@, i as int, with_rel, ftype) == Some(
                (a as int, b as int),
            ) && a <= b <= v@.len(),
            None => link_capture_at(v@, i as int, with_rel, ftype) is None,
        },
{
    proof {
        reveal_strlit("rel=\"alternate\"");
        reveal_strlit("rel='alternate'");
        reveal_strlit("type=\"");
        reveal_strlit("type='");
        reveal_strlit("\"");
        reveal_strlit("'");
        reveal_strlit("href=\"");
        reveal_strlit("href='");
    }
    let n = v.len();
    let a0 = i + 5;
    let w = window_end_exec(v, &m.gt, a0);
    let p: usize = if with_rel {
        if a0 >= w {
            return None;
        }
        match find_either(v, &m.rel_dq, &m.rel_sq, a0 + 1, w) {
            None => {
                return None;
            },
            Some(a) => a + 15,
        }
    } else {
        a0
    };
    if p >= w {
        return None;
    }
    let b = match find_either(v, &m.t_dq, &m.t_sq, p + 1, w) {
        None => {
            return None;
        },
        Some(b) => b,
    };
    let q = b + m.t_dq.len();
    if q >= w {
        return None;
    }
    let c = match find_either(v, &m.h_dq, &m.h_sq, q + 1, w) {
        None => {
            return None;
        },
        Some(c) => c,
    };
    let cap = c + 6;
    match find_quote_in(v, cap) {
        None => None,
        Some(e) => if e > cap {
            Some((cap, e))
        } else {
            None
        },
    }
}

/// Finds the leftmost matching `<link` tag capture in the whole body.
fn scan_link_capture(v: &Vec<char>, with_rel: bool, m: &LinkMarkers, Ghost(ftype): Ghost<
    Seq<char>,
>) -> (r: Option<(usize, usize)>)
    requires
        m.wf_for(ftype),
    ensures
        match r {
            Some((a, b)) => find_link_capture(v@, 0, with_rel, ftype) == Some((a as int, b as int))
                && a <= b <= v@.len(),
            None => find_link_capture(v@, 0, with_rel, ftype) is None,
        },
{
    proof {
        reveal_strlit("<link");
    }
    let n = v.len();
    let mut from: usize = 0;
    loop
        invariant
            n == v@.len(),
            m.wf_for(ftype),
            "<link"@.len() == 5,
            find_link_capture(v@, 0, with_rel, ftype) == find_link_capture(
                v@,
                from as int,
                with_rel,
                ftype,
            ),
        decreases n - from,
    {
        match find_in(v, &m.link, from, n) {
            None => {
                return None;
            },
            Some(i) => {
                proof {
                    lemma_first_match_in_located(v@, "<link"@, from as int, n as int);
                }
                match link_capture_exec(v, i, with_rel, m, Ghost(ftype)) {
                    Some((a, b)) => {
                        return Some((a, b));
                    },
                    None => {
                        from = i + 1;
                    },
                }
            },
        }
    }
}

/// The `href` of the first alternate-link tag of the given MIME type: the
/// tag must carry `rel=` `alternate`, a matching `type=`, and an `href`.
pub open spec fn spec_extract_feed_link(s: Seq<char>, ftype: Seq<char>) -> Option<Seq<char>> {
    match find_link_capture(s, 0, true, ftype) {
        Some((a, b)) => Some(s.subrange(a, b)),
        None => None,
    }
}

/// Extracts the `href` of the first `<link rel="alternate" type=...>` tag of
/// the given MIME type from an HTML body.
pub fn extract_feed_link(body: &str, feed_type: &str) -> (r: Option<String>)
    ensures
        r.deep_view() == spec_extract_feed_link(body@, feed_type@),
{
    let v = to_chars(body);
    let m = LinkMarkers::make(feed_type);
    match scan_link_capture(&v, true, &m, Ghost(feed_type@)) {
        Some((a, b)) => Some(String::from_str(body.substring_char(a, b))),
        None => None,
    }
}

/// The `href` of the first feed-typed link tag, with no `rel=` requirement.
pub open spec fn spec_extract_youtube_rss_link(s: Seq<char>) -> Option<Seq<char>> {
    match find_link_capture(s, 0, false, "application/rss+xml"@) {
        Some((a, b)) => Some(s.subrange(a, b)),
        None => None,
    }
}

/// Extracts the `href` of the first `<link type="application/rss+xml">` tag
/// from a video-platform page body.
pub fn extract_youtube_rss_link(body: &str) -> (r: Option<String>)
    ensures
        r.deep_view() == spec_extract_youtube_rss_link(body@),
{
    let v = to_chars(body);
    let m = LinkMarkers::make("application/rss+xml");
    match scan_link_capture(&v, false, &m, Ghost("application/rss+xml"@)) {
        Some((a, b)) => Some(String::from_str(body.substring_char(a, b))),
        None => None,
    }
}

/// ASCII whitespace accepted between the tokens of the identifier patterns.
pub open spec fn is_space(c: char) -> bool {
    c == ' ' || c == '\t' || c == '\n' || c == '\r' || c == '\x0b' || c == '\x0c'
}

/// Index of the first non-whitespace character at or after `from`.
pub open spec fn skip_ws(s: Seq<char>, from: int) -> int
    decreases s.len() - from,
{
    if 0 <= from && from < s.len() && is_space(s[from]) {
        skip_ws(s, from + 1)
    } else {
        from
    }
}

/// A character an identifier may consist of.
pub open spec fn is_id_char(c: char) -> bool {
    ('A' <= c && c <= 'Z') || ('a' <= c && c <= 'z') || ('0' <= c && c <= '9') || c == '_' || c
        == '-'
}

/// Every character of `[a, b)` is an identifier character.
pub open spec fn id_span(s: Seq<char>, a: int, b: int) -> bool {
    forall|j: int| a <= j < b ==> is_id_char(s[j])
}

/// A 24-character identifier at `a`, closed by `'"'` directly after it.
pub open spec fn id24_at(s: Seq<char>, a: int) -> Option<(int, int)> {
    if 0 <= a && a + 24 < s.len() && id_span(s, a, a + 24) && s[a + 24] == '"' {
        Some((a, a + 24))
    } else {
        None
    }
}

/// First alternative: `channelId"` then `':'` between optional whitespace,
/// then a quoted 24-character identifier.
pub open spec fn channel_id_json_at(s: Seq<char>, i: int) -> Option<(int, int)> {
    if !match_at(s, "channelId\""@, i) {
        None
    } else {
        let k1 = skip_ws(s, i + "channelId\""@.len());
        if k1 < s.len() && s[k1] == ':' {
            let k2 = skip_ws(s, k1 + 1);
            if k2 < s.len() && s[k2] == '"' {
                id24_at(s, k2 + 1)
            } else {
                None
            }
        } else {
            None
        }
    }
}

/// Second alternative: an `itemprop` attribute marker followed directly by a
/// quoted identifier.
pub open spec fn channel_id_attr_at(s: Seq<char>, i: int) -> Option<(int, int)> {
    if match_at(s, "itemprop=\"channelId\" content=\""@, i) {
        id24_at(s, i + "itemprop=\"channelId\" content=\""@.len())
    } else {
        None
    }
}

/// Third alternative: the same attribute marker with a leading `<meta `.
pub open spec fn channel_id_meta_at(s: Seq<char>, i: int) -> Option<(int, int)> {
    if match_at(s, "<meta itemprop=\"channelId\" content=\""@, i) {
        id24_at(s, i + "<meta itemprop=\"channelId\" content=\""@.len())
    } else {
        None
    }
}

/// The three alternatives in their fixed tie-break order at one position.
pub open spec fn channel_id_at(s: Seq<char>, i: int) -> Option<(int, int)> {
    match channel_id_json_at(s, i) {
        Some(r) => Some(r),
        None => match channel_id_attr_at(s, i) {
            Some(r) => Some(r),
            None => channel_id_meta_at(s, i),
        },
    }
}

/// The capture at the leftmost position where any alternative matches.
pub open spec fn find_channel_id(s: Seq<char>, from: int) -> Option<(int, int)>
    decreases s.len() - from,
{
    if from < 0 || from >= s.len() {
        None
    } else {
        match channel_id_at(s, from) {
            Some(r) => Some(r),
            None => find_channel_id(s, from + 1),
        }
    }
}

/// The channel identifier found in a page body, if any.
pub open spec fn spec_extract_channel_id(s: Seq<char>) -> Option<Seq<char>> {
    match find_channel_id(s, 0) {
        Some((a, b)) => Some(s.subrange(a, b)),
        None => None,
    }
}

/// Whether `c` is ASCII whitespace.
fn is_space_exec(c: char) -> (b: bool)
    ensures
        b == is_space(c),
{
    c == ' ' || c == '\t' || c == '\n' || c == '\r' || c == '\x0b' || c == '\x0c'
}

/// Whether `c` may appear in an identifier.
fn is_id_char_exec(c: char) -> (b: bool)
    ensures
        b == is_id_char(c),
{
    ('A' <= c && c <= 'Z') || ('a' <= c && c <= 'z') || ('0' <= c && c <= '9') || c == '_' || c
        == '-'
}

/// Skips whitespace from `from` on.
fn skip_ws_exec(v: &Vec<char>, from: usize) -> (r: usize)
    requires
        from <= v@.len(),
    ensures
        r == skip_ws(v@, from as int),
        from <= r <= v@.len(),
{
    let n = v.len();
    let mut i = from;
    while i < n && is_space_exec(v[i])
        invariant
            n == v@.len(),
            from <= i <= n,
            skip_ws(v@, from as int) == skip_ws(v@, i as int),
        decreases n - i,
    {
        i += 1;
    }
    i
}

/// Recognizes a quoted 24-character identifier starting at `a`.
fn id24_exec(v: &Vec<char>, a: usize) -> (r: Option<(usize, usize)>)
    requires
        a <= v@.len(),
    ensures
        match r {
            Some((x, y)) => id24_at(v@, a as int) == Some((x as int, y as int)) && x <= y
                < v@.len(),
            None => id24_at(v@, a as int) is None,
        },
{
    let n = v.len();
    if n - a < 25 {
        return None;
    }
    let mut j = a;
    while j < a + 24
        invariant
            n == v@.len(),
            a + 24 < n,
            a <= j <= a + 24,
            forall|k: int| a <= k < j ==> is_id_char(v@[k]),
        decreases a + 24 - j,
    {
        if !is_id_char_exec(v[j]) {
            proof {
                let k = j as int;
                assert(!is_id_char(v@[k]));
            }
            return None;
        }
        j += 1;
    }
    if v[a + 24] == '"' {
        Some((a, a + 24))
    } else {
        None
    }
}

/// The prepared identifier-pattern markers.
struct IdMarkers {
    json: Vec<char>,
    attr: Vec<char>,
    meta: Vec<char>,
}

impl IdMarkers {
    spec fn wf(&self) -> bool {
        &&& self.json@ == "channelId\""@
        &&& self.attr@ == "itemprop=\"channelId\" content=\""@
        &&& self.meta@ == "<meta itemprop=\"channelId\" content=\""@
    }

    fn make() -> (m: IdMarkers)
        ensures
            m.wf(),
    {
        IdMarkers {
            json: to_chars("channelId\""),
            attr: to_chars("itemprop=\"channelId\" content=\""),
            meta: to_chars("<meta itemprop=\"channelId\" content=\""),
        }
    }
}

/// Tries the three identifier alternatives at one position.
fn channel_id_at_exec(v: &Vec<char>, i: usize, m: &IdMarkers) -> (r: Option<(usize, usize)>)
    requires
        m.wf(),
    ensures
        match r {
            Some((a, b)) => channel_id_at(v@, i as int) == Some((a as int, b as int)) && a <= b
                < v@.len(),
            None => channel_id_at(v@, i as int) is None,
        },
{
    proof {
        reveal_strlit("channelId\"");
        reveal_strlit("itemprop=\"channelId\" content=\"");
        reveal_strlit("<meta itemprop=\"channelId\" content=\"");
    }
    let n = v.len();
    let r1: Option<(usize, usize)> = if match_lit_at(v, &m.json, i) {
        let k1 = skip_ws_exec(v, i + 10);
        if k1 < v.len() && v[k1] == ':' {
            let k2 = skip_ws_exec(v, k1 + 1);
            if k2 < v.len() && v[k2] == '"' {
                id24_exec(v, k2 + 1)
            } else {
                None
            }
        } else {
            None
        }
    } else {
        None
    };
    if let Some(r) = r1 {
        return Some(r);
    }
    proof {
        assert(channel_id_json_at(v@, i as int) is None);
    }
    let r2: Option<(usize, usize)> = if match_lit_at(v, &m.attr, i) {
        id24_exec(v, i + 30)
    } else {
        None
    };
    if let Some(r) = r2 {
        return Some(r);
    }
    proof {
        assert(channel_id_attr_at(v@, i as int) is None);
    }
    if match_lit_at(v, &m.meta, i) {
        id24_exec(v, i + 36)
    } else {
        None
    }
}

/// Extracts a 24-character channel identifier adjacent to one of the known
/// marker patterns, taking the leftmost occurrence and, at equal positions,
/// the first alternative.
pub fn extract_channel_id(body: &str) -> (r: Option<String>)
    ensures
        r.deep_view() == spec_extract_channel_id(body@),
{
    let v = to_chars(body);
    let m = IdMarkers::make();
    let n = v.len();
    let mut from: usize = 0;
    while from < n
        invariant
            n == v@.len(),
            v@ == body@,
            m.wf(),
            from <= n,
            find_channel_id(v@, 0) == find_channel_id(v@, from as int),
        decreases n - from,
    {
        match channel_id_at_exec(&v, from, &m) {
            Some((a, b)) => {
                return Some(String::from_str(body.substring_char(a, b)));
            },
            None => {
                from += 1;
            },
        }
    }
    None
}

/// Index of the first quote or `'>'` at or after `from`: the characters that
/// end an anchor's `href` value.
pub open spec fn first_stop_in(s: Seq<char>, from: int) -> Option<int>
    decreases s.len() - from,
{
    if from < 0 || from >= s.len() {
        None
    } else if is_quote(s[from]) || s[from] == '>' {
        Some(from)
    } else {
        first_stop_in(s, from + 1)
    }
}

/// Finds the first quote or `'>'` at or after `from`.
fn find_stop_in(v: &Vec<char>, from: usize) -> (r: Option<usize>)
    ensures
        match r {
            Some(k) => first_stop_in(v@, from as int) == Some(k as int) && from <= k < v@.len(),
            None => first_stop_in(v@, from as int) is None,
        },
{
    let n = v.len();
    let mut i = from;
    while i < n
        invariant
            n == v@.len(),
            from <= i,
            first_stop_in(v@, from as int) == first_stop_in(v@, i as int),
        decreases n - i,
    {
        let c = v[i];
        if c == '"' || c == '\'' || c == '>' {
            return Some(i);
        }
        i += 1;
    }
    None
}

/// The opening tag kind at `i` for the general link scan, with its length:
/// `<a` is tried first, then `<link`.
pub open spec fn anchor_tag_len_at(s: Seq<char>, i: int) -> Option<int> {
    if match_at(s, "<a"@, i) {
        Some(2)
    } else if match_at(s, "<link"@, i) {
        Some(5)
    } else {
        None
    }
}

/// An anchor or link tag at `i` with an `href` value: the value runs from
/// past the `href=` marker to the next quote (a `'>'` there disqualifies the
/// tag), must be non-empty, and the tag must close with a later `'>'`, past
/// which the scan resumes.
pub open spec fn anchor_capture_at(s: Seq<char>, i: int) -> Option<(int, int, int)> {
    match anchor_tag_len_at(s, i) {
        None => None,
        Some(tl) => {
            let a0 = i + tl;
            let w = tag_window_end(s, a0);
            match first_either(s, "href=\""@, "href='"@, a0 + 1, w) {
                None => None,
                Some(c) => {
                    let cap = c + "href=\""@.len();
                    match first_stop_in(s, cap) {
                        None => None,
                        Some(e) => if e > cap && is_quote(s[e]) {
                            match first_match_in(s, ">"@, e + 1, s.len() as int) {
                                None => None,
                                Some(g) => Some((cap, e, g + 1)),
                            }
                        } else {
                            None
                        },
                    }
                },
            }
        },
    }
}

/// The leftmost anchor capture at or after `from`.
pub open spec fn next_anchor(s: Seq<char>, from: int) -> Option<(int, int, int)>
    decreases s.len() - from,
{
    if from < 0 || from >= s.len() {
        None
    } else {
        match anchor_capture_at(s, from) {
            Some(r) => Some(r),
            None => next_anchor(s, from + 1),
        }
    }
}

/// Every anchor `href` value of the body from `from` on, in document order,
/// each scan resuming past the previous tag's close.
pub open spec fn anchor_hrefs_from(s: Seq<char>, from: int) -> Seq<Seq<char>>
    decreases s.len() - from,
{
    if from < 0 || from >= s.len() {
        seq![]
    } else {
        match next_anchor(s, from) {
            None => seq![],
            Some((a, b, resume)) => if from < resume && resume <= s.len() {
                seq![s.subrange(a, b)] + anchor_hrefs_from(s, resume)
            } else {
                seq![s.subrange(a, b)]
            },
        }
    }
}

/// Every anchor `href` value of the body, in document order.
pub open spec fn spec_anchor_hrefs(s: Seq<char>) -> Seq<Seq<char>> {
    anchor_hrefs_from(s, 0)
}

/// The prepared markers of the general link scan.
struct AnchorMarkers {
    a: Vec<char>,
    link: Vec<char>,
    h_dq: Vec<char>,
    h_sq: Vec<char>,
    gt: Vec<char>,
}

impl AnchorMarkers {
    spec fn wf(&self) -> bool {
        &&& self.a@ == "<a"@
        &&& self.link@ == "<link"@
        &&& self.h_dq@ == "href=\""@
        &&& self.h_sq@ == "href='"@
        &&& self.gt@ == ">"@
    }

    fn make() -> (m: AnchorMarkers)
        ensures
            m.wf(),
    {
        AnchorMarkers {
            a: to_chars("<a"),
            link: to_chars("<link"),
            h_dq: to_chars("href=\""),
            h_sq: to_chars("href='"),
            gt: to_chars(">"),
        }
    }
}

/// Tries to read an anchor capture at one position.
fn anchor_capture_exec(v: &Vec<char>, i: usize, m: &AnchorMarkers) -> (r: Option<
    (usize, usize, usize),
>)
    requires
        m.wf(),
    ensures
        match r {
            Some((a, b, resume)) => anchor_capture_at(v@, i as int) == Some(
                (a as int, b as int, resume as int),
            ) && a <= b < v@.len() && i < resume <= v@.len(),
            None => anchor_capture_at(v@, i as int) is None,
        },
{
    proof {
        reveal_strlit("<a");
        reveal_strlit("<link");
        reveal_strlit("href=\"");
        reveal_strlit("href='");
        reveal_strlit(">");
    }
    let n = v.len();
    let tl: usize = if match_lit_at(v, &m.a, i) {
        2
    } else if match_lit_at(v, &m.link, i) {
        5
    } else {
        return None;
    };
    let a0 = i + tl;
    let w = window_end_exec(v, &m.gt, a0);
    if a0 >= w {
        return None;
    }
    let c = match find_either(v, &m.h_dq, &m.h_sq, a0 + 1, w) {
        None => {
            return None;
        },
        Some(c) => c,
    };
    let cap = c + 6;
    let e = match find_stop_in(v, cap) {
        None => {
            return None;
        },
        Some(e) => e,
    };
    if e > cap && (v[e] == '"' || v[e] == '\'') {
        match find_in(v, &m.gt, e + 1, n) {
            None => None,
            Some(g) => {
                proof {
                    lemma_first_match_in_located(v@, ">"@, e as int + 1, n as int);
                }
                Some((cap, e, g + 1))
            },
        }
    } else {
        None
    }
}

/// Finds the leftmost anchor capture at or after `from`.
fn next_anchor_exec(v: &Vec<char>, from: usize, m: &AnchorMarkers) -> (r: Option<
    (usize, usize, usize),
>)
    requires
        m.wf(),
    ensures
        match r {
            Some((a, b, resume)) => next_anchor(v@, from as int) == Some(
                (a as int, b as int, resume as int),
            ) && a <= b < v@.len() && from < resume <= v@.len(),
            None => next_anchor(v@, from as int) is None,
        },
{
    let n = v.len();
    let mut i = from;
    while i < n
        invariant
            n == v@.len(),
            m.wf(),
            from <= i,
            next_anchor(v@, from as int) == next_anchor(v@, i as int),
        decreases n - i,
    {
        match anchor_capture_exec(v, i, m) {
            Some((a, b, resume)) => {
                return Some((a, b, resume));
            },
            None => {
                i += 1;
            },
        }
    }
    None
}

/// Extracts the `href` value of every anchor or link tag of an HTML body, in
/// document order.
pub fn extract_anchor_hrefs(body: &str) -> (r: Vec<String>)
    ensures
        r.deep_view() == spec_anchor_hrefs(body@),
{
    let v = to_chars(body);
    let m = AnchorMarkers::make();
    let n = v.len();
    let mut out: Vec<String> = Vec::new();
    let mut from: usize = 0;
    while from < n
        invariant
            n == v@.len(),
            v@ == body@,
            m.wf(),
            from <= n,
            spec_anchor_hrefs(body@) == out.deep_view() + anchor_hrefs_from(v@, from as int),
        decreases n - from,
    {
        match next_anchor_exec(&v, from, &m) {
            Some((a, b, resume)) => {
                let ghost old_out = out.deep_view();
                out.push(String::from_str(body.substring_char(a, b)));
                proof {
                    assert(out.deep_view() =~= old_out + seq![v@.subrange(a as int, b as int)]);
                    assert(anchor_hrefs_from(v@, from as int) == seq![
                        v@.subrange(a as int, b as int),
                    ] + anchor_hrefs_from(v@, resume as int));
                    assert(out.deep_view() + anchor_hrefs_from(v@, resume as int) =~= old_out
                        + anchor_hrefs_from(v@, from as int));
                }
                from = resume;
            },
            None => {
                proof {
                    assert(anchor_hrefs_from(v@, from as int) =~= Seq::<Seq<char>>::empty());
                    assert(spec_anchor_hrefs(body@) =~= out.deep_view());
                }
                return out;
            },
        }
    }
    proof {
        assert(anchor_hrefs_from(v@, from as int) =~= Seq::<Seq<char>>::empty());
        assert(spec_anchor_hrefs(body@) =~= out.deep_view());
    }
    out
}

} // verus!
