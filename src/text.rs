//! Text helpers: the definition scrubber, joining text pieces, and trimming.
use vstd::prelude::*;
use itertools::Itertools;

verus! {

/// The nesting depth after reading the first `n` characters of `s`:
/// the number of `(` read minus the number of `)` read.
pub open spec fn depth(s: Seq<char>, n: int) -> int
    decreases n,
{
    if n <= 0 {
        0
    } else {
        depth(s, n - 1) + if s[n - 1] == '(' {
            1int
        } else if s[n - 1] == ')' {
            -1int
        } else {
            0int
        }
    }
}

/// Whether a `(` occurs among the first `n` characters of `s`.
pub open spec fn opened(s: Seq<char>, n: int) -> bool
    decreases n,
{
    if n <= 0 {
        false
    } else {
        s[n - 1] == '(' || opened(s, n - 1)
    }
}

/// The scan stops at character `i` when at least two characters have been read
/// (`i >= 1`), a level has been opened, and the depth is back to zero.
pub open spec fn stops_at(s: Seq<char>, i: int) -> bool {
    1 <= i < s.len() && depth(s, i + 1) == 0 && opened(s, i + 1)
}

/// The first position at or after `i` where the scan stops, or the length of `s`.
pub open spec fn scan_end_from(s: Seq<char>, i: int) -> int
    decreases s.len() - i,
{
    if i >= s.len() {
        s.len() as int
    } else if stops_at(s, i) {
        i
    } else {
        scan_end_from(s, i + 1)
    }
}

/// What the scrubber keeps of an (already trimmed) text: the characters read before
/// the one that stops the scan, without the first one.
pub open spec fn scrub_chars(s: Seq<char>) -> Seq<char> {
    if s.len() == 0 {
        Seq::empty()
    } else {
        s.subrange(1, scan_end_from(s, 1))
    }
}

/// The parts in order, with `sep` between each two.
pub open spec fn joined(parts: Seq<Seq<char>>, sep: Seq<char>) -> Seq<char>
    decreases parts.len(),
{
    if parts.len() == 0 {
        Seq::empty()
    } else if parts.len() == 1 {
        parts[0]
    } else {
        joined(parts.drop_last(), sep) + sep + parts.last()
    }
}

/// The views of a sequence of strings.
pub open spec fn texts_view(v: Seq<String>) -> Seq<Seq<char>> {
    v.map_values(|t: String| t@)
}

/// The text with surrounding whitespace removed, as `str::trim` gives it.
pub uninterp spec fn trimmed(s: Seq<char>) -> Seq<char>;

/// Relies on `str::trim`: its result depends on the characters of `s` alone.
#[verifier::external_body]
pub(crate) fn trim_text(s: &str) -> (r: String)
    ensures
        r@ == trimmed(s@),
{
    s.trim().to_string()
}

/// Relies on `itertools::Itertools::join` over the parts: each part written as it is,
/// in order, with `sep` between each two, and the empty string for no parts.
#[verifier::external_body]
pub(crate) fn join_parts(parts: &Vec<String>, sep: &str) -> (r: String)
    ensures
        r@ == joined(texts_view(parts@), sep@),
{
    parts.iter().join(sep)
}

proof fn lemma_scan_end_bounds(s: Seq<char>, i: int)
    requires
        0 <= i <= s.len(),
    ensures
        i <= scan_end_from(s, i) <= s.len(),
    decreases s.len() - i,
{
    if i < s.len() && !stops_at(s, i) {
        lemma_scan_end_bounds(s, i + 1);
    }
}

/// Scrubs a definition text whose surrounding whitespace is already removed: the scan
/// counts nesting depth over `(` and `)` and stops at the first character, from the
/// second one on, after which a level has been opened and the depth is zero again. The
/// characters read before that one are kept, without the first (the leading delimiter).
/// With no such character the scan runs to the end of the text.
pub fn scrub_trimmed(t: &str) -> (r: String)
    ensures
        r@ == scrub_chars(t@),
{
    let n = t.unicode_len();
    if n == 0 {
        return String::new();
    }
    let mut opens: usize = 0;
    let mut closes: usize = 0;
    let mut seen_open = false;
    let first = t.get_char(0);
    if first == '(' {
        opens = 1;
        seen_open = true;
    } else if first == ')' {
        closes = 1;
    }
    let mut i: usize = 1;
    assert(depth(t@, 1) == depth(t@, 0) + if t@[0] == '(' { 1int } else if t@[0] == ')' { -1int } else { 0int });
    assert(opened(t@, 1) == (t@[0] == '(' || opened(t@, 0)));
    while i < n
        invariant_except_break
            opens <= i,
            closes <= i,
            opens - closes == depth(t@, i as int),
            seen_open == opened(t@, i as int),
        invariant
            1 <= i <= n,
            n == t@.len(),
            scan_end_from(t@, 1) == scan_end_from(t@, i as int),
        ensures
            1 <= i <= n,
            scan_end_from(t@, 1) == i,
        decreases n - i,
    {
        let c = t.get_char(i);
        if c == '(' {
            opens = opens + 1;
            seen_open = true;
        } else if c == ')' {
            closes = closes + 1;
        }
        if opens == closes && seen_open {
            assert(stops_at(t@, i as int));
            break;
        }
        i = i + 1;
    }
    proof {
        lemma_scan_end_bounds(t@, i as int);
    }
    String::from_str(t.substring_char(1, i))
}

/// Scrubs a raw definition text: surrounding whitespace is removed, then the text is
/// cut as `scrub_trimmed` describes.
pub fn scrub(raw: &str) -> (r: String)
    ensures
        r@ == scrub_chars(trimmed(raw@)),
{
    let t = trim_text(raw);
    scrub_trimmed(t.as_str())
}

} // verus!
