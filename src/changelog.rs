//! Sections of a Keep-a-Changelog file (`## [version]` headers).

use vstd::prelude::*;
use vstd::string::*;
use vstd::utf8::{decode_utf8, encode_utf8, encode_utf8_decode_utf8, is_char_boundary};

use crate::text::{count_lines, line_count, trim, trim_end, trimmed, trimmed_end};

verus! {

/// Most lines shown of a changelog section.
pub const MAX_LINES: usize = 20;

/// The header pattern: `## [version]` or `## [vversion]` at the start of a line.
pub const HEADER_PATTERN: &'static str = r"(?m)^## \[v?([^\]]+)\]";

/// What `regex` finds for `pattern` in `text`: for each successive match, the
/// byte range of the whole match and the text of the first group, if it took
/// part; nothing for a pattern that does not compile.
pub uninterp spec fn capture_spans(pattern: Seq<char>, text: Seq<char>) -> Seq<
    (usize, usize, Option<Seq<char>>),
>;

pub open spec fn span_views(v: Seq<(usize, usize, Option<String>)>) -> Seq<
    (usize, usize, Option<Seq<char>>),
> {
    v.map_values(|x: (usize, usize, Option<String>)| (x.0, x.1, x.2.deep_view()))
}

/// Relies on `regex::Regex::new`, `Regex::captures_iter`,
/// `Captures::get_match` and `Captures::get`: the spans of the successive
/// matches and their first group; the result depends on the pattern and the
/// text alone.
#[verifier::external_body]
fn regex_captures(pattern: &str, text: &str) -> (r: Vec<(usize, usize, Option<String>)>)
    ensures
        span_views(r@) == capture_spans(pattern@, text@),
{
    match regex::Regex::new(pattern) {
        Ok(re) => re
            .captures_iter(text)
            .map(|c| (c.get_match().start(), c.get_match().end(), c.get(1).map(|g| g.as_str().to_string())))
            .collect(),
        Err(_) => Vec::new(),
    }
}

fn version_matches(v: &Option<String>, nv: &str) -> (r: bool)
    ensures
        r == (v.deep_view() matches Some(x) && strip_v(x) == nv@),
{
    match v {
        Some(x) => crate::text::str_eq(without_v(x.as_str()), nv),
        None => false,
    }
}

/// A version without one leading `v`.
pub open spec fn strip_v(s: Seq<char>) -> Seq<char> {
    if s.len() > 0 && s[0] == 'v' {
        s.drop_first()
    } else {
        s
    }
}

fn without_v(s: &str) -> (r: &str)
    ensures
        r@ == strip_v(s@),
{
    let n = s.unicode_len();
    if n > 0 && s.get_char(0) == 'v' {
        s.substring_char(1, n)
    } else {
        s
    }
}

/// Index of the first header at or after `i` whose version is `nv`, or the count.
pub open spec fn header_index(m: Seq<(usize, usize, Option<Seq<char>>)>, nv: Seq<char>, i: int) -> int
    decreases m.len() - i,
{
    if i < 0 || i >= m.len() {
        m.len() as int
    } else if m[i].2 matches Some(v) && strip_v(v) == nv {
        i
    } else {
        header_index(m, nv, i + 1)
    }
}

/// Byte position after the first newline at or after `e`, or `e` without one.
pub open spec fn after_newline(b: Seq<u8>, e: int) -> int
    decreases b.len() - e,
{
    if e < 0 || e >= b.len() {
        e
    } else if b[e] == 10 {
        e + 1
    } else {
        after_newline(b, e + 1)
    }
}

/// The section for `version`: from the line after its header to the next
/// header (or the end), trimmed; `None` when absent or empty.
pub open spec fn section_spec(content: Seq<char>, version: Seq<char>) -> Option<Seq<char>> {
    let m = capture_spans(HEADER_PATTERN@, content);
    let b = encode_utf8(content);
    let i = header_index(m, strip_v(version), 0);
    if i >= m.len() {
        None
    } else {
        let start = after_newline(b, m[i].1 as int);
        let end: int = if i + 1 < m.len() {
            m[i + 1].0 as int
        } else {
            b.len() as int
        };
        if !(start <= end <= b.len() && is_char_boundary(b, start) && is_char_boundary(
            b.subrange(start, b.len() as int),
            end - start,
        )) {
            None
        } else {
            let t = trimmed(decode_utf8(b.subrange(start, end)));
            if t.len() == 0 {
                None
            } else {
                Some(t)
            }
        }
    }
}

/// Extracts the section of `version` (a leading `v` ignored on both sides).
pub fn extract_version_section(content: &str, version: &str) -> (r: Option<String>)
    ensures
        r.deep_view() == section_spec(content@, version@),
{
    broadcast use encode_utf8_decode_utf8;

    let m = regex_captures(HEADER_PATTERN, content);
    let ghost mv = span_views(m@);
    let nv = without_v(version);
    let mut i: usize = 0;
    while i < m.len() && !version_matches(&m[i].2, nv)
        invariant
            0 <= i <= m@.len(),
            mv == span_views(m@),
            header_index(mv, nv@, i as int) == header_index(mv, nv@, 0),
        decreases m@.len() - i,
    {
        i = i + 1;
    }
    if i >= m.len() {
        return None;
    }
    let bytes = content.as_bytes();
    let blen = bytes.len();
    let ghost b = content.spec_bytes();
    let mut k: usize = m[i].1;
    while k < blen && bytes[k] != 10
        invariant
            b == bytes@,
            blen == b.len(),
            m[i as int].1 <= k,
            after_newline(b, k as int) == after_newline(b, m[i as int].1 as int),
        decreases blen - k,
    {
        k = k + 1;
    }
    let start: usize = if k < blen {
        k + 1
    } else {
        k
    };
    let end: usize = if i + 1 < m.len() {
        m[i + 1].0
    } else {
        blen
    };
    if !(start <= end && end <= blen) || !content.is_char_boundary(start) {
        return None;
    }
    let (_, tail) = content.split_at(start);
    if !tail.is_char_boundary(end - start) {
        return None;
    }
    let (piece, _) = tail.split_at(end - start);
    assert(piece.spec_bytes() == b.subrange(start as int, end as int));
    assert(decode_utf8(encode_utf8(piece@)) == piece@);
    let t = trim(piece);
    if t.as_str().unicode_len() == 0 {
        return None;
    }
    Some(t)
}

/// Position of the `left`-th newline at or after `i`, or the length.
pub open spec fn nth_newline_from(s: Seq<char>, i: int, left: nat) -> int
    decreases s.len() - i,
{
    if i < 0 || i >= s.len() {
        s.len() as int
    } else if s[i] == '\n' {
        if left <= 1 {
            i
        } else {
            nth_newline_from(s, i + 1, (left - 1) as nat)
        }
    } else {
        nth_newline_from(s, i + 1, left)
    }
}

/// At most `MAX_LINES` lines of `content` (trailing whitespace dropped), and
/// how many lines were left out.
pub open spec fn truncate_spec(content: Seq<char>) -> (Seq<char>, nat) {
    if line_count(content) <= MAX_LINES {
        (content, 0)
    } else {
        (
            trimmed_end(content.subrange(0, nth_newline_from(content, 0, MAX_LINES as nat))),
            (line_count(content) - MAX_LINES) as nat,
        )
    }
}

/// Keeps the first `MAX_LINES` lines and counts the rest.
pub fn truncate_content(content: &str) -> (r: (&str, usize))
    ensures
        (r.0@, r.1 as nat) == truncate_spec(content@),
{
    let n = content.unicode_len();
    let lines = count_lines(content);
    if lines <= MAX_LINES {
        return (content, 0);
    }
    let mut j: usize = 0;
    let mut left: usize = MAX_LINES;
    while j < n && !(content.get_char(j) == '\n' && left <= 1)
        invariant
            0 <= j <= n,
            n == content@.len(),
            1 <= left <= MAX_LINES,
            nth_newline_from(content@, j as int, left as nat) == nth_newline_from(
                content@,
                0,
                MAX_LINES as nat,
            ),
        decreases n - j,
    {
        if content.get_char(j) == '\n' {
            left = left - 1;
        }
        j = j + 1;
    }
    let head = content.substring_char(0, j);
    (trim_end(head), lines - MAX_LINES)
}

} // verus!
