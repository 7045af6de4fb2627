//! Web links on github.com: commits, tags, releases and profiles, each path
//! segment percent-encoded (everything but ASCII letters and digits).

use vstd::prelude::*;
use vstd::string::*;
use vstd::utf8::encode_utf8;

use crate::input::{before_first, find_char, GhRepoInfo};
use crate::text::{ends_with, is_ascii_alnum, is_suffix};

verus! {

pub open spec fn hex_char(n: int) -> char {
    if n == 0 {
        '0'
    } else if n == 1 {
        '1'
    } else if n == 2 {
        '2'
    } else if n == 3 {
        '3'
    } else if n == 4 {
        '4'
    } else if n == 5 {
        '5'
    } else if n == 6 {
        '6'
    } else if n == 7 {
        '7'
    } else if n == 8 {
        '8'
    } else if n == 9 {
        '9'
    } else if n == 10 {
        'A'
    } else if n == 11 {
        'B'
    } else if n == 12 {
        'C'
    } else if n == 13 {
        'D'
    } else if n == 14 {
        'E'
    } else {
        'F'
    }
}

/// `%XX` for every byte, upper-case hexadecimal.
pub open spec fn escaped_bytes(b: Seq<u8>) -> Seq<char>
    decreases b.len(),
{
    if b.len() == 0 {
        Seq::empty()
    } else {
        seq!['%', hex_char(b[0] as int / 16), hex_char(b[0] as int % 16)] + escaped_bytes(
            b.drop_first(),
        )
    }
}

/// Percent-encoding with the non-alphanumeric set: ASCII letters and digits
/// stay, every byte of the UTF-8 encoding of any other character is escaped.
pub open spec fn pct_encoded(s: Seq<char>) -> Seq<char>
    decreases s.len(),
{
    if s.len() == 0 {
        Seq::empty()
    } else {
        (if is_ascii_alnum(s[0]) {
            seq![s[0]]
        } else {
            escaped_bytes(encode_utf8(seq![s[0]]))
        }) + pct_encoded(s.drop_first())
    }
}

/// Relies on `percent_encoding::utf8_percent_encode` with `NON_ALPHANUMERIC`:
/// bytes that are not ASCII letters or digits become `%XX` (upper case).
#[verifier::external_body]
fn encode_segment(s: &str) -> (r: String)
    ensures
        r@ == pct_encoded(s@),
{
    percent_encoding::utf8_percent_encode(s, percent_encoding::NON_ALPHANUMERIC).to_string()
}

pub open spec fn github_root() -> Seq<char> {
    "https://github.com/"@
}

/// `https://github.com/<owner>/<repo>/<kind><id>`, every segment encoded.
pub open spec fn repo_link(owner: Seq<char>, repo: Seq<char>, kind: Seq<char>, id: Seq<char>) -> Seq<
    char,
> {
    github_root() + pct_encoded(owner) + "/"@ + pct_encoded(repo) + kind + pct_encoded(id)
}

fn build_repo_link(info: &GhRepoInfo, kind: &str, id: &str) -> (r: String)
    ensures
        r@ == repo_link(info.owner@, info.repo@, kind@, id@),
{
    let mut out = "https://github.com/".to_owned();
    out.append(encode_segment(info.owner.as_str()).as_str());
    out.append("/");
    out.append(encode_segment(info.repo.as_str()).as_str());
    out.append(kind);
    out.append(encode_segment(id).as_str());
    out
}

/// Link to a commit.
pub fn commit_url(info: &GhRepoInfo, hash: &str) -> (r: String)
    ensures
        r@ == repo_link(info.owner@, info.repo@, "/commit/"@, hash@),
{
    build_repo_link(info, "/commit/", hash)
}

/// Link to a plain tag (its tree).
pub fn tag_url(info: &GhRepoInfo, tag: &str) -> (r: String)
    ensures
        r@ == repo_link(info.owner@, info.repo@, "/tree/"@, tag@),
{
    build_repo_link(info, "/tree/", tag)
}

/// Link to the release of a tag.
pub fn release_url(info: &GhRepoInfo, tag: &str) -> (r: String)
    ensures
        r@ == repo_link(info.owner@, info.repo@, "/releases/tag/"@, tag@),
{
    build_repo_link(info, "/releases/tag/", tag)
}

/// Link to a user's profile.
pub fn profile_url(username: &str) -> (r: String)
    ensures
        r@ == github_root() + pct_encoded(username@),
{
    "https://github.com/".to_owned().concat(encode_segment(username).as_str())
}

/// Index of the last `c` before `j`, or -1.
pub open spec fn last_idx_before(s: Seq<char>, c: char, j: int) -> int
    decreases j,
{
    if j <= 0 || j > s.len() {
        -1
    } else if s[j - 1] == c {
        j - 1
    } else {
        last_idx_before(s, c, j - 1)
    }
}

/// The text after the last `c` (`s.split(c).next_back()`).
pub open spec fn after_last(s: Seq<char>, c: char) -> Seq<char> {
    s.subrange(last_idx_before(s, c, s.len() as int) + 1, s.len() as int)
}

proof fn lemma_last_idx_bounds(s: Seq<char>, c: char, j: int)
    requires
        0 <= j <= s.len(),
    ensures
        -1 <= last_idx_before(s, c, j) < j,
    decreases j,
{
    if j > 0 && s[j - 1] != c {
        lemma_last_idx_bounds(s, c, j - 1);
    }
}

fn text_after_last(s: &str, c: char) -> (r: String)
    ensures
        r@ == after_last(s@, c),
{
    let n = s.unicode_len();
    proof {
        lemma_last_idx_bounds(s@, c, n as int);
    }
    let mut j: usize = n;
    while j > 0 && s.get_char(j - 1) != c
        invariant
            0 <= j <= n,
            n == s@.len(),
            last_idx_before(s@, c, j as int) == last_idx_before(s@, c, n as int),
        decreases j,
    {
        j = j - 1;
    }
    s.substring_char(j, n).to_owned()
}

pub open spec fn noreply_suffix() -> Seq<char> {
    "@users.noreply.github.com"@
}

/// The GitHub login in a `name@users.noreply.github.com` or
/// `id+name@users.noreply.github.com` address.
pub open spec fn username_spec(email: Seq<char>) -> Option<Seq<char>> {
    if is_suffix(noreply_suffix(), email) {
        Some(after_last(before_first(email, '@'), '+'))
    } else {
        None
    }
}

pub fn extract_github_username(email: &str) -> (r: Option<String>)
    ensures
        r.deep_view() == username_spec(email@),
{
    if !ends_with(email, "@users.noreply.github.com") {
        return None;
    }
    let k = find_char(email, '@');
    let user_part = email.substring_char(0, k);
    Some(text_after_last(user_part, '+'))
}

pub open spec fn author_link_spec(email: Seq<char>) -> Option<Seq<char>> {
    match username_spec(email) {
        Some(u) => Some(github_root() + pct_encoded(u)),
        None => None,
    }
}

/// Profile link for a GitHub no-reply address.
pub fn author_url_from_email(email: &str) -> (r: Option<String>)
    ensures
        r.deep_view() == author_link_spec(email@),
{
    match extract_github_username(email) {
        Some(u) => Some(profile_url(u.as_str())),
        None => None,
    }
}

} // verus!
