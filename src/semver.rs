//! Recognition of version tags: an optional lower-case prefix with a hyphen
//! (`py-`, `rust-`), an optional `v`, `MAJOR.MINOR[.PATCH[.BUILD]]`, an
//! optional pre-release (`-rc.1`, or Python style `a1`, `b2`, `rc3`) and
//! optional `+BUILDMETA`.

use vstd::prelude::*;
use vstd::string::*;

use crate::text::{is_ascii_alnum, is_digit, parse_u64, parse_u64_spec};

verus! {

/// A recognized version.
#[derive(Debug, Clone, PartialEq, Eq)]
pub struct Semver {
    pub major: u32,
    pub minor: u32,
    pub patch: Option<u32>,
    pub build: Option<u32>,
    pub pre_release: Option<String>,
    pub build_metadata: Option<String>,
}

pub struct SemverView {
    pub major: u32,
    pub minor: u32,
    pub patch: Option<u32>,
    pub build: Option<u32>,
    pub pre_release: Option<Seq<char>>,
    pub build_metadata: Option<Seq<char>>,
}

impl View for Semver {
    type V = SemverView;

    open spec fn view(&self) -> SemverView {
        SemverView {
            major: self.major,
            minor: self.minor,
            patch: self.patch,
            build: self.build,
            pre_release: self.pre_release.deep_view(),
            build_metadata: self.build_metadata.deep_view(),
        }
    }
}

pub open spec fn is_lower(c: char) -> bool {
    'a' <= c && c <= 'z'
}

/// Characters allowed in a SemVer pre-release or in build metadata.
pub open spec fn is_ident_char(c: char) -> bool {
    is_ascii_alnum(c) || c == '.' || c == '-'
}

/// End of the run of lower-case letters starting at `i`.
pub open spec fn lower_end(s: Seq<char>, i: int) -> int
    decreases s.len() - i,
{
    if 0 <= i < s.len() && is_lower(s[i]) {
        lower_end(s, i + 1)
    } else {
        i
    }
}

/// End of the run of digits starting at `i`.
pub open spec fn digit_end(s: Seq<char>, i: int) -> int
    decreases s.len() - i,
{
    if 0 <= i < s.len() && is_digit(s[i]) {
        digit_end(s, i + 1)
    } else {
        i
    }
}

/// End of the run of identifier characters starting at `i`.
pub open spec fn ident_end(s: Seq<char>, i: int) -> int
    decreases s.len() - i,
{
    if 0 <= i < s.len() && is_ident_char(s[i]) {
        ident_end(s, i + 1)
    } else {
        i
    }
}

proof fn lemma_run_bounds(s: Seq<char>, i: int)
    requires
        0 <= i <= s.len(),
    ensures
        i <= lower_end(s, i) <= s.len(),
        i <= digit_end(s, i) <= s.len(),
        i <= ident_end(s, i) <= s.len(),
    decreases s.len() - i,
{
    if i < s.len() {
        lemma_run_bounds(s, i + 1);
    }
}

/// A number (fitting `u32`) starting at `i`, and where it ends.
pub open spec fn num_at(s: Seq<char>, i: int) -> Option<(u32, int)> {
    let e = digit_end(s, i);
    if e == i {
        None
    } else {
        match parse_u64_spec(s.subrange(i, e)) {
            Some(v) => if v <= u32::MAX {
                Some((v as u32, e))
            } else {
                None
            },
            None => None,
        }
    }
}

/// An optional `.NUMBER` at `i`.
pub open spec fn dot_num_at(s: Seq<char>, i: int) -> (Option<u32>, int) {
    if 0 <= i < s.len() && s[i] == '.' {
        match num_at(s, i + 1) {
            Some((n, e)) => (Some(n), e),
            None => (None, i),
        }
    } else {
        (None, i)
    }
}

/// An optional pre-release at `i`; `None` when one is begun but malformed.
pub open spec fn pre_at(s: Seq<char>, i: int) -> Option<(Option<Seq<char>>, int)> {
    if 0 <= i < s.len() && s[i] == '-' {
        let e = ident_end(s, i + 1);
        if e > i + 1 {
            Some((Some(s.subrange(i + 1, e)), e))
        } else {
            None
        }
    } else if 0 <= i < s.len() && (s[i] == 'a' || s[i] == 'b') {
        let e = digit_end(s, i + 1);
        if e > i + 1 {
            Some((Some(s.subrange(i, e)), e))
        } else {
            None
        }
    } else if 0 <= i && i + 1 < s.len() && s[i] == 'r' && s[i + 1] == 'c' {
        let e = digit_end(s, i + 2);
        if e > i + 2 {
            Some((Some(s.subrange(i, e)), e))
        } else {
            None
        }
    } else {
        Some((None, i))
    }
}

/// Optional `+BUILDMETA` running to the end; `None` when anything else is left.
pub open spec fn meta_at(s: Seq<char>, i: int) -> Option<Option<Seq<char>>> {
    if i == s.len() {
        Some(None)
    } else if 0 <= i < s.len() && s[i] == '+' && i + 1 < s.len() && ident_end(s, i + 1)
        == s.len() {
        Some(Some(s.subrange(i + 1, s.len() as int)))
    } else {
        None
    }
}

/// Where the version proper starts: after a `prefix-` of lower-case letters
/// and after one `v`.
pub open spec fn version_start(s: Seq<char>) -> int {
    let k = lower_end(s, 0);
    let after_prefix = if k >= 1 && k < s.len() && s[k] == '-' {
        k + 1
    } else {
        0
    };
    if after_prefix < s.len() && s[after_prefix] == 'v' {
        after_prefix + 1
    } else {
        after_prefix
    }
}

/// The recognized version of a tag name, if it is one.
pub open spec fn semver_spec(s: Seq<char>) -> Option<SemverView> {
    let start = version_start(s);
    match num_at(s, start) {
        None => None,
        Some((major, minor_dot)) => if !(minor_dot < s.len() && s[minor_dot] == '.') {
            None
        } else {
            match num_at(s, minor_dot + 1) {
                None => None,
                Some((minor, minor_end)) => {
                    let (patch, patch_end) = dot_num_at(s, minor_end);
                    let (build, build_end) = if patch is Some {
                        dot_num_at(s, patch_end)
                    } else {
                        (None, patch_end)
                    };
                    match pre_at(s, build_end) {
                        None => None,
                        Some((pre, pre_end)) => match meta_at(s, pre_end) {
                            None => None,
                            Some(meta) => Some(
                                SemverView {
                                    major,
                                    minor,
                                    patch,
                                    build,
                                    pre_release: pre,
                                    build_metadata: meta,
                                },
                            ),
                        },
                    }
                },
            }
        },
    }
}

fn lower_run(s: &str, i: usize) -> (r: usize)
    requires
        i <= s@.len(),
    ensures
        r == lower_end(s@, i as int),
        i <= r <= s@.len(),
{
    proof {
        lemma_run_bounds(s@, i as int);
    }
    let n = s.unicode_len();
    let mut j = i;
    while j < n && 'a' <= s.get_char(j) && s.get_char(j) <= 'z'
        invariant
            i <= j <= n,
            n == s@.len(),
            lower_end(s@, j as int) == lower_end(s@, i as int),
        decreases n - j,
    {
        j = j + 1;
    }
    j
}

fn digit_run(s: &str, i: usize) -> (r: usize)
    requires
        i <= s@.len(),
    ensures
        r == digit_end(s@, i as int),
        i <= r <= s@.len(),
{
    proof {
        lemma_run_bounds(s@, i as int);
    }
    let n = s.unicode_len();
    let mut j = i;
    while j < n && '0' <= s.get_char(j) && s.get_char(j) <= '9'
        invariant
            i <= j <= n,
            n == s@.len(),
            digit_end(s@, j as int) == digit_end(s@, i as int),
        decreases n - j,
    {
        j = j + 1;
    }
    j
}

fn ident_run(s: &str, i: usize) -> (r: usize)
    requires
        i <= s@.len(),
    ensures
        r == ident_end(s@, i as int),
        i <= r <= s@.len(),
{
    proof {
        lemma_run_bounds(s@, i as int);
    }
    let n = s.unicode_len();
    let mut j = i;
    while j < n && is_ident(s.get_char(j))
        invariant
            i <= j <= n,
            n == s@.len(),
            ident_end(s@, j as int) == ident_end(s@, i as int),
        decreases n - j,
    {
        j = j + 1;
    }
    j
}

fn is_ident(c: char) -> (r: bool)
    ensures
        r == is_ident_char(c),
{
    ('a' <= c && c <= 'z') || ('A' <= c && c <= 'Z') || ('0' <= c && c <= '9') || c == '.' || c
        == '-'
}

fn number_at(s: &str, i: usize) -> (r: Option<(u32, usize)>)
    requires
        i <= s@.len(),
    ensures
        match r {
            Some((v, e)) => num_at(s@, i as int) == Some((v, e as int)) && e <= s@.len(),
            None => num_at(s@, i as int) is None,
        },
{
    let e = digit_run(s, i);
    if e == i {
        return None;
    }
    match parse_u64(s.substring_char(i, e)) {
        Some(v) => {
            if v <= 0xffff_ffff {
                Some((v as u32, e))
            } else {
                None
            }
        },
        None => None,
    }
}

fn dot_number_at(s: &str, i: usize) -> (r: (Option<u32>, usize))
    requires
        i <= s@.len(),
    ensures
        (r.0, r.1 as int) == dot_num_at(s@, i as int),
        r.1 <= s@.len(),
{
    if i < s.unicode_len() && s.get_char(i) == '.' {
        match number_at(s, i + 1) {
            Some((v, e)) => (Some(v), e),
            None => (None, i),
        }
    } else {
        (None, i)
    }
}

fn pre_release_at(s: &str, i: usize) -> (r: Option<(Option<String>, usize)>)
    requires
        i <= s@.len(),
    ensures
        match r {
            Some((p, e)) => pre_at(s@, i as int) == Some((p.deep_view(), e as int)) && e
                <= s@.len(),
            None => pre_at(s@, i as int) is None,
        },
{
    let n = s.unicode_len();
    if i < n && s.get_char(i) == '-' {
        let e = ident_run(s, i + 1);
        if e > i + 1 {
            Some((Some(s.substring_char(i + 1, e).to_owned()), e))
        } else {
            None
        }
    } else if i < n && (s.get_char(i) == 'a' || s.get_char(i) == 'b') {
        let e = digit_run(s, i + 1);
        if e > i + 1 {
            Some((Some(s.substring_char(i, e).to_owned()), e))
        } else {
            None
        }
    } else if n > 1 && i < n - 1 && s.get_char(i) == 'r' && s.get_char(i + 1) == 'c' {
        let e = digit_run(s, i + 2);
        if e > i + 2 {
            Some((Some(s.substring_char(i, e).to_owned()), e))
        } else {
            None
        }
    } else {
        Some((None, i))
    }
}

fn metadata_at(s: &str, i: usize) -> (r: Option<Option<String>>)
    requires
        i <= s@.len(),
    ensures
        match r {
            Some(m) => meta_at(s@, i as int) == Some(m.deep_view()),
            None => meta_at(s@, i as int) is None,
        },
{
    let n = s.unicode_len();
    if i == n {
        Some(None)
    } else if s.get_char(i) == '+' && i + 1 < n && ident_run(s, i + 1) == n {
        Some(Some(s.substring_char(i + 1, n).to_owned()))
    } else {
        None
    }
}

pub open spec fn semver_view(r: Option<Semver>) -> Option<SemverView> {
    match r {
        Some(v) => Some(v@),
        None => None,
    }
}

/// Recognizes a version tag.
pub fn parse_semver(tag: &str) -> (r: Option<Semver>)
    ensures
        semver_view(r) == semver_spec(tag@),
{
    let n = tag.unicode_len();
    let k = lower_run(tag, 0);
    let after_prefix: usize = if k >= 1 && k < n && tag.get_char(k) == '-' {
        k + 1
    } else {
        0
    };
    let start: usize = if after_prefix < n && tag.get_char(after_prefix) == 'v' {
        after_prefix + 1
    } else {
        after_prefix
    };
    assert(start == version_start(tag@));
    let (major, minor_dot) = match number_at(tag, start) {
        Some(x) => x,
        None => return None,
    };
    if !(minor_dot < n && tag.get_char(minor_dot) == '.') {
        return None;
    }
    let (minor, minor_end) = match number_at(tag, minor_dot + 1) {
        Some(x) => x,
        None => return None,
    };
    let (patch, patch_end) = dot_number_at(tag, minor_end);
    let (build, build_end) = if patch.is_some() {
        dot_number_at(tag, patch_end)
    } else {
        (None, patch_end)
    };
    let (pre_release, pre_end) = match pre_release_at(tag, build_end) {
        Some(x) => x,
        None => return None,
    };
    let build_metadata = match metadata_at(tag, pre_end) {
        Some(m) => m,
        None => return None,
    };
    Some(Semver { major, minor, patch, build, pre_release, build_metadata })
}

/// Whether a tag name is a recognized version.
pub fn is_semver_tag(tag: &str) -> (r: bool)
    ensures
        r == semver_spec(tag@) is Some,
{
    parse_semver(tag).is_some()
}

impl Semver {
    /// A stable release: no pre-release, no build metadata, no fourth number.
    pub open spec fn stable(self) -> bool {
        self.pre_release is None && self.build_metadata is None && self.build is None
    }

    pub fn is_stable(&self) -> (r: bool)
        ensures
            r == self.stable(),
    {
        self.pre_release.is_none() && self.build_metadata.is_none() && self.build.is_none()
    }
}

/// Whether a tag name is a stable version.
pub fn is_stable_semver(tag: &str) -> (r: bool)
    ensures
        r == (semver_spec(tag@) matches Some(v) && v.pre_release is None && v.build_metadata
            is None && v.build is None),
{
    match parse_semver(tag) {
        Some(v) => v.is_stable(),
        None => false,
    }
}

/// Recognition depends on the tag's text alone: parsing the same text again
/// gives the same version.
pub proof fn lemma_semver_reparse(s: Seq<char>, t: Seq<char>)
    requires
        s == t,
    ensures
        semver_spec(s) == semver_spec(t),
{
}

} // verus!
