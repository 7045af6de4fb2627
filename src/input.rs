//! Classification of the raw command-line argument (and the optional
//! repository flag) into repository coordinates and a typed query.

use vstd::prelude::*;
use vstd::string::*;

use crate::text::{
    contains_control, contains_str, ends_with, fields, fields_state, has_control, is_ascii_alnum, is_prefix,
    is_suffix, is_ws, occurs_at, parse_u64, parse_u64_spec, split_all, split_fields, split_on,
    starts_with, str_eq, trim, trimmed, views, ws_back, ws_skip,
};

verus! {

/// Repository coordinates on GitHub.
#[derive(Debug, Clone, PartialEq, Eq)]
pub struct GhRepoInfo {
    pub owner: String,
    pub repo: String,
}

impl View for GhRepoInfo {
    type V = (Seq<char>, Seq<char>);

    open spec fn view(&self) -> (Seq<char>, Seq<char>) {
        (self.owner@, self.repo@)
    }
}

impl GhRepoInfo {
    /// Both names are non-empty and use only `[A-Za-z0-9._-]`.
    pub open spec fn wf(&self) -> bool {
        valid_segment(self.owner@) && valid_segment(self.repo@)
    }

    pub fn new(owner: String, repo: String) -> (r: Self)
        ensures
            r@ == (owner@, repo@),
    {
        GhRepoInfo { owner, repo }
    }

    pub fn owner(&self) -> (r: &str)
        ensures
            r@ == self.owner@,
    {
        self.owner.as_str()
    }

    pub fn repo(&self) -> (r: &str)
        ensures
            r@ == self.repo@,
    {
        self.repo.as_str()
    }

    /// Same owner and same repository name (case-sensitive).
    pub fn same_repo(&self, other: &GhRepoInfo) -> (r: bool)
        ensures
            r == (self@ == other@),
    {
        str_eq(self.owner.as_str(), other.owner.as_str()) && str_eq(
            self.repo.as_str(),
            other.repo.as_str(),
        )
    }
}

/// What the user asked about.
#[derive(Debug, Clone, PartialEq, Eq)]
pub enum Query {
    /// A git commit hash.
    GitCommit(String),
    /// Either an issue or a pull request number.
    IssueOrPr(u64),
    /// An issue number.
    Issue(u64),
    /// A pull request number.
    Pr(u64),
    /// A repository-relative file path, `/`-separated.
    FilePath(String),
    /// A token whose kind is settled by probing the backend.
    Unknown(String),
}

pub enum QueryView {
    GitCommit(Seq<char>),
    IssueOrPr(u64),
    Issue(u64),
    Pr(u64),
    FilePath(Seq<char>),
    Unknown(Seq<char>),
}

impl View for Query {
    type V = QueryView;

    open spec fn view(&self) -> QueryView {
        match self {
            Query::GitCommit(h) => QueryView::GitCommit(h@),
            Query::IssueOrPr(n) => QueryView::IssueOrPr(*n),
            Query::Issue(n) => QueryView::Issue(*n),
            Query::Pr(n) => QueryView::Pr(*n),
            Query::FilePath(p) => QueryView::FilePath(p@),
            Query::Unknown(s) => QueryView::Unknown(s@),
        }
    }
}

/// Why an input was refused for safety.
#[derive(Debug, Clone, Copy, PartialEq, Eq)]
pub enum RejectReason {
    ControlCharacter,
    UnsafePath,
}

/// Why an input could not be classified.
#[derive(Debug, Clone, Copy, PartialEq, Eq)]
pub enum InputError {
    EmptyInput,
    SecurityRejection(RejectReason),
    NotGitHubUrl,
    MalformedGitHubUrl,
}

/// Parsed input: repository coordinates when the user gave a URL or a
/// repository flag, and the query.
#[derive(Debug, Clone, PartialEq, Eq)]
pub struct ParsedInput {
    pub gh_repo_info: Option<GhRepoInfo>,
    pub query: Query,
}

pub open spec fn coords_view(c: Option<GhRepoInfo>) -> Option<(Seq<char>, Seq<char>)> {
    match c {
        Some(i) => Some(i@),
        None => None,
    }
}

impl View for ParsedInput {
    type V = (Option<(Seq<char>, Seq<char>)>, QueryView);

    open spec fn view(&self) -> (Option<(Seq<char>, Seq<char>)>, QueryView) {
        (coords_view(self.gh_repo_info), self.query@)
    }
}

impl ParsedInput {
    pub fn new_with_remote(gh_repo_info: GhRepoInfo, query: Query) -> (r: Self)
        ensures
            r@ == (Some(gh_repo_info@), query@),
    {
        ParsedInput { gh_repo_info: Some(gh_repo_info), query }
    }

    pub fn new_local_query(query: Query) -> (r: Self)
        ensures
            r@ == (None::<(Seq<char>, Seq<char>)>, query@),
    {
        ParsedInput { gh_repo_info: None, query }
    }

    pub fn gh_repo_info(&self) -> (r: Option<&GhRepoInfo>)
        ensures
            match r {
                Some(i) => self.gh_repo_info == Some(*i),
                None => self.gh_repo_info is None,
            },
    {
        match &self.gh_repo_info {
            Some(i) => Some(i),
            None => None,
        }
    }

    pub fn owner(&self) -> (r: Option<&str>)
        ensures
            match r {
                Some(o) => self.gh_repo_info is Some && o@ == self.gh_repo_info->0.owner@,
                None => self.gh_repo_info is None,
            },
    {
        match &self.gh_repo_info {
            Some(i) => Some(i.owner()),
            None => None,
        }
    }

    pub fn repo(&self) -> (r: Option<&str>)
        ensures
            match r {
                Some(o) => self.gh_repo_info is Some && o@ == self.gh_repo_info->0.repo@,
                None => self.gh_repo_info is None,
            },
    {
        match &self.gh_repo_info {
            Some(i) => Some(i.repo()),
            None => None,
        }
    }

    /// The query as text (`#<n>` for issue and pull request numbers).
    pub fn query(&self) -> (r: String)
        ensures
            r@ == query_text(self.query@),
    {
        self.query.as_text()
    }
}

// ---------------------------------------------------------------------------
// Segments and queries
// ---------------------------------------------------------------------------

pub open spec fn is_segment_char(c: char) -> bool {
    is_ascii_alnum(c) || c == '-' || c == '_' || c == '.'
}

/// A valid owner or repository name.
pub open spec fn valid_segment(s: Seq<char>) -> bool {
    s.len() > 0 && forall|i: int| 0 <= i < s.len() ==> #[trigger] is_segment_char(s[i])
}

pub open spec fn sanitized_segment(raw: Seq<char>) -> Option<Seq<char>> {
    if valid_segment(trimmed(raw)) {
        Some(trimmed(raw))
    } else {
        None
    }
}

pub open spec fn sanitized_query(raw: Seq<char>) -> Option<Seq<char>> {
    let t = trimmed(raw);
    if t.len() == 0 || has_control(t) {
        None
    } else {
        Some(t)
    }
}

/// Trims an owner or repository name and keeps it only if it is valid.
pub fn sanitize_owner_repo_segment(raw: &str) -> (r: Option<String>)
    ensures
        r.deep_view() == sanitized_segment(raw@),
{
    let t = trim(raw);
    let n = t.as_str().unicode_len();
    if n == 0 {
        return None;
    }
    let mut i: usize = 0;
    while i < n
        invariant
            0 <= i <= n,
            n == t@.len(),
            t@ == trimmed(raw@),
            forall|k: int| 0 <= k < i ==> #[trigger] is_segment_char(t@[k]),
        decreases n - i,
    {
        let c = t.as_str().get_char(i);
        let ok = ('a' <= c && c <= 'z') || ('A' <= c && c <= 'Z') || ('0' <= c && c <= '9') || c
            == '-' || c == '_' || c == '.';
        if !ok {
            assert(!is_segment_char(t@[i as int]));
            return None;
        }
        i = i + 1;
    }
    Some(t)
}

/// Trims a query and keeps it unless it is empty or holds a control character.
pub fn sanitize_query(raw: &str) -> (r: Option<String>)
    ensures
        r.deep_view() == sanitized_query(raw@),
{
    let t = trim(raw);
    if t.as_str().unicode_len() == 0 {
        return None;
    }
    if contains_control(t.as_str()) {
        return None;
    }
    Some(t)
}

pub open spec fn git_suffix() -> Seq<char> {
    seq!['.', 'g', 'i', 't']
}

/// The name without any number of trailing `.git` (`trim_end_matches(".git")`).
pub open spec fn strip_git(s: Seq<char>) -> Seq<char>
    decreases s.len(),
{
    if is_suffix(git_suffix(), s) {
        strip_git(s.subrange(0, s.len() - 4))
    } else {
        s
    }
}

pub fn trim_git_suffix(s: &str) -> (r: String)
    ensures
        r@ == strip_git(s@),
{
    proof {
        reveal_strlit(".git");
        assert(".git"@ == git_suffix());
    }
    let mut cur = s.to_owned();
    while ends_with(cur.as_str(), ".git")
        invariant
            strip_git(cur@) == strip_git(s@),
            ".git"@ == git_suffix(),
        decreases cur@.len(),
    {
        let n = cur.as_str().unicode_len();
        cur = cur.as_str().substring_char(0, n - 4).to_owned();
    }
    cur
}

pub open spec fn www_prefix() -> Seq<char> {
    seq!['w', 'w', 'w', '.']
}

/// The host without any number of leading `www.` (`trim_start_matches("www.")`).
pub open spec fn strip_www(s: Seq<char>) -> Seq<char>
    decreases s.len(),
{
    if is_prefix(www_prefix(), s) {
        strip_www(s.subrange(4, s.len() as int))
    } else {
        s
    }
}

/// Whether `c` lower-cases (ASCII only) to `l`.
pub open spec fn lowers_to(c: char, l: char) -> bool {
    c == l || ('A' <= c && c <= 'Z' && c as u32 + 32 == l as u32)
}

/// Whether the ASCII lower-casing of `s` is `t`, for a `t` without upper-case letters.
pub open spec fn ascii_lower_is(s: Seq<char>, t: Seq<char>) -> bool {
    s.len() == t.len() && forall|i: int| 0 <= i < s.len() ==> #[trigger] lowers_to(s[i], t[i])
}

/// Whether the ASCII lower-casing of `s` starts with `t`.
pub open spec fn ascii_lower_starts(s: Seq<char>, t: Seq<char>) -> bool {
    t.len() <= s.len() && ascii_lower_is(s.subrange(0, t.len() as int), t)
}

pub fn lower_matches(s: &str, t: &str) -> (r: bool)
    ensures
        r == ascii_lower_is(s@, t@),
{
    let n = s.unicode_len();
    if n != t.unicode_len() {
        return false;
    }
    let mut i: usize = 0;
    while i < n
        invariant
            0 <= i <= n,
            n == s@.len(),
            n == t@.len(),
            forall|k: int| 0 <= k < i ==> #[trigger] lowers_to(s@[k], t@[k]),
        decreases n - i,
    {
        let c = s.get_char(i);
        let l = t.get_char(i);
        if !(c == l || ('A' <= c && c <= 'Z' && c as u32 + 32 == l as u32)) {
            assert(!lowers_to(s@[i as int], t@[i as int]));
            return false;
        }
        i = i + 1;
    }
    true
}

pub fn lower_starts(s: &str, t: &str) -> (r: bool)
    ensures
        r == ascii_lower_starts(s@, t@),
{
    let m = t.unicode_len();
    if m > s.unicode_len() {
        return false;
    }
    lower_matches(s.substring_char(0, m), t)
}

/// Which GitHub host a URL names.
#[derive(Debug, Clone, Copy, PartialEq, Eq)]
pub enum GhUrlHostType {
    Github,
    GithubApi,
    Other,
}

pub open spec fn host_kind(host: Seq<char>) -> GhUrlHostType {
    let h = strip_www(host);
    if ascii_lower_is(h, "github.com"@) {
        GhUrlHostType::Github
    } else if ascii_lower_is(h, "api.github.com"@) {
        GhUrlHostType::GithubApi
    } else {
        GhUrlHostType::Other
    }
}

/// Classifies a host: `www.` prefixes are dropped and case is ignored.
pub fn is_allowed_github_host(host: &str) -> (r: GhUrlHostType)
    ensures
        r == host_kind(host@),
{
    proof {
        reveal_strlit("www.");
        assert("www."@ == www_prefix());
    }
    let mut cur = host.to_owned();
    while starts_with(cur.as_str(), "www.")
        invariant
            strip_www(cur@) == strip_www(host@),
            "www."@ == www_prefix(),
        decreases cur@.len(),
    {
        let n = cur.as_str().unicode_len();
        cur = cur.as_str().substring_char(4, n).to_owned();
    }
    if lower_matches(cur.as_str(), "github.com") {
        GhUrlHostType::Github
    } else if lower_matches(cur.as_str(), "api.github.com") {
        GhUrlHostType::GithubApi
    } else {
        GhUrlHostType::Other
    }
}

/// The non-empty `/`-separated segments of a URL path.
pub fn collect_segments(path: &str) -> (r: Vec<String>)
    ensures
        views(r@) == fields(path@, '/'),
{
    split_fields(path, '/')
}


// ---------------------------------------------------------------------------
// URLs
// ---------------------------------------------------------------------------

/// What `url::Url::parse` makes of a text: `None` when it is not an absolute
/// URL, else the host (if any) and the path.
pub uninterp spec fn url_host_path(s: Seq<char>) -> Option<(Option<Seq<char>>, Seq<char>)>;

/// Relies on `url::Url::parse` (WHATWG URL parsing), then `Url::host_str` and
/// `Url::path`: the result depends on the text alone.
#[verifier::external_body]
fn url_parts(s: &str) -> (r: Option<(Option<String>, String)>)
    ensures
        r.deep_view() == url_host_path(s@),
{
    match url::Url::parse(s) {
        Ok(u) => Some((u.host_str().map(|h| h.to_string()), u.path().to_string())),
        Err(_) => None,
    }
}

/// Host and path of a URL, also when the scheme (or `https:`) was left out
/// before `github.com/`, `www.github.com/` or `//github.com/`.
pub open spec fn with_https_fallback(input: Seq<char>) -> Option<(Option<Seq<char>>, Seq<char>)> {
    match url_host_path(input) {
        Some(p) => Some(p),
        None => if ascii_lower_starts(input, "github.com/"@) || ascii_lower_starts(
            input,
            "www.github.com/"@,
        ) {
            url_host_path("https://"@ + input)
        } else if ascii_lower_starts(input, "//github.com/"@) {
            url_host_path("https:"@ + input)
        } else {
            None
        },
    }
}

fn parse_with_https_fallback(input: &str) -> (r: Option<(Option<String>, String)>)
    ensures
        r.deep_view() == with_https_fallback(input@),
{
    let direct = url_parts(input);
    if direct.is_some() {
        return direct;
    }
    if lower_starts(input, "github.com/") || lower_starts(input, "www.github.com/") {
        let full = "https://".to_owned().concat(input);
        url_parts(full.as_str())
    } else if lower_starts(input, "//github.com/") {
        let full = "https:".to_owned().concat(input);
        url_parts(full.as_str())
    } else {
        None
    }
}

/// Path segments of a GitHub web or API URL, and whether it is the API host.
pub open spec fn http_segments(input: Seq<char>) -> Option<(Seq<Seq<char>>, bool)> {
    match with_https_fallback(input) {
        Some((Some(h), path)) => match host_kind(h) {
            GhUrlHostType::Github => Some((fields(path, '/'), false)),
            GhUrlHostType::GithubApi => Some((fields(path, '/'), true)),
            GhUrlHostType::Other => None,
        },
        _ => None,
    }
}

fn parse_http_github_segments(url: &str) -> (r: Option<(Vec<String>, bool)>)
    ensures
        match r {
            Some((v, api)) => http_segments(url@) == Some((views(v@), api)),
            None => http_segments(url@) is None,
        },
{
    let parts = parse_with_https_fallback(url);
    match parts {
        Some((Some(host), path)) => {
            let kind = is_allowed_github_host(host.as_str());
            match kind {
                GhUrlHostType::Github => Some((collect_segments(path.as_str()), false)),
                GhUrlHostType::GithubApi => Some((collect_segments(path.as_str()), true)),
                GhUrlHostType::Other => None,
            }
        },
        _ => None,
    }
}

/// Index of the first `c` at or after `i`, or the length.
pub open spec fn idx_from(s: Seq<char>, c: char, i: int) -> int
    decreases s.len() - i,
{
    if i < 0 || i >= s.len() {
        s.len() as int
    } else if s[i] == c {
        i
    } else {
        idx_from(s, c, i + 1)
    }
}

proof fn lemma_idx_from_bounds(s: Seq<char>, c: char, i: int)
    requires
        0 <= i <= s.len(),
    ensures
        i <= idx_from(s, c, i) <= s.len(),
        idx_from(s, c, i) < s.len() ==> s[idx_from(s, c, i)] == c,
        forall|k: int| i <= k < idx_from(s, c, i) ==> s[k] != c,
    decreases s.len() - i,
{
    if i < s.len() && s[i] != c {
        lemma_idx_from_bounds(s, c, i + 1);
    }
}

/// Position of the first `c` in `s`, or its length.
pub fn find_char(s: &str, c: char) -> (r: usize)
    ensures
        r == idx_from(s@, c, 0),
        r <= s@.len(),
{
    let n = s.unicode_len();
    let mut i: usize = 0;
    while i < n && s.get_char(i) != c
        invariant
            0 <= i <= n,
            n == s@.len(),
            idx_from(s@, c, i as int) == idx_from(s@, c, 0),
        decreases n - i,
    {
        i = i + 1;
    }
    i
}

/// The text before the first `c` (`s.split(c).next()`).
pub open spec fn before_first(s: Seq<char>, c: char) -> Seq<char> {
    s.subrange(0, idx_from(s, c, 0))
}

fn text_before(s: &str, c: char) -> (r: String)
    ensures
        r@ == before_first(s@, c),
{
    let k = find_char(s, c);
    s.substring_char(0, k).to_owned()
}

/// Path part of an SCP-like remote: the text between the first and the second
/// `:`, cut at `#` and at `?`.
pub open spec fn ssh_path(s: Seq<char>) -> Seq<char> {
    let k = idx_from(s, ':', 0);
    before_first(before_first(before_first(s.subrange(k + 1, s.len() as int), ':'), '#'), '?')
}

/// Path segments of a `git@github.com:owner/repo/...` remote.
pub open spec fn ssh_segments(s: Seq<char>) -> Option<Seq<Seq<char>>> {
    if is_prefix("git@github.com:"@, s) && idx_from(s, ':', 0) < s.len() {
        Some(fields(ssh_path(s), '/'))
    } else {
        None
    }
}

fn parse_git_ssh_segments(url: &str) -> (r: Option<Vec<String>>)
    ensures
        match r {
            Some(v) => ssh_segments(url@) == Some(views(v@)),
            None => ssh_segments(url@) is None,
        },
{
    if !starts_with(url, "git@github.com:") {
        return None;
    }
    let n = url.unicode_len();
    let k = find_char(url, ':');
    if k >= n {
        return None;
    }
    let rest = url.substring_char(k + 1, n);
    let a = text_before(rest, ':');
    let b = text_before(a.as_str(), '#');
    let path = text_before(b.as_str(), '?');
    Some(collect_segments(path.as_str()))
}

/// Coordinates at the head of the segments (after `repos` on the API host),
/// and where the rest begins.
pub open spec fn split_coords(segs: Seq<Seq<char>>, is_api: bool) -> Option<
    ((Seq<char>, Seq<char>), int),
> {
    let min: int = if is_api { 3 } else { 2 };
    let oi: int = if is_api { 1 } else { 0 };
    if segs.len() < min {
        None
    } else {
        match (sanitized_segment(segs[oi]), sanitized_segment(strip_git(segs[oi + 1]))) {
            (Some(o), Some(r)) => Some(((o, r), oi + 2)),
            _ => None,
        }
    }
}

fn split_url_segments(segments: &Vec<String>, is_api: bool) -> (r: Option<(GhRepoInfo, usize)>)
    ensures
        match r {
            Some((info, k)) => split_coords(views(segments@), is_api) == Some((info@, k as int))
                && k <= segments@.len(),
            None => split_coords(views(segments@), is_api) is None,
        },
{
    let min: usize = if is_api { 3 } else { 2 };
    if segments.len() < min {
        return None;
    }
    let oi: usize = if is_api { 1 } else { 0 };
    let owner = sanitize_owner_repo_segment(segments[oi].as_str());
    let repo_name = trim_git_suffix(segments[oi + 1].as_str());
    let repo = sanitize_owner_repo_segment(repo_name.as_str());
    match (owner, repo) {
        (Some(o), Some(r)) => Some((GhRepoInfo::new(o, r), oi + 2)),
        _ => None,
    }
}

pub open spec fn owner_repo_from(segs: Seq<Seq<char>>, is_api: bool) -> Option<
    (Seq<char>, Seq<char>),
> {
    match split_coords(segs, is_api) {
        Some((c, _)) => Some(c),
        None => None,
    }
}

fn owner_repo_from_segments(segments: &Vec<String>, is_api: bool) -> (r: Option<GhRepoInfo>)
    ensures
        coords_view(r) == owner_repo_from(views(segments@), is_api),
{
    match split_url_segments(segments, is_api) {
        Some((info, _)) => Some(info),
        None => None,
    }
}

pub open spec fn dotdot() -> Seq<char> {
    seq!['.', '.']
}

/// A repository-relative path: non-empty, not absolute, no `..` component.
pub open spec fn safe_path(p: Seq<char>) -> bool {
    p.len() > 0 && p[0] != '/' && !split_on(p, '/').contains(dotdot())
}

/// Whether a `/`-separated path is safe to look up.
pub fn check_path(path: &str) -> (r: bool)
    ensures
        r == safe_path(path@),
{
    proof {
        reveal_strlit("..");
        assert(".."@ == dotdot());
    }
    if path.unicode_len() == 0 || path.get_char(0) == '/' {
        return false;
    }
    let parts = split_all(path, '/');
    let ghost pv = views(parts@);
    let mut i: usize = 0;
    while i < parts.len()
        invariant
            0 <= i <= parts@.len(),
            pv == views(parts@),
            pv == split_on(path@, '/'),
            ".."@ == dotdot(),
            forall|k: int| 0 <= k < i ==> pv[k] != dotdot(),
        decreases parts@.len() - i,
    {
        if str_eq(parts[i].as_str(), "..") {
            assert(pv[i as int] == dotdot());
            return false;
        }
        i = i + 1;
    }
    assert(!pv.contains(dotdot()));
    true
}

/// The sanitized segments joined by `/`; segments that sanitize to nothing are left out.
pub open spec fn joined_path(segs: Seq<Seq<char>>) -> Seq<char>
    decreases segs.len(),
{
    if segs.len() == 0 {
        Seq::empty()
    } else {
        let p = joined_path(segs.drop_last());
        match sanitized_query(segs.last()) {
            None => p,
            Some(t) => if p.len() == 0 {
                t
            } else {
                p.push('/') + t
            },
        }
    }
}

fn join_path(segments: &Vec<String>, from: usize) -> (r: String)
    requires
        from <= segments@.len(),
    ensures
        r@ == joined_path(views(segments@).subrange(from as int, segments@.len() as int)),
{
    let mut out = String::new();
    let mut i: usize = from;
    while i < segments.len()
        invariant
            from <= i <= segments@.len(),
            out@ == joined_path(views(segments@).subrange(from as int, i as int)),
        decreases segments@.len() - i,
    {
        let ghost pre = views(segments@).subrange(from as int, i as int);
        let ghost next = views(segments@).subrange(from as int, i + 1);
        assert(next.drop_last() == pre);
        assert(next.last() == segments@[i as int]@);
        match sanitize_query(segments[i].as_str()) {
            None => {},
            Some(t) => {
                if out.as_str().unicode_len() == 0 {
                    out = t;
                } else {
                    out.append("/");
                    proof {
                        reveal_strlit("/");
                    }
                    assert(out@ == joined_path(pre).push('/')) by {
                        assert("/"@ == seq!['/']);
                    }
                    out.append(t.as_str());
                }
            },
        }
        i = i + 1;
    }
    out
}

/// The query named by the route after the coordinates.
pub open spec fn route_query(rest: Seq<Seq<char>>) -> Option<QueryView> {
    if rest.len() == 0 {
        None
    } else if rest[0] == "commit"@ {
        if rest.len() >= 2 {
            match sanitized_query(rest[1]) {
                Some(h) => Some(QueryView::GitCommit(h)),
                None => None,
            }
        } else {
            None
        }
    } else if rest[0] == "issues"@ {
        if rest.len() >= 2 {
            match parse_u64_spec(rest[1]) {
                Some(n) => Some(QueryView::Issue(n)),
                None => None,
            }
        } else {
            None
        }
    } else if rest[0] == "pull"@ {
        if rest.len() >= 2 {
            match parse_u64_spec(rest[1]) {
                Some(n) => Some(QueryView::Pr(n)),
                None => None,
            }
        } else {
            None
        }
    } else if (rest[0] == "blob"@ || rest[0] == "tree"@) && rest.len() >= 2 {
        let p = joined_path(rest.subrange(2, rest.len() as int));
        if safe_path(p) {
            Some(QueryView::FilePath(p))
        } else {
            None
        }
    } else {
        None
    }
}

pub open spec fn parsed_from_segments(segs: Seq<Seq<char>>, is_api: bool) -> Option<
    (Option<(Seq<char>, Seq<char>)>, QueryView),
> {
    match split_coords(segs, is_api) {
        Some((c, k)) => match route_query(segs.subrange(k, segs.len() as int)) {
            Some(q) => Some((Some(c), q)),
            None => None,
        },
        None => None,
    }
}

pub open spec fn parsed_view(r: Option<ParsedInput>) -> Option<
    (Option<(Seq<char>, Seq<char>)>, QueryView),
> {
    match r {
        Some(p) => Some(p@),
        None => None,
    }
}

fn parsed_input_from_segments(segments: &Vec<String>, is_api: bool) -> (r: Option<ParsedInput>)
    ensures
        parsed_view(r) == parsed_from_segments(views(segments@), is_api),
{
    let (info, k) = match split_url_segments(segments, is_api) {
        Some(x) => x,
        None => return None,
    };
    let ghost rest = views(segments@).subrange(k as int, segments@.len() as int);
    let n = segments.len();
    if k >= n {
        return None;
    }
    assert(rest[0] == segments@[k as int]@);
    let head = segments[k].as_str();
    let has_second = k + 1 < n;
    if has_second {
        assert(rest[1] == segments@[k + 1]@);
    }
    let query = if str_eq(head, "commit") {
        if !has_second {
            return None;
        }
        match sanitize_query(segments[k + 1].as_str()) {
            Some(h) => Query::GitCommit(h),
            None => return None,
        }
    } else if str_eq(head, "issues") {
        if !has_second {
            return None;
        }
        match parse_u64(segments[k + 1].as_str()) {
            Some(num) => Query::Issue(num),
            None => return None,
        }
    } else if str_eq(head, "pull") {
        if !has_second {
            return None;
        }
        match parse_u64(segments[k + 1].as_str()) {
            Some(num) => Query::Pr(num),
            None => return None,
        }
    } else if (str_eq(head, "blob") || str_eq(head, "tree")) && has_second {
        let path = join_path(segments, k + 2);
        assert(views(segments@).subrange(k + 2, n as int) == rest.subrange(2, rest.len() as int));
        if !check_path(path.as_str()) {
            return None;
        }
        Query::FilePath(path)
    } else {
        return None;
    };
    Some(ParsedInput::new_with_remote(info, query))
}

/// `parse_github_url`, stated.
pub open spec fn github_url_spec(url: Seq<char>) -> Option<
    (Option<(Seq<char>, Seq<char>)>, QueryView),
> {
    let t = trimmed(url);
    if t.len() == 0 {
        None
    } else {
        match ssh_segments(t) {
            Some(segs) => parsed_from_segments(segs, false),
            None => match http_segments(t) {
                Some((segs, api)) => parsed_from_segments(segs, api),
                None => None,
            },
        }
    }
}

/// Parses a GitHub URL naming a commit, an issue, a pull request or a file:
/// `https://github.com/owner/repo/commit/<hash>`, `.../issues/<n>`,
/// `.../pull/<n>`, `.../{blob|tree}/<ref>/<path>`, the same without scheme,
/// with `www.`, on the API host, or as `git@github.com:owner/repo/...`.
pub fn parse_github_url(url: &str) -> (r: Option<ParsedInput>)
    ensures
        parsed_view(r) == github_url_spec(url@),
{
    let t = trim(url);
    if t.as_str().unicode_len() == 0 {
        return None;
    }
    match parse_git_ssh_segments(t.as_str()) {
        Some(segs) => parsed_input_from_segments(&segs, false),
        None => match parse_http_github_segments(t.as_str()) {
            Some((segs, api)) => parsed_input_from_segments(&segs, api),
            None => None,
        },
    }
}

/// `owner/repo` given directly.
pub open spec fn simple_owner_repo(t: Seq<char>) -> Option<(Seq<char>, Seq<char>)> {
    let parts = split_on(t, '/');
    if parts.len() == 2 {
        match (sanitized_segment(parts[0]), sanitized_segment(strip_git(parts[1]))) {
            (Some(o), Some(r)) => Some((o, r)),
            _ => None,
        }
    } else {
        None
    }
}

/// `parse_github_repo_url`, stated.
pub open spec fn github_repo_url_spec(url: Seq<char>) -> Option<(Seq<char>, Seq<char>)> {
    let t = trimmed(url);
    if t.len() == 0 {
        None
    } else {
        match ssh_segments(t) {
            Some(segs) => owner_repo_from(segs, false),
            None => match http_segments(t) {
                Some((segs, api)) => match owner_repo_from(segs, api) {
                    Some(c) => Some(c),
                    None => simple_owner_repo(t),
                },
                None => simple_owner_repo(t),
            },
        }
    }
}

/// Parses repository coordinates: `owner/repo`, a GitHub web, API or SSH URL
/// of the repository (`.git` suffixes ignored).
pub fn parse_github_repo_url(url: &str) -> (r: Option<GhRepoInfo>)
    ensures
        coords_view(r) == github_repo_url_spec(url@),
{
    let t = trim(url);
    if t.as_str().unicode_len() == 0 {
        return None;
    }
    match parse_git_ssh_segments(t.as_str()) {
        Some(segs) => {
            return owner_repo_from_segments(&segs, false);
        },
        None => {},
    }
    match parse_http_github_segments(t.as_str()) {
        Some((segs, api)) => {
            let c = owner_repo_from_segments(&segs, api);
            if c.is_some() {
                return c;
            }
        },
        None => {},
    }
    let parts = split_all(t.as_str(), '/');
    if parts.len() == 2 {
        let owner = sanitize_owner_repo_segment(parts[0].as_str());
        let repo_name = trim_git_suffix(parts[1].as_str());
        let repo = sanitize_owner_repo_segment(repo_name.as_str());
        match (owner, repo) {
            (Some(o), Some(r)) => Some(GhRepoInfo::new(o, r)),
            _ => None,
        }
    } else {
        None
    }
}


// ---------------------------------------------------------------------------
// Classification
// ---------------------------------------------------------------------------

/// A token whose shape suggests a file path: it holds a `/` or is `..`.
pub open spec fn path_shaped(t: Seq<char>) -> bool {
    t.contains('/') || t == dotdot()
}

/// Classification of a sanitized token that is not a URL.
pub open spec fn identifier_query(t: Seq<char>) -> Result<QueryView, InputError> {
    if t.len() > 0 && t[0] == '#' && parse_u64_spec(t.drop_first()) is Some {
        Ok(QueryView::IssueOrPr(parse_u64_spec(t.drop_first())->0))
    } else if path_shaped(t) && !safe_path(t) {
        Err(InputError::SecurityRejection(RejectReason::UnsafePath))
    } else {
        Ok(QueryView::Unknown(t))
    }
}

pub open spec fn query_result_view(r: Result<Query, InputError>) -> Result<QueryView, InputError> {
    match r {
        Ok(q) => Ok(q@),
        Err(e) => Err(e),
    }
}

fn classify_identifier(t: &str) -> (r: Result<Query, InputError>)
    ensures
        query_result_view(r) == identifier_query(t@),
{
    let n = t.unicode_len();
    if n > 0 && t.get_char(0) == '#' {
        let rest = t.substring_char(1, n);
        assert(rest@ == t@.drop_first());
        match parse_u64(rest) {
            Some(num) => {
                return Ok(Query::IssueOrPr(num));
            },
            None => {},
        }
    }
    proof {
        reveal_strlit("..");
        assert(".."@ == dotdot());
    }
    let slash = find_char(t, '/');
    proof {
        lemma_idx_from_bounds(t@, '/', 0);
        if t@.contains('/') {
            let w = choose|k: int| 0 <= k < t@.len() && t@[k] == '/';
            assert(slash <= w);
        }
    }
    let shaped = slash < n || str_eq(t, "..");
    if shaped && !check_path(t) {
        return Err(InputError::SecurityRejection(RejectReason::UnsafePath));
    }
    Ok(Query::Unknown(t.to_owned()))
}

/// Whether a sanitized token is meant as a URL: it has a scheme, starts with
/// `//` or `git@`, or starts with a GitHub host name.
pub open spec fn looks_like_url(t: Seq<char>) -> bool {
    ||| exists|i: int| occurs_at(t, "://"@, i)
    ||| is_prefix("//"@, t)
    ||| is_prefix("git@"@, t)
    ||| ascii_lower_starts(t, "github.com/"@)
    ||| ascii_lower_starts(t, "www.github.com/"@)
    ||| ascii_lower_starts(t, "api.github.com/"@)
}

fn is_url_like(t: &str) -> (r: bool)
    ensures
        r == looks_like_url(t@),
{
    contains_str(t, "://") || starts_with(t, "//") || starts_with(t, "git@") || lower_starts(
        t,
        "github.com/",
    ) || lower_starts(t, "www.github.com/") || lower_starts(t, "api.github.com/")
}

/// A URL of another forge: an SCP-like remote of another host, or a URL whose
/// host is not GitHub's.
pub open spec fn foreign_url(t: Seq<char>) -> bool {
    ||| (is_prefix("git@"@, t) && !is_prefix("git@github.com:"@, t))
    ||| (with_https_fallback(t) matches Some((Some(h), _)) && host_kind(h)
        == GhUrlHostType::Other)
}

/// The error for a URL that could not be read as GitHub coordinates.
pub open spec fn url_error(t: Seq<char>) -> InputError {
    if foreign_url(t) {
        InputError::NotGitHubUrl
    } else {
        InputError::MalformedGitHubUrl
    }
}

fn url_error_of(t: &str) -> (r: InputError)
    ensures
        r == url_error(t@),
{
    if starts_with(t, "git@") && !starts_with(t, "git@github.com:") {
        return InputError::NotGitHubUrl;
    }
    match parse_with_https_fallback(t) {
        Some((Some(h), _)) => {
            match is_allowed_github_host(h.as_str()) {
                GhUrlHostType::Other => InputError::NotGitHubUrl,
                _ => InputError::MalformedGitHubUrl,
            }
        },
        _ => InputError::MalformedGitHubUrl,
    }
}

pub open spec fn parse_result_view(r: Result<ParsedInput, InputError>) -> Result<
    (Option<(Seq<char>, Seq<char>)>, QueryView),
    InputError,
> {
    match r {
        Ok(p) => Ok(p@),
        Err(e) => Err(e),
    }
}

/// What `parse` returns, by the classification order: sanitization first,
/// then the repository flag, then URLs, then plain identifiers.
pub open spec fn parse_spec(raw: Seq<char>, repo_flag: Option<Seq<char>>) -> Result<
    (Option<(Seq<char>, Seq<char>)>, QueryView),
    InputError,
> {
    let t = trimmed(raw);
    if t.len() == 0 {
        Err(InputError::EmptyInput)
    } else if has_control(raw) {
        Err(InputError::SecurityRejection(RejectReason::ControlCharacter))
    } else {
        match repo_flag {
            Some(f) => match github_repo_url_spec(f) {
                None => Err(url_error(trimmed(f))),
                Some(c) => match identifier_query(t) {
                    Ok(q) => Ok((Some(c), q)),
                    Err(e) => Err(e),
                },
            },
            None => if looks_like_url(t) {
                match github_url_spec(t) {
                    Some(p) => Ok(p),
                    None => Err(url_error(t)),
                }
            } else {
                match identifier_query(t) {
                    Ok(q) => Ok((None, q)),
                    Err(e) => Err(e),
                }
            },
        }
    }
}

pub open spec fn flag_view(f: Option<&str>) -> Option<Seq<char>> {
    match f {
        Some(s) => Some(s@),
        None => None,
    }
}

/// Classifies the raw argument, with the repository flag if one was given.
pub fn parse(raw: &str, repo_flag: Option<&str>) -> (r: Result<ParsedInput, InputError>)
    ensures
        parse_result_view(r) == parse_spec(raw@, flag_view(repo_flag)),
{
    let t = trim(raw);
    if t.as_str().unicode_len() == 0 {
        return Err(InputError::EmptyInput);
    }
    if contains_control(raw) {
        return Err(InputError::SecurityRejection(RejectReason::ControlCharacter));
    }
    match repo_flag {
        Some(f) => {
            let info = match parse_github_repo_url(f) {
                Some(i) => i,
                None => {
                    let ft = trim(f);
                    return Err(url_error_of(ft.as_str()));
                },
            };
            match classify_identifier(t.as_str()) {
                Ok(q) => Ok(ParsedInput::new_with_remote(info, q)),
                Err(e) => Err(e),
            }
        },
        None => {
            if is_url_like(t.as_str()) {
                match parse_github_url(t.as_str()) {
                    Some(p) => Ok(p),
                    None => Err(url_error_of(t.as_str())),
                }
            } else {
                match classify_identifier(t.as_str()) {
                    Ok(q) => Ok(ParsedInput::new_local_query(q)),
                    Err(e) => Err(e),
                }
            }
        },
    }
}

pub open spec fn ok_view(r: Result<(Option<(Seq<char>, Seq<char>)>, QueryView), InputError>) -> Option<
    (Option<(Seq<char>, Seq<char>)>, QueryView),
> {
    match r {
        Ok(p) => Some(p),
        Err(_) => None,
    }
}

/// `parse`, keeping only success.
pub fn try_parse_input(raw_input: &str, repo_url: Option<&str>) -> (r: Option<ParsedInput>)
    ensures
        parsed_view(r) == ok_view(parse_spec(raw_input@, flag_view(repo_url))),
{
    match parse(raw_input, repo_url) {
        Ok(p) => Some(p),
        Err(_) => None,
    }
}

pub open spec fn local_query_spec(raw: Seq<char>) -> Option<QueryView> {
    match sanitized_query(raw) {
        None => None,
        Some(t) => match identifier_query(t) {
            Ok(q) => Some(q),
            Err(_) => None,
        },
    }
}

pub open spec fn query_view_opt(r: Option<Query>) -> Option<QueryView> {
    match r {
        Some(q) => Some(q@),
        None => None,
    }
}

/// Classifies a plain (non-URL) token.
pub fn try_parse_input_str(raw_input: &str) -> (r: Option<Query>)
    ensures
        query_view_opt(r) == local_query_spec(raw_input@),
{
    let t = match sanitize_query(raw_input) {
        Some(t) => t,
        None => return None,
    };
    match classify_identifier(t.as_str()) {
        Ok(q) => Some(q),
        Err(_) => None,
    }
}

pub open spec fn digit_char(d: nat) -> char {
    if d == 0 {
        '0'
    } else if d == 1 {
        '1'
    } else if d == 2 {
        '2'
    } else if d == 3 {
        '3'
    } else if d == 4 {
        '4'
    } else if d == 5 {
        '5'
    } else if d == 6 {
        '6'
    } else if d == 7 {
        '7'
    } else if d == 8 {
        '8'
    } else {
        '9'
    }
}

/// Decimal digits of `n`, without sign or leading zeros.
pub open spec fn decimal_text(n: nat) -> Seq<char>
    decreases n,
{
    if n < 10 {
        seq![digit_char(n)]
    } else {
        decimal_text(n / 10).push(digit_char(n % 10))
    }
}

/// Relies on std's `Display` for `u64` (through `to_string`): decimal digits,
/// no sign, no leading zeros.
#[verifier::external_body]
fn u64_text(n: u64) -> (r: String)
    ensures
        r@ == decimal_text(n as nat),
{
    n.to_string()
}

/// The text a query stands for: `#<n>` for numbers, else the hash, path or token.
pub open spec fn query_text(q: QueryView) -> Seq<char> {
    match q {
        QueryView::GitCommit(h) => h,
        QueryView::IssueOrPr(n) => seq!['#'] + decimal_text(n as nat),
        QueryView::Issue(n) => seq!['#'] + decimal_text(n as nat),
        QueryView::Pr(n) => seq!['#'] + decimal_text(n as nat),
        QueryView::FilePath(p) => p,
        QueryView::Unknown(s) => s,
    }
}

impl Query {
    pub fn as_text(&self) -> (r: String)
        ensures
            r@ == query_text(self@),
    {
        proof {
            reveal_strlit("#");
            assert("#"@ == seq!['#']);
        }
        match self {
            Query::GitCommit(h) => h.clone(),
            Query::IssueOrPr(n) | Query::Issue(n) | Query::Pr(n) => {
                let d = u64_text(*n);
                "#".to_owned().concat(d.as_str())
            },
            Query::FilePath(p) => p.clone(),
            Query::Unknown(s) => s.clone(),
        }
    }
}

impl ParsedInput {
    /// The query as text (`#<n>` for issue and pull request numbers).
    pub fn query_as_string(&self) -> (r: String)
        ensures
            r@ == query_text(self.query@),
    {
        self.query.as_text()
    }
}

/// The command line: the thing to identify and the optional repository.
#[derive(Debug, Clone)]
pub struct Cli {
    pub input: Option<String>,
    pub repo: Option<String>,
    pub help: Option<bool>,
}

pub open spec fn opt_view(s: Option<String>) -> Option<Seq<char>> {
    match s {
        Some(x) => Some(x@),
        None => None,
    }
}

impl Cli {
    /// Classifies the input against the repository flag; `None` without input
    /// or when the input is refused.
    pub fn parse_input(&self) -> (r: Option<ParsedInput>)
        ensures
            match self.input {
                None => r is None,
                Some(i) => parsed_view(r) == ok_view(parse_spec(i@, opt_view(self.repo))),
            },
    {
        let input = match &self.input {
            Some(i) => i,
            None => return None,
        };
        match &self.repo {
            Some(f) => try_parse_input(input.as_str(), Some(f.as_str())),
            None => try_parse_input(input.as_str(), None),
        }
    }
}

// ---------------------------------------------------------------------------
// Laws
// ---------------------------------------------------------------------------

/// Sanitization is total: an input that is empty after trimming is refused
/// as empty; any other input holding a control character is refused for
/// safety, whatever the repository flag.
pub proof fn lemma_sanitization_total(raw: Seq<char>, flag: Option<Seq<char>>)
    ensures
        trimmed(raw).len() == 0 ==> parse_spec(raw, flag) == Err::<
            (Option<(Seq<char>, Seq<char>)>, QueryView),
            InputError,
        >(InputError::EmptyInput),
        trimmed(raw).len() > 0 && has_control(raw) ==> parse_spec(raw, flag) == Err::<
            (Option<(Seq<char>, Seq<char>)>, QueryView),
            InputError,
        >(InputError::SecurityRejection(RejectReason::ControlCharacter)),
{
}

/// Every path that parsing hands out, from a URL or as a path-shaped token,
/// is non-empty, relative, and free of `..` components.
pub proof fn lemma_parsed_paths_safe(raw: Seq<char>, flag: Option<Seq<char>>)
    ensures
        parse_spec(raw, flag) matches Ok((_, QueryView::FilePath(p))) ==> safe_path(p),
        parse_spec(raw, flag) matches Ok((_, QueryView::Unknown(t))) ==> (path_shaped(t)
            ==> safe_path(t)),
{
}

proof fn lemma_trimmed_noop(s: Seq<char>)
    requires
        forall|i: int| 0 <= i < s.len() ==> !is_ws(#[trigger] s[i]),
    ensures
        trimmed(s) == s,
{
    assert(ws_skip(s, 0) == 0);
    assert(ws_back(s, 0, s.len() as int) == s.len());
    assert(s.subrange(0, s.len() as int) == s);
}

proof fn lemma_fields_append_prefix(a: Seq<char>, b: Seq<char>, c: char, k: int)
    requires
        0 <= k <= b.len(),
        forall|i: int| 0 <= i < b.len() ==> b[i] != c,
    ensures
        fields_state(a.push(c) + b.subrange(0, k), c) == (fields(a, c), b.subrange(0, k)),
    decreases k,
{
    if k > 0 {
        lemma_fields_append_prefix(a, b, c, k - 1);
        assert((a.push(c) + b.subrange(0, k)).drop_last() == a.push(c) + b.subrange(0, k - 1));
        assert(b.subrange(0, k - 1).push(b[k - 1]) == b.subrange(0, k));
    } else {
        assert(a.push(c) + b.subrange(0, 0) == a.push(c));
        assert(a.push(c).drop_last() == a);
    }
}

/// Appending a separator and a non-empty piece without separators adds that
/// piece to the fields.
proof fn lemma_fields_append(a: Seq<char>, b: Seq<char>, c: char)
    requires
        b.len() > 0,
        forall|i: int| 0 <= i < b.len() ==> b[i] != c,
    ensures
        fields(a.push(c) + b, c) == fields(a, c).push(b),
{
    lemma_fields_append_prefix(a, b, c, b.len() as int);
    assert(b.subrange(0, b.len() as int) == b);
}

/// The path of a commit URL splits into owner, repository, `commit` and hash.
proof fn lemma_commit_path_fields(owner: Seq<char>, repo: Seq<char>, hash: Seq<char>)
    requires
        valid_segment(owner),
        valid_segment(repo),
        hash.len() > 0,
        forall|i: int| 0 <= i < hash.len() ==> is_ascii_alnum(#[trigger] hash[i]),
    ensures
        fields("/"@ + owner + "/"@ + repo + "/commit/"@ + hash, '/') == seq![
            owner,
            repo,
            "commit"@,
            hash,
        ],
{
    reveal_strlit("/");
    reveal_strlit("/commit/");
    reveal_strlit("commit");
    let e = Seq::<char>::empty();
    let commit_word = "commit"@;
    assert(forall|i: int| 0 <= i < owner.len() ==> owner[i] != '/') by {
        assert forall|i: int| 0 <= i < owner.len() implies owner[i] != '/' by {
            assert(is_segment_char(owner[i]));
        }
    }
    assert(forall|i: int| 0 <= i < repo.len() ==> repo[i] != '/') by {
        assert forall|i: int| 0 <= i < repo.len() implies repo[i] != '/' by {
            assert(is_segment_char(repo[i]));
        }
    }
    assert(forall|i: int| 0 <= i < hash.len() ==> hash[i] != '/') by {
        assert forall|i: int| 0 <= i < hash.len() implies hash[i] != '/' by {
            assert(is_ascii_alnum(hash[i]));
        }
    }
    assert(fields(e, '/') == Seq::<Seq<char>>::empty());
    let upto_owner = "/"@ + owner;
    assert(upto_owner == e.push('/') + owner);
    lemma_fields_append(e, owner, '/');
    let upto_repo = upto_owner + "/"@ + repo;
    assert(upto_repo == upto_owner.push('/') + repo);
    lemma_fields_append(upto_owner, repo, '/');
    let upto_word = upto_repo + "/"@ + commit_word;
    assert(upto_word == upto_repo.push('/') + commit_word);
    lemma_fields_append(upto_repo, commit_word, '/');
    let whole = upto_word + "/"@ + hash;
    assert(whole == upto_word.push('/') + hash);
    lemma_fields_append(upto_word, hash, '/');
    assert(upto_repo + "/commit/"@ + hash == whole);
    assert(Seq::<Seq<char>>::empty().push(owner).push(repo).push(commit_word).push(hash) == seq![
        owner,
        repo,
        commit_word,
        hash,
    ]);
}

/// Round trip of a canonical commit URL: when the URL parser reports the
/// host `github.com` and the path `/<owner>/<repo>/commit/<hash>`, parsing
/// yields those coordinates and that hash, and the commit link built from
/// them is `https://github.com` followed by that path with every segment
/// percent-encoded.
pub proof fn lemma_commit_url_round_trip(url: Seq<char>, owner: Seq<char>, repo: Seq<char>, hash: Seq<char>)
    requires
        valid_segment(owner),
        valid_segment(repo),
        !is_suffix(git_suffix(), repo),
        hash.len() > 0,
        forall|i: int| 0 <= i < hash.len() ==> is_ascii_alnum(#[trigger] hash[i]),
        trimmed(url).len() > 0,
        !is_prefix("git@github.com:"@, trimmed(url)),
        url_host_path(trimmed(url)) == Some(
            (Some("github.com"@), "/"@ + owner + "/"@ + repo + "/commit/"@ + hash),
        ),
    ensures
        github_url_spec(url) == Some((Some((owner, repo)), QueryView::GitCommit(hash))),
        crate::links::repo_link(owner, repo, "/commit/"@, hash) == crate::links::github_root()
            + crate::links::pct_encoded(owner) + "/"@ + crate::links::pct_encoded(repo)
            + "/commit/"@ + crate::links::pct_encoded(hash),
{
    reveal_strlit("github.com");
    reveal_strlit("www.");
    let h = "github.com"@;
    assert(!is_prefix(www_prefix(), h)) by {
        assert(h[0] == 'g');
        assert(h.subrange(0, 4)[0] == 'g');
    }
    assert(strip_www(h) == h);
    assert(ascii_lower_is(h, h));
    assert(host_kind(h) == GhUrlHostType::Github);
    lemma_commit_path_fields(owner, repo, hash);
    lemma_commit_route_round_trip(owner, repo, hash);
}

/// A commit URL's path segments parse to its coordinates and hash, and the
/// commit link built from them is the URL again with every segment
/// percent-encoded.
pub proof fn lemma_commit_route_round_trip(owner: Seq<char>, repo: Seq<char>, hash: Seq<char>)
    requires
        valid_segment(owner),
        valid_segment(repo),
        !is_suffix(git_suffix(), repo),
        hash.len() > 0,
        forall|i: int| 0 <= i < hash.len() ==> is_ascii_alnum(#[trigger] hash[i]),
    ensures
        parsed_from_segments(seq![owner, repo, "commit"@, hash], false) == Some(
            (Some((owner, repo)), QueryView::GitCommit(hash)),
        ),
        crate::links::repo_link(owner, repo, "/commit/"@, hash) == crate::links::github_root()
            + crate::links::pct_encoded(owner) + "/"@ + crate::links::pct_encoded(repo)
            + "/commit/"@ + crate::links::pct_encoded(hash),
{
    assert forall|i: int| 0 <= i < owner.len() implies !is_ws(#[trigger] owner[i]) by {
        assert(is_segment_char(owner[i]));
    }
    assert forall|i: int| 0 <= i < repo.len() implies !is_ws(#[trigger] repo[i]) by {
        assert(is_segment_char(repo[i]));
    }
    assert forall|i: int| 0 <= i < hash.len() implies !is_ws(#[trigger] hash[i]) by {
        assert(is_ascii_alnum(hash[i]));
    }
    lemma_trimmed_noop(owner);
    lemma_trimmed_noop(repo);
    lemma_trimmed_noop(hash);
    assert(strip_git(repo) == repo);
    assert(!has_control(hash)) by {
        if has_control(hash) {
            let i = choose|i: int| 0 <= i < hash.len() && #[trigger] crate::text::is_control(hash[i]);
            assert(is_ascii_alnum(hash[i]));
        }
    }
    let segs = seq![owner, repo, "commit"@, hash];
    assert(segs.subrange(2, 4) == seq!["commit"@, hash]);
}

} // verus!
