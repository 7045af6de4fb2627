//! Commit records, their enrichment with links and logins, and the choice of
//! the commits that touched a file.

use vstd::prelude::*;
use vstd::string::*;

use crate::input::{find_char, idx_from, GhRepoInfo};
use crate::links::{author_link_spec, author_url_from_email, commit_url, repo_link};
use crate::text::{count_lines, line_count};

verus! {

/// Length of an abbreviated commit hash.
pub const SHORT_HASH_LEN: usize = 7;

/// A commit as shown to the user.
#[derive(Debug, Clone, PartialEq, Eq)]
pub struct CommitInfo {
    pub hash: String,
    pub short_hash: String,
    /// First line of the message.
    pub message: String,
    /// Number of lines of the whole message.
    pub message_lines: usize,
    pub author_name: String,
    pub author_email: String,
    pub author_login: Option<String>,
    pub author_url: Option<String>,
    pub commit_url: Option<String>,
    /// Author date, seconds since the Unix epoch (UTC).
    pub timestamp: i64,
}

pub struct CommitView {
    pub hash: Seq<char>,
    pub short_hash: Seq<char>,
    pub message: Seq<char>,
    pub message_lines: usize,
    pub author_name: Seq<char>,
    pub author_email: Seq<char>,
    pub author_login: Option<Seq<char>>,
    pub author_url: Option<Seq<char>>,
    pub commit_url: Option<Seq<char>>,
    pub timestamp: i64,
}

impl View for CommitInfo {
    type V = CommitView;

    open spec fn view(&self) -> CommitView {
        CommitView {
            hash: self.hash@,
            short_hash: self.short_hash@,
            message: self.message@,
            message_lines: self.message_lines,
            author_name: self.author_name@,
            author_email: self.author_email@,
            author_login: self.author_login.deep_view(),
            author_url: self.author_url.deep_view(),
            commit_url: self.commit_url.deep_view(),
            timestamp: self.timestamp,
        }
    }
}

/// The abbreviation of a hash: its first seven characters (all of a shorter one).
pub open spec fn short_of(hash: Seq<char>) -> Seq<char> {
    if hash.len() <= SHORT_HASH_LEN {
        hash
    } else {
        hash.subrange(0, SHORT_HASH_LEN as int)
    }
}

/// The first line of a message, as `str::lines` gives it (a `\r` before the
/// first `\n` dropped; empty for an empty message).
pub open spec fn first_line(m: Seq<char>) -> Seq<char> {
    let k = idx_from(m, '\n', 0);
    if k < m.len() && k > 0 && m[k - 1] == '\r' {
        m.subrange(0, k - 1)
    } else {
        m.subrange(0, k)
    }
}

pub fn first_line_of(m: &str) -> (r: String)
    ensures
        r@ == first_line(m@),
{
    let n = m.unicode_len();
    let k = find_char(m, '\n');
    if k < n && k > 0 && m.get_char(k - 1) == '\r' {
        m.substring_char(0, k - 1).to_owned()
    } else {
        m.substring_char(0, k).to_owned()
    }
}

pub fn short_hash_of(hash: &str) -> (r: String)
    ensures
        r@ == short_of(hash@),
{
    let n = hash.unicode_len();
    if n <= SHORT_HASH_LEN {
        hash.to_owned()
    } else {
        hash.substring_char(0, SHORT_HASH_LEN).to_owned()
    }
}

impl CommitInfo {
    /// The short hash is the abbreviation of the hash.
    pub open spec fn wf(&self) -> bool {
        self.short_hash@ == short_of(self.hash@)
    }

    /// A commit from what a repository or the API reports: the message is
    /// reduced to its first line and its line count; no links yet.
    pub fn from_parts(
        hash: String,
        full_message: &str,
        author_name: String,
        author_email: String,
        timestamp: i64,
    ) -> (r: CommitInfo)
        ensures
            r.wf(),
            r@.hash == hash@,
            r@.message == first_line(full_message@),
            r@.message_lines == line_count(full_message@),
            r@.author_name == author_name@,
            r@.author_email == author_email@,
            r@.author_login is None,
            r@.author_url is None,
            r@.commit_url is None,
            r@.timestamp == timestamp,
    {
        let short_hash = short_hash_of(hash.as_str());
        CommitInfo {
            hash,
            short_hash,
            message: first_line_of(full_message),
            message_lines: count_lines(full_message),
            author_name,
            author_email,
            author_login: None,
            author_url: None,
            commit_url: None,
            timestamp,
        }
    }
}

/// Links and login a backend knows for a commit.
#[derive(Debug, Clone, PartialEq, Eq)]
pub struct Enrichment {
    pub commit_url: Option<String>,
    pub author_login: Option<String>,
    pub author_url: Option<String>,
}

pub struct EnrichmentView {
    pub commit_url: Option<Seq<char>>,
    pub author_login: Option<Seq<char>>,
    pub author_url: Option<Seq<char>>,
}

impl View for Enrichment {
    type V = EnrichmentView;

    open spec fn view(&self) -> EnrichmentView {
        EnrichmentView {
            commit_url: self.commit_url.deep_view(),
            author_login: self.author_login.deep_view(),
            author_url: self.author_url.deep_view(),
        }
    }
}

/// A present value is kept; a missing one is taken from `b`.
pub open spec fn fill(a: Option<Seq<char>>, b: Option<Seq<char>>) -> Option<Seq<char>> {
    if a is Some {
        a
    } else {
        b
    }
}

/// The commit with its missing links and login filled in.
pub open spec fn enriched(c: CommitView, e: EnrichmentView) -> CommitView {
    CommitView {
        commit_url: fill(c.commit_url, e.commit_url),
        author_login: fill(c.author_login, e.author_login),
        author_url: fill(c.author_url, e.author_url),
        ..c
    }
}

fn fill_in(a: Option<String>, b: &Option<String>) -> (r: Option<String>)
    ensures
        r.deep_view() == fill(a.deep_view(), b.deep_view()),
{
    match a {
        Some(x) => Some(x),
        None => match b {
            Some(y) => Some(y.clone()),
            None => None,
        },
    }
}

/// Fills in what the commit lacks; never overwrites a link or login, never
/// touches hash, message or date.
pub fn enrich_commit(commit: CommitInfo, extra: &Enrichment) -> (r: CommitInfo)
    ensures
        r@ == enriched(commit@, extra@),
        commit.wf() ==> r.wf(),
{
    let CommitInfo {
        hash,
        short_hash,
        message,
        message_lines,
        author_name,
        author_email,
        author_login,
        author_url,
        commit_url,
        timestamp,
    } = commit;
    CommitInfo {
        hash,
        short_hash,
        message,
        message_lines,
        author_name,
        author_email,
        author_login: fill_in(author_login, &extra.author_login),
        author_url: fill_in(author_url, &extra.author_url),
        commit_url: fill_in(commit_url, &extra.commit_url),
        timestamp,
    }
}

/// Enriching twice with the same information is enriching once.
pub proof fn lemma_enrich_idempotent(c: CommitView, e: EnrichmentView)
    ensures
        enriched(enriched(c, e), e) == enriched(c, e),
{
}

/// Enrichment keeps every link or login already present, and the hash, the
/// message and the date.
pub proof fn lemma_enrich_preserves(c: CommitView, e: EnrichmentView)
    ensures
        enriched(c, e).hash == c.hash,
        enriched(c, e).message == c.message,
        enriched(c, e).timestamp == c.timestamp,
        c.commit_url is Some ==> enriched(c, e).commit_url == c.commit_url,
        c.author_login is Some ==> enriched(c, e).author_login == c.author_login,
        c.author_url is Some ==> enriched(c, e).author_url == c.author_url,
{
}

pub open spec fn coords_link(coords: Option<(Seq<char>, Seq<char>)>, hash: Seq<char>) -> Option<
    Seq<char>,
> {
    match coords {
        Some((o, r)) => Some(repo_link(o, r, "/commit/"@, hash)),
        None => None,
    }
}

/// What a local repository knows: the commit link when the repository is on
/// GitHub, and the profile of a no-reply author address.
pub fn local_enrichment(coords: Option<&GhRepoInfo>, commit: &CommitInfo) -> (r: Enrichment)
    ensures
        r@.commit_url == coords_link(
            match coords {
                Some(c) => Some(c@),
                None => None,
            },
            commit.hash@,
        ),
        r@.author_url == author_link_spec(commit.author_email@),
        r@.author_login is None,
{
    let url = match coords {
        Some(c) => Some(commit_url(c, commit.hash.as_str())),
        None => None,
    };
    Enrichment {
        commit_url: url,
        author_login: None,
        author_url: author_url_from_email(commit.author_email.as_str()),
    }
}

/// Whether a commit touches a path, from the path's tree entry (object id
/// and file mode) in the commit and in each parent: the commit holds the path
/// and, unless it is a root, no parent holds the same entry.
pub open spec fn touches(entry: Option<(Seq<char>, u32)>, parents: Seq<Option<(Seq<char>, u32)>>) -> bool {
    entry is Some && forall|i: int| 0 <= i < parents.len() ==> parents[i] != entry
}

pub open spec fn entry_view(e: Option<(String, u32)>) -> Option<(Seq<char>, u32)> {
    match e {
        Some((id, mode)) => Some((id@, mode)),
        None => None,
    }
}

pub open spec fn entries_view(v: Seq<Option<(String, u32)>>) -> Seq<Option<(Seq<char>, u32)>> {
    v.map_values(|e: Option<(String, u32)>| entry_view(e))
}

pub fn commit_touches_file(entry: &Option<(String, u32)>, parents: &Vec<Option<(String, u32)>>) -> (r:
    bool)
    ensures
        r == touches(entry_view(*entry), entries_view(parents@)),
{
    let (id, mode) = match entry {
        Some(e) => (e.0.as_str(), e.1),
        None => return false,
    };
    let mut i: usize = 0;
    while i < parents.len()
        invariant
            0 <= i <= parents@.len(),
            entry_view(*entry) == Some((id@, mode)),
            forall|k: int|
                0 <= k < i ==> entries_view(parents@)[k] != entry_view(*entry),
        decreases parents@.len() - i,
    {
        match &parents[i] {
            Some(p) => {
                if p.1 == mode && crate::text::str_eq(p.0.as_str(), id) {
                    assert(entries_view(parents@)[i as int] == entry_view(*entry));
                    return false;
                }
            },
            None => {},
        }
        i = i + 1;
    }
    true
}

/// Most earlier commits listed beside the last one that touched a file.
pub const PREVIOUS_AUTHORS: usize = 4;

/// Indices (in history order) of the touching commits.
pub open spec fn touching(t: Seq<bool>, from: int) -> Seq<int>
    decreases t.len() - from,
{
    if from < 0 || from >= t.len() {
        Seq::empty()
    } else if t[from] {
        seq![from] + touching(t, from + 1)
    } else {
        touching(t, from + 1)
    }
}

pub open spec fn take_at_most(s: Seq<int>, n: int) -> Seq<int> {
    if s.len() <= n {
        s
    } else {
        s.subrange(0, n)
    }
}

/// From the history walked from HEAD (newest first), which commits touched
/// the file: the first touching one as the last change, and up to
/// `PREVIOUS_AUTHORS` touching ones after it.
pub open spec fn file_history_spec(t: Seq<bool>) -> Option<(int, Seq<int>)> {
    let all = touching(t, 0);
    if all.len() == 0 {
        None
    } else {
        Some((all[0], take_at_most(all.drop_first(), PREVIOUS_AUTHORS as int)))
    }
}

pub open spec fn usize_seq_view(v: Seq<usize>) -> Seq<int> {
    v.map_values(|x: usize| x as int)
}

pub fn file_history(touched: &Vec<bool>) -> (r: Option<(usize, Vec<usize>)>)
    ensures
        match r {
            Some((last, prev)) => file_history_spec(touched@) == Some(
                (last as int, usize_seq_view(prev@)),
            ),
            None => file_history_spec(touched@) is None,
        },
{
    let n = touched.len();
    let mut i: usize = 0;
    while i < n && !touched[i]
        invariant
            0 <= i <= n,
            n == touched@.len(),
            touching(touched@, i as int) == touching(touched@, 0),
        decreases n - i,
    {
        i = i + 1;
    }
    if i == n {
        return None;
    }
    let last = i;
    let ghost rest = touching(touched@, last + 1);
    assert(touching(touched@, 0) == seq![last as int] + rest);
    assert(touching(touched@, 0).drop_first() == rest);
    let mut prev: Vec<usize> = Vec::new();
    let mut j: usize = last + 1;
    while j < n && prev.len() < PREVIOUS_AUTHORS
        invariant
            last < j <= n,
            n == touched@.len(),
            prev@.len() <= PREVIOUS_AUTHORS,
            rest == touching(touched@, last + 1),
            usize_seq_view(prev@) + touching(touched@, j as int) == rest,
        decreases n - j,
    {
        if touched[j] {
            proof {
                assert(touching(touched@, j as int) == seq![j as int] + touching(touched@, j + 1));
                assert(usize_seq_view(prev@.push(j)) == usize_seq_view(prev@).push(j as int));
                assert(usize_seq_view(prev@).push(j as int) + touching(touched@, j + 1)
                    == usize_seq_view(prev@) + (seq![j as int] + touching(touched@, j + 1)));
            }
            prev.push(j);
        }
        j = j + 1;
    }
    proof {
        let pv = usize_seq_view(prev@);
        if prev@.len() < PREVIOUS_AUTHORS {
            assert(touching(touched@, j as int) == Seq::<int>::empty());
            assert(pv + Seq::<int>::empty() == pv);
        } else {
            assert(rest.subrange(0, PREVIOUS_AUTHORS as int) == pv);
        }
    }
    Some((last, prev))
}

/// A file and who changed it.
#[derive(Debug, Clone, PartialEq, Eq)]
pub struct FileInfo {
    pub path: String,
    pub last_commit: CommitInfo,
    /// (short hash, author name, author email) of earlier touching commits.
    pub previous_authors: Vec<(String, String, String)>,
}

} // verus!
