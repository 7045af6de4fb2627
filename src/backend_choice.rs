//! Which backend serves a run: local git, the GitHub API, or both, with the
//! notice that explains a degraded choice.

use vstd::prelude::*;
use vstd::string::*;

use crate::errors::{Notice, WtgError};
use crate::input::{coords_view, github_repo_url_spec, parse_github_repo_url, GhRepoInfo};
use crate::text::{contains_str, occurs_at, str_eq};

verus! {

/// The forge a remote URL points at.
#[derive(Debug, Clone, Copy, PartialEq, Eq, Structural)]
pub enum HostKind {
    GitHub,
    GitLab,
    Bitbucket,
    Unknown,
}

pub open spec fn mentions(u: Seq<char>, w: Seq<char>) -> bool {
    exists|i: int| occurs_at(u, w, i)
}

pub open spec fn host_of(url: Seq<char>) -> HostKind {
    if mentions(url, "github"@) {
        HostKind::GitHub
    } else if mentions(url, "gitlab"@) {
        HostKind::GitLab
    } else if mentions(url, "bitbucket"@) {
        HostKind::Bitbucket
    } else {
        HostKind::Unknown
    }
}

pub fn remote_host_kind(url: &str) -> (r: HostKind)
    ensures
        r == host_of(url@),
{
    if contains_str(url, "github") {
        HostKind::GitHub
    } else if contains_str(url, "gitlab") {
        HostKind::GitLab
    } else if contains_str(url, "bitbucket") {
        HostKind::Bitbucket
    } else {
        HostKind::Unknown
    }
}

/// A configured remote.
#[derive(Debug, Clone, PartialEq, Eq)]
pub struct Remote {
    pub name: String,
    pub url: String,
}

/// Remote name preference: `upstream`, then `origin`, then the others.
pub open spec fn name_rank(name: Seq<char>) -> int {
    if name == "upstream"@ {
        0
    } else if name == "origin"@ {
        1
    } else {
        2
    }
}

/// Remote preference: GitHub-hosted first, then by name.
pub open spec fn remote_key(r: Remote) -> (int, int) {
    (if host_of(r.url@) == HostKind::GitHub { 0 } else { 1 }, name_rank(r.name@))
}

pub open spec fn before(a: (int, int), b: (int, int)) -> bool {
    a.0 < b.0 || (a.0 == b.0 && a.1 < b.1)
}

/// `k` is the first of the most preferred remotes.
pub open spec fn is_best_remote(rs: Seq<Remote>, k: int) -> bool {
    &&& 0 <= k < rs.len()
    &&& forall|j: int| 0 <= j < rs.len() ==> !before(remote_key(#[trigger] rs[j]), remote_key(rs[k]))
    &&& forall|j: int| 0 <= j < k ==> before(remote_key(rs[k]), remote_key(#[trigger] rs[j]))
}

fn key_of(r: &Remote) -> (k: (u8, u8))
    ensures
        (k.0 as int, k.1 as int) == remote_key(*r),
{
    let host: u8 = match remote_host_kind(r.url.as_str()) {
        HostKind::GitHub => 0,
        _ => 1,
    };
    let rank: u8 = if str_eq(r.name.as_str(), "upstream") {
        0
    } else if str_eq(r.name.as_str(), "origin") {
        1
    } else {
        2
    };
    (host, rank)
}

/// The preferred remote, if there is any.
pub fn best_remote(remotes: &Vec<Remote>) -> (r: Option<usize>)
    ensures
        r is None <==> remotes@.len() == 0,
        r matches Some(k) ==> is_best_remote(remotes@, k as int),
{
    let n = remotes.len();
    if n == 0 {
        return None;
    }
    let mut best: usize = 0;
    let mut best_key = key_of(&remotes[0]);
    let mut j: usize = 1;
    while j < n
        invariant
            0 <= best < j <= n,
            n == remotes@.len(),
            (best_key.0 as int, best_key.1 as int) == remote_key(remotes@[best as int]),
            forall|i: int|
                0 <= i < j ==> !before(remote_key(#[trigger] remotes@[i]), remote_key(remotes@[best as int])),
            forall|i: int|
                0 <= i < best ==> before(remote_key(remotes@[best as int]), remote_key(#[trigger] remotes@[i])),
        decreases n - j,
    {
        let k = key_of(&remotes[j]);
        if k.0 < best_key.0 || (k.0 == best_key.0 && k.1 < best_key.1) {
            best = j;
            best_key = k;
        }
        j = j + 1;
    }
    Some(best)
}

proof fn lemma_github_from(rs: Seq<Remote>, i: int)
    requires
        0 <= i <= rs.len(),
    ensures
        i <= github_from(rs, i) <= rs.len(),
        github_from(rs, i) < rs.len() ==> host_of(rs[github_from(rs, i)].url@) == HostKind::GitHub
            && github_repo_url_spec(rs[github_from(rs, i)].url@) is Some,
    decreases rs.len() - i,
{
    if i < rs.len() && !(host_of(rs[i].url@) == HostKind::GitHub && github_repo_url_spec(
        rs[i].url@,
    ) is Some) {
        lemma_github_from(rs, i + 1);
    }
}

fn names_github_repo(r: &Remote) -> (b: bool)
    ensures
        b == (host_of(r.url@) == HostKind::GitHub && github_repo_url_spec(r.url@) is Some),
{
    remote_host_kind(r.url.as_str()) == HostKind::GitHub && parse_github_repo_url(
        r.url.as_str(),
    ).is_some()
}

fn first_github(remotes: &Vec<Remote>) -> (r: usize)
    ensures
        r == github_from(remotes@, 0),
        r <= remotes@.len(),
{
    let n = remotes.len();
    let mut i: usize = 0;
    while i < n && !names_github_repo(&remotes[i])
        invariant
            0 <= i <= n,
            n == remotes@.len(),
            github_from(remotes@, i as int) == github_from(remotes@, 0),
        decreases n - i,
    {
        i = i + 1;
    }
    i
}

/// The kind of backend.
#[derive(Debug, Clone, Copy, PartialEq, Eq)]
pub enum BackendKind {
    /// Local git, falling back to the API.
    Combined,
    ApiOnly,
    GitOnly,
}

/// The backend to build, for which repository, and why it is degraded.
#[derive(Debug, Clone, PartialEq, Eq)]
pub struct BackendPlan {
    pub kind: BackendKind,
    pub coords: Option<GhRepoInfo>,
    pub notice: Option<Notice>,
}

/// With coordinates given by the user: the API is required; the cached clone
/// is used when it could be opened.
pub fn plan_for_coords(coords: GhRepoInfo, client_ok: bool, cache_ok: bool) -> (r: Result<
    BackendPlan,
    WtgError,
>)
    ensures
        !client_ok ==> r == Err::<BackendPlan, WtgError>(WtgError::GitHubClientFailed),
        client_ok && cache_ok ==> r == Ok::<BackendPlan, WtgError>(
            BackendPlan { kind: BackendKind::Combined, coords: Some(coords), notice: None },
        ),
        client_ok && !cache_ok ==> r == Ok::<BackendPlan, WtgError>(
            BackendPlan {
                kind: BackendKind::ApiOnly,
                coords: Some(coords),
                notice: Some(Notice::ApiOnly),
            },
        ),
{
    if !client_ok {
        return Err(WtgError::GitHubClientFailed);
    }
    if cache_ok {
        Ok(BackendPlan { kind: BackendKind::Combined, coords: Some(coords), notice: None })
    } else {
        Ok(BackendPlan { kind: BackendKind::ApiOnly, coords: Some(coords), notice: Some(Notice::ApiOnly) })
    }
}

pub open spec fn has_host(rs: Seq<Remote>, h: HostKind) -> bool {
    exists|i: int| 0 <= i < rs.len() && host_of((#[trigger] rs[i]).url@) == h
}

/// Index of the first GitHub remote whose URL names a repository, or the count.
pub open spec fn github_from(rs: Seq<Remote>, i: int) -> int
    decreases rs.len() - i,
{
    if i < 0 || i >= rs.len() {
        rs.len() as int
    } else if host_of(rs[i].url@) == HostKind::GitHub && github_repo_url_spec(rs[i].url@) is Some {
        i
    } else {
        github_from(rs, i + 1)
    }
}

/// The plan for a local repository, by the decision order: no remotes; a
/// GitHub remote (when the API client can be built); remotes of several
/// other forges; a single other forge or unknown hosts.
pub open spec fn local_plan_spec(rs: Seq<Remote>, client_ok: bool, k: int) -> (BackendKind, Option<
    (Seq<char>, Seq<char>),
>, int) {
    if rs.len() == 0 {
        (BackendKind::GitOnly, None, 0)
    } else if k < rs.len() {
        if client_ok {
            (BackendKind::Combined, github_repo_url_spec(rs[k].url@), 1)
        } else {
            (BackendKind::GitOnly, None, 2)
        }
    } else if has_host(rs, HostKind::GitLab) && has_host(rs, HostKind::Bitbucket) {
        (BackendKind::GitOnly, None, 3)
    } else {
        (BackendKind::GitOnly, None, 4)
    }
}

/// Chooses the backend for a local repository from its remotes (sorted by
/// preference), and whether an API client can be built. The notice tells
/// which case applied: no remotes, unreachable GitHub, mixed forges, or an
/// unsupported host (with the preferred remote's URL).
pub fn plan_for_local(remotes: &Vec<Remote>, client_ok: bool) -> (r: BackendPlan)
    ensures
        ({
            let (kind, coords, case) = local_plan_spec(
                remotes@,
                client_ok,
                github_from(remotes@, 0),
            );
            &&& r.kind == kind
            &&& coords_view(r.coords) == coords
            &&& case == 0 ==> r.notice == Some(Notice::NoRemotes)
            &&& case == 1 ==> r.notice is None
            &&& case == 2 ==> r.notice == Some(Notice::UnreachableGitHub)
            &&& case == 3 ==> r.notice == Some(Notice::MixedRemotes)
            &&& case == 4 ==> (r.notice matches Some(Notice::UnsupportedHost(u)) && ({
                let b = choose|b: int| is_best_remote(remotes@, b);
                u@ == remotes@[b].url@
            }))
        }),
{
    let n = remotes.len();
    if n == 0 {
        return BackendPlan { kind: BackendKind::GitOnly, coords: None, notice: Some(Notice::NoRemotes) };
    }
    let i = first_github(remotes);
    let found = if i < n {
        parse_github_repo_url(remotes[i].url.as_str())
    } else {
        None
    };
    proof {
        lemma_github_from(remotes@, 0);
    }
    match found {
        Some(c) => {
            if client_ok {
                BackendPlan { kind: BackendKind::Combined, coords: Some(c), notice: None }
            } else {
                BackendPlan {
                    kind: BackendKind::GitOnly,
                    coords: None,
                    notice: Some(Notice::UnreachableGitHub),
                }
            }
        },
        None => {
            let mut gitlab = false;
            let mut bitbucket = false;
            let mut j: usize = 0;
            while j < n
                invariant
                    0 <= j <= n,
                    n == remotes@.len(),
                    gitlab == exists|k: int| 0 <= k < j && host_of((#[trigger] remotes@[k]).url@) == HostKind::GitLab,
                    bitbucket == exists|k: int| 0 <= k < j && host_of((#[trigger] remotes@[k]).url@) == HostKind::Bitbucket,
                decreases n - j,
            {
                let h = remote_host_kind(remotes[j].url.as_str());
                if h == HostKind::GitLab {
                    gitlab = true;
                }
                if h == HostKind::Bitbucket {
                    bitbucket = true;
                }
                j = j + 1;
            }
            if gitlab && bitbucket {
                BackendPlan { kind: BackendKind::GitOnly, coords: None, notice: Some(Notice::MixedRemotes) }
            } else {
                let b = match best_remote(remotes) {
                    Some(b) => b,
                    None => 0,
                };
                proof {
                    assert(is_best_remote(remotes@, b as int));
                    let c = choose|c: int| is_best_remote(remotes@, c);
                    lemma_best_remote_unique(remotes@, b as int, c);
                }
                BackendPlan {
                    kind: BackendKind::GitOnly,
                    coords: None,
                    notice: Some(Notice::UnsupportedHost(remotes[b].url.clone())),
                }
            }
        },
    }
}

/// There is only one first most preferred remote.
pub proof fn lemma_best_remote_unique(rs: Seq<Remote>, a: int, b: int)
    requires
        is_best_remote(rs, a),
        is_best_remote(rs, b),
    ensures
        a == b,
{
    if a < b {
        assert(before(remote_key(rs[b]), remote_key(rs[a])));
    } else if b < a {
        assert(before(remote_key(rs[a]), remote_key(rs[b])));
    }
}

} // verus!
