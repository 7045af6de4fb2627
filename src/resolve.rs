//! Resolution of a query into a report: commit ⇄ pull request ⇄ issue ⇄
//! release, across repositories when an issue was closed from another one.
//!
//! The resolver is a state machine. Each step asks the caller for one backend
//! operation (`Request`) and is fed its outcome (`Reply`), until it finishes
//! with a report or an error. Probing (for tokens of unknown kind, and for
//! numbers that may be an issue or a pull request) moves on after "not found"
//! or "unsupported"; any other error ends the run.

use vstd::prelude::*;
use vstd::string::*;

use crate::commit::{coords_link, CommitInfo, FileInfo};
use crate::errors::{is_soft, soft, WtgError};
use crate::input::{coords_view, query_text, GhRepoInfo, Query, QueryView};
use crate::links::{author_link_spec, author_url_from_email, commit_url, release_url, repo_link, tag_url};
use crate::tags::TagInfo;
use crate::text::parse_u64_spec;
use crate::timeline::{ExtendedIssueInfo, PullRequestInfo};

verus! {

/// What the user searched for.
#[derive(Debug, Clone, PartialEq, Eq)]
pub enum EntryPoint {
    Commit(String),
    IssueNumber(u64),
    PullRequestNumber(u64),
    FilePath(String),
    Tag(String),
}

/// The report for a commit, pull request or issue.
#[derive(Debug, Clone, PartialEq, Eq)]
pub struct EnrichedInfo {
    pub entry_point: EntryPoint,
    pub commit: Option<CommitInfo>,
    pub pr: Option<PullRequestInfo>,
    pub issue: Option<ExtendedIssueInfo>,
    pub release: Option<TagInfo>,
}

/// The report for a file.
#[derive(Debug, Clone, PartialEq, Eq)]
pub struct FileResult {
    pub file_info: FileInfo,
    pub commit_url: Option<String>,
    pub author_urls: Vec<Option<String>>,
    pub release: Option<TagInfo>,
}

/// What was identified.
#[derive(Debug, Clone, PartialEq, Eq)]
pub enum IdentifiedThing {
    Enriched(EnrichedInfo),
    File(FileResult),
    TagOnly(TagInfo, Option<String>),
}

/// Which backend an operation goes to: the one of the queried repository, or
/// the sibling spawned for another repository.
#[derive(Debug, Clone, Copy, PartialEq, Eq)]
pub enum Source {
    Primary,
    Sibling,
}

/// An operation the resolver needs done.
#[derive(Debug, Clone, PartialEq, Eq)]
pub enum Request {
    FindCommit(Source, String),
    EnrichCommit(Source, CommitInfo),
    /// Hash and commit time of the commit whose release is sought.
    FindRelease(Source, String, i64),
    FetchPr(u64),
    FetchIssue(u64),
    /// Spawn the sibling backend for these coordinates.
    ForRepo(GhRepoInfo),
    FindFile(String),
    FindTag(String),
}

/// The outcome of a request.
#[derive(Debug, PartialEq, Eq)]
pub enum Reply {
    Commit(Result<CommitInfo, WtgError>),
    Release(Option<TagInfo>),
    Pr(Result<PullRequestInfo, WtgError>),
    Issue(Result<ExtendedIssueInfo, WtgError>),
    Sibling(bool),
    File(Result<FileInfo, WtgError>),
    Tag(Result<TagInfo, WtgError>),
}

/// What the resolver does next.
#[derive(Debug, PartialEq, Eq)]
pub enum Step {
    Ask(Request),
    Finished(Result<IdentifiedThing, WtgError>),
}

/// Whether failures are probes, and what comes after them.
#[derive(Debug, Clone, PartialEq, Eq)]
pub enum Probe {
    /// Not a probe: errors end the run.
    Direct,
    /// An issue-or-pull-request number; the label is its text (`#<n>`).
    Number(u64, String),
    /// A token of unknown kind: commit, then number, then file, then tag.
    Token(String),
}

/// What is carried towards an enriched report.
#[derive(Debug, Clone, PartialEq, Eq)]
pub struct Context {
    pub entry: EntryPoint,
    pub pr: Option<PullRequestInfo>,
    pub issue: Option<ExtendedIssueInfo>,
    /// The merge commit lives in another repository.
    pub cross: bool,
}

/// Where the resolution stands.
#[derive(Debug, Clone, PartialEq, Eq)]
pub enum Phase {
    FindCommit { ctx: Context, on: Source, probe: Probe },
    Enrich { ctx: Context, on: Source },
    Release { ctx: Context, commit: CommitInfo, fallback: bool },
    FetchPr { number: u64, probe: Probe },
    FetchIssue { number: u64, probe: Probe },
    Sibling { ctx: Context, sha: String },
    FindFile { path: String, probe: Probe },
    FileRelease { file: FileInfo, commit_url: Option<String>, author_urls: Vec<Option<String>> },
    FindTag { name: String },
    Done,
}

/// A resolution in progress, for the repository at `own` (when on GitHub).
#[derive(Debug, Clone, PartialEq, Eq)]
pub struct Resolver {
    pub phase: Phase,
    pub own: Option<GhRepoInfo>,
}

pub open spec fn finished_enriched(
    ctx: Context,
    commit: Option<CommitInfo>,
    release: Option<TagInfo>,
) -> Step {
    Step::Finished(
        Ok(
            IdentifiedThing::Enriched(
                EnrichedInfo {
                    entry_point: ctx.entry,
                    commit,
                    pr: ctx.pr,
                    issue: ctx.issue,
                    release,
                },
            ),
        ),
    )
}

/// A reply that does not answer the pending request ends the run.
pub open spec fn mismatch(np: Phase, s: Step) -> bool {
    np == Phase::Done && s matches Step::Finished(Err(WtgError::Unsupported(_)))
}

/// The pull request is in a repository other than the queried one.
pub open spec fn cross_repo(pr: PullRequestInfo, own: Option<GhRepoInfo>) -> bool {
    pr.repo_info is Some && own is Some && pr.repo_info->0@ != own->0@
}

/// The link shown for a tag: its release page, or its tree.
pub open spec fn tag_link(own: Option<GhRepoInfo>, t: TagInfo) -> Option<Seq<char>> {
    match own {
        Some(c) => Some(
            repo_link(
                c.owner@,
                c.repo@,
                if t.is_release {
                    "/releases/tag/"@
                } else {
                    "/tree/"@
                },
                t.name@,
            ),
        ),
        None => None,
    }
}

pub open spec fn author_links(a: Seq<(String, String, String)>) -> Seq<Option<Seq<char>>> {
    a.map_values(|x: (String, String, String)| author_link_spec(x.2@))
}

pub open spec fn opt_links(v: Seq<Option<String>>) -> Seq<Option<Seq<char>>> {
    v.map_values(|x: Option<String>| x.deep_view())
}

/// The next probe after a commit lookup failed for a token: a number is tried
/// as a pull request, anything else as a file.
pub open spec fn after_commit_probe(t: String, np: Phase, s: Step) -> bool {
    match parse_u64_spec(t@) {
        Some(n) => np == (Phase::FetchPr { number: n, probe: Probe::Token(t) }) && s == Step::Ask(
            Request::FetchPr(n),
        ),
        None => np == (Phase::FindFile { path: t, probe: Probe::Token(t) }) && s == Step::Ask(
            Request::FindFile(t),
        ),
    }
}

/// One step of the resolution: from phase `p`, with the repository's own
/// coordinates, on `reply`, to phase `np`, doing `s`.
pub open spec fn transition(p: Phase, own: Option<GhRepoInfo>, reply: Reply, np: Phase, s: Step) -> bool {
    match p {
        Phase::FindCommit { ctx, on, probe } => match reply {
            Reply::Commit(Ok(c)) => np == (Phase::Enrich { ctx, on }) && s == Step::Ask(
                Request::EnrichCommit(on, c),
            ),
            Reply::Commit(Err(e)) => if is_soft(e) && probe is Token {
                after_commit_probe(probe->Token_0, np, s)
            } else if is_soft(e) && ctx.pr is Some {
                np == Phase::Done && s == finished_enriched(ctx, None, None)
            } else {
                np == Phase::Done && s == Step::Finished(Err(e))
            },
            _ => mismatch(np, s),
        },
        Phase::Enrich { ctx, on } => match reply {
            Reply::Commit(Ok(c)) => np == (Phase::Release { ctx, commit: c, fallback: ctx.cross })
                && s == Step::Ask(Request::FindRelease(Source::Primary, c.hash, c.timestamp)),
            Reply::Commit(Err(e)) => np == Phase::Done && s == Step::Finished(Err(e)),
            _ => mismatch(np, s),
        },
        Phase::Release { ctx, commit, fallback } => match reply {
            Reply::Release(Some(t)) => np == Phase::Done && s == finished_enriched(
                ctx,
                Some(commit),
                Some(t),
            ),
            Reply::Release(None) => if fallback {
                np == (Phase::Release { ctx, commit, fallback: false }) && s == Step::Ask(
                    Request::FindRelease(Source::Sibling, commit.hash, commit.timestamp),
                )
            } else {
                np == Phase::Done && s == finished_enriched(ctx, Some(commit), None)
            },
            _ => mismatch(np, s),
        },
        Phase::FetchPr { number, probe } => match reply {
            Reply::Pr(Ok(pr)) => {
                let ctx = Context {
                    entry: EntryPoint::PullRequestNumber(number),
                    pr: Some(pr),
                    issue: None,
                    cross: false,
                };
                match pr.merge_commit_sha {
                    Some(sha) => np == (Phase::FindCommit {
                        ctx,
                        on: Source::Primary,
                        probe: Probe::Direct,
                    }) && s == Step::Ask(Request::FindCommit(Source::Primary, sha)),
                    None => np == Phase::Done && s == finished_enriched(ctx, None, None),
                }
            },
            Reply::Pr(Err(e)) => if is_soft(e) && !(probe is Direct) {
                np == (Phase::FetchIssue { number, probe }) && s == Step::Ask(
                    Request::FetchIssue(number),
                )
            } else {
                np == Phase::Done && s == Step::Finished(Err(e))
            },
            _ => mismatch(np, s),
        },
        Phase::FetchIssue { number, probe } => match reply {
            Reply::Issue(Ok(issue)) => {
                let closing = if issue.closing_prs@.len() > 0 {
                    Some(issue.closing_prs@[0])
                } else {
                    None
                };
                let ctx = Context {
                    entry: EntryPoint::IssueNumber(number),
                    pr: closing,
                    issue: Some(issue),
                    cross: false,
                };
                match closing {
                    Some(pr) => match pr.merge_commit_sha {
                        Some(sha) => if cross_repo(pr, own) {
                            np == (Phase::Sibling { ctx: Context { cross: true, ..ctx }, sha })
                                && s == Step::Ask(Request::ForRepo(pr.repo_info->0))
                        } else {
                            np == (Phase::FindCommit {
                                ctx,
                                on: Source::Primary,
                                probe: Probe::Direct,
                            }) && s == Step::Ask(Request::FindCommit(Source::Primary, sha))
                        },
                        None => np == Phase::Done && s == finished_enriched(ctx, None, None),
                    },
                    None => np == Phase::Done && s == finished_enriched(ctx, None, None),
                }
            },
            Reply::Issue(Err(e)) => if is_soft(e) && probe is Number {
                np == Phase::Done && s == Step::Finished(
                    Err(WtgError::NotFound(probe->Number_1)),
                )
            } else if is_soft(e) && probe is Token {
                np == (Phase::FindFile { path: probe->Token_0, probe }) && s == Step::Ask(
                    Request::FindFile(probe->Token_0),
                )
            } else {
                np == Phase::Done && s == Step::Finished(Err(e))
            },
            _ => mismatch(np, s),
        },
        Phase::Sibling { ctx, sha } => match reply {
            Reply::Sibling(true) => np == (Phase::FindCommit {
                ctx,
                on: Source::Sibling,
                probe: Probe::Direct,
            }) && s == Step::Ask(Request::FindCommit(Source::Sibling, sha)),
            Reply::Sibling(false) => np == Phase::Done && s == finished_enriched(ctx, None, None),
            _ => mismatch(np, s),
        },
        Phase::FindFile { path, probe } => match reply {
            Reply::File(Ok(f)) => np matches Phase::FileRelease { file, commit_url, author_urls }
                && file == f && commit_url.deep_view() == coords_link(
                coords_view(own),
                f.last_commit.hash@,
            ) && opt_links(author_urls@) == author_links(f.previous_authors@) && s == Step::Ask(
                Request::FindRelease(Source::Primary, f.last_commit.hash, f.last_commit.timestamp),
            ),
            Reply::File(Err(e)) => if is_soft(e) && probe is Token {
                np == (Phase::FindTag { name: probe->Token_0 }) && s == Step::Ask(
                    Request::FindTag(probe->Token_0),
                )
            } else {
                np == Phase::Done && s == Step::Finished(Err(e))
            },
            _ => mismatch(np, s),
        },
        Phase::FileRelease { file, commit_url, author_urls } => match reply {
            Reply::Release(r) => np == Phase::Done && s == Step::Finished(
                Ok(
                    IdentifiedThing::File(
                        FileResult { file_info: file, commit_url, author_urls, release: r },
                    ),
                ),
            ),
            _ => mismatch(np, s),
        },
        Phase::FindTag { name } => match reply {
            Reply::Tag(Ok(t)) => np == Phase::Done && (s matches Step::Finished(
                Ok(IdentifiedThing::TagOnly(tag, url)),
            ) && tag == t && url.deep_view() == tag_link(own, t)),
            Reply::Tag(Err(e)) => np == Phase::Done && s == Step::Finished(
                Err(
                    if is_soft(e) {
                        WtgError::NotFound(name)
                    } else {
                        e
                    },
                ),
            ),
            _ => mismatch(np, s),
        },
        Phase::Done => mismatch(np, s),
    }
}

/// Where a query starts.
pub open spec fn start_spec(q: Query, np: Phase, s: Step) -> bool {
    let direct = |e: EntryPoint|
        Context { entry: e, pr: None, issue: None, cross: false };
    match q {
        Query::GitCommit(h) => np == (Phase::FindCommit {
            ctx: direct(EntryPoint::Commit(h)),
            on: Source::Primary,
            probe: Probe::Direct,
        }) && s == Step::Ask(Request::FindCommit(Source::Primary, h)),
        Query::Pr(n) => np == (Phase::FetchPr { number: n, probe: Probe::Direct }) && s
            == Step::Ask(Request::FetchPr(n)),
        Query::Issue(n) => np == (Phase::FetchIssue { number: n, probe: Probe::Direct }) && s
            == Step::Ask(Request::FetchIssue(n)),
        Query::IssueOrPr(n) => np matches Phase::FetchPr { number, probe: Probe::Number(m, label) }
            && number == n && m == n && label@ == query_text(QueryView::IssueOrPr(n)) && s
            == Step::Ask(Request::FetchPr(n)),
        Query::FilePath(p) => np == (Phase::FindFile { path: p, probe: Probe::Direct }) && s
            == Step::Ask(Request::FindFile(p)),
        Query::Unknown(t) => np == (Phase::FindCommit {
            ctx: direct(EntryPoint::Commit(t)),
            on: Source::Primary,
            probe: Probe::Token(t),
        }) && s == Step::Ask(Request::FindCommit(Source::Primary, t)),
    }
}

fn copy_string_opt(s: &Option<String>) -> (r: Option<String>)
    ensures
        r == *s,
{
    match s {
        Some(x) => Some(x.clone()),
        None => None,
    }
}

impl GhRepoInfo {
    /// An equal copy.
    pub fn copy(&self) -> (r: GhRepoInfo)
        ensures
            r == *self,
    {
        GhRepoInfo { owner: self.owner.clone(), repo: self.repo.clone() }
    }
}

fn copy_coords(c: &Option<GhRepoInfo>) -> (r: Option<GhRepoInfo>)
    ensures
        r == *c,
{
    match c {
        Some(x) => Some(x.copy()),
        None => None,
    }
}

impl PullRequestInfo {
    /// An equal copy.
    pub fn copy(&self) -> (r: PullRequestInfo)
        ensures
            r == *self,
    {
        PullRequestInfo {
            number: self.number,
            repo_info: copy_coords(&self.repo_info),
            title: self.title.clone(),
            body: copy_string_opt(&self.body),
            state: self.state.clone(),
            url: self.url.clone(),
            merged: self.merged,
            merge_commit_sha: copy_string_opt(&self.merge_commit_sha),
            author: copy_string_opt(&self.author),
            author_url: copy_string_opt(&self.author_url),
            created_at: self.created_at,
        }
    }
}

fn done_enriched(ctx: Context, commit: Option<CommitInfo>, release: Option<TagInfo>) -> (r: Step)
    ensures
        r == finished_enriched(ctx, commit, release),
{
    Step::Finished(
        Ok(
            IdentifiedThing::Enriched(
                EnrichedInfo {
                    entry_point: ctx.entry,
                    commit,
                    pr: ctx.pr,
                    issue: ctx.issue,
                    release,
                },
            ),
        ),
    )
}

fn unexpected() -> (r: Step)
    ensures
        r matches Step::Finished(Err(WtgError::Unsupported(_))),
{
    Step::Finished(Err(WtgError::Unsupported("unexpected reply".to_owned())))
}

impl Resolver {
    /// Starts resolving `query` for the repository at `own`.
    pub fn start(query: Query, own: Option<GhRepoInfo>) -> (r: (Resolver, Step))
        ensures
            start_spec(query, r.0.phase, r.1),
            r.0.own == own,
    {
        let direct = |e: EntryPoint| -> (c: Context)
            ensures
                c == (Context { entry: e, pr: None, issue: None, cross: false }),
            { Context { entry: e, pr: None, issue: None, cross: false } };
        let (phase, step) = match query {
            Query::GitCommit(h) => {
                let req = Request::FindCommit(Source::Primary, h.clone());
                (
                    Phase::FindCommit {
                        ctx: direct(EntryPoint::Commit(h)),
                        on: Source::Primary,
                        probe: Probe::Direct,
                    },
                    Step::Ask(req),
                )
            },
            Query::Pr(n) => (
                Phase::FetchPr { number: n, probe: Probe::Direct },
                Step::Ask(Request::FetchPr(n)),
            ),
            Query::Issue(n) => (
                Phase::FetchIssue { number: n, probe: Probe::Direct },
                Step::Ask(Request::FetchIssue(n)),
            ),
            Query::IssueOrPr(n) => {
                let label = Query::IssueOrPr(n).as_text();
                (
                    Phase::FetchPr { number: n, probe: Probe::Number(n, label) },
                    Step::Ask(Request::FetchPr(n)),
                )
            },
            Query::FilePath(p) => {
                let req = Request::FindFile(p.clone());
                (Phase::FindFile { path: p, probe: Probe::Direct }, Step::Ask(req))
            },
            Query::Unknown(t) => {
                let req = Request::FindCommit(Source::Primary, t.clone());
                let probe = Probe::Token(t.clone());
                (
                    Phase::FindCommit {
                        ctx: direct(EntryPoint::Commit(t)),
                        on: Source::Primary,
                        probe,
                    },
                    Step::Ask(req),
                )
            },
        };
        (Resolver { phase, own }, step)
    }

    fn probe_after_commit(t: String) -> (r: (Phase, Step))
        ensures
            after_commit_probe(t, r.0, r.1),
    {
        match crate::text::parse_u64(t.as_str()) {
            Some(n) => (Phase::FetchPr { number: n, probe: Probe::Token(t) }, Step::Ask(Request::FetchPr(n))),
            None => {
                let req = Request::FindFile(t.clone());
                let probe = Probe::Token(t.clone());
                (Phase::FindFile { path: t, probe }, Step::Ask(req))
            },
        }
    }

    /// Takes the outcome of the pending request and says what to do next.
    pub fn on_reply(&mut self, reply: Reply) -> (r: Step)
        ensures
            transition(old(self).phase, old(self).own, reply, final(self).phase, r),
            final(self).own == old(self).own,
    {
        let mut phase = Phase::Done;
        core::mem::swap(&mut phase, &mut self.phase);
        let ghost before = phase;
        let (np, step) = match phase {
            Phase::FindCommit { ctx, on, probe } => step_find_commit(ctx, on, probe, reply),
            Phase::Enrich { ctx, on } => step_enrich(ctx, on, reply),
            Phase::Release { ctx, commit, fallback } => step_release(ctx, commit, fallback, reply),
            Phase::FetchPr { number, probe } => step_fetch_pr(number, probe, reply),
            Phase::FetchIssue { number, probe } => step_fetch_issue(&self.own, number, probe, reply),
            Phase::Sibling { ctx, sha } => step_sibling(ctx, sha, reply),
            Phase::FindFile { path, probe } => step_find_file(&self.own, path, probe, reply),
            Phase::FileRelease { file, commit_url, author_urls } => step_file_release(
                file,
                commit_url,
                author_urls,
                reply,
            ),
            Phase::FindTag { name } => step_find_tag(&self.own, name, reply),
            Phase::Done => (Phase::Done, unexpected()),
        };
        self.phase = np;
        step
    }
}

fn step_find_commit(ctx: Context, on: Source, probe: Probe, reply: Reply) -> (r: (Phase, Step))
    ensures
        transition(Phase::FindCommit { ctx, on, probe }, None, reply, r.0, r.1),
{
    match reply {
        Reply::Commit(Ok(c)) => (Phase::Enrich { ctx, on }, Step::Ask(Request::EnrichCommit(on, c))),
        Reply::Commit(Err(e)) => {
            let is_soft_err = soft(&e);
            match probe {
                Probe::Token(t) if is_soft_err => Resolver::probe_after_commit(t),
                _ => {
                    if is_soft_err && ctx.pr.is_some() {
                        (Phase::Done, done_enriched(ctx, None, None))
                    } else {
                        (Phase::Done, Step::Finished(Err(e)))
                    }
                },
            }
        },
        _ => (Phase::Done, unexpected()),
    }
}

fn step_enrich(ctx: Context, on: Source, reply: Reply) -> (r: (Phase, Step))
    ensures
        transition(Phase::Enrich { ctx, on }, None, reply, r.0, r.1),
{
    match reply {
        Reply::Commit(Ok(c)) => {
            let fallback = ctx.cross;
            let req = Request::FindRelease(Source::Primary, c.hash.clone(), c.timestamp);
            (Phase::Release { ctx, commit: c, fallback }, Step::Ask(req))
        },
        Reply::Commit(Err(e)) => (Phase::Done, Step::Finished(Err(e))),
        _ => (Phase::Done, unexpected()),
    }
}

fn step_release(ctx: Context, commit: CommitInfo, fallback: bool, reply: Reply) -> (r: (Phase, Step))
    ensures
        transition(Phase::Release { ctx, commit, fallback }, None, reply, r.0, r.1),
{
    match reply {
        Reply::Release(Some(t)) => (Phase::Done, done_enriched(ctx, Some(commit), Some(t))),
        Reply::Release(None) => {
            if fallback {
                let req = Request::FindRelease(Source::Sibling, commit.hash.clone(), commit.timestamp);
                (Phase::Release { ctx, commit, fallback: false }, Step::Ask(req))
            } else {
                (Phase::Done, done_enriched(ctx, Some(commit), None))
            }
        },
        _ => (Phase::Done, unexpected()),
    }
}

fn step_fetch_pr(number: u64, probe: Probe, reply: Reply) -> (r: (Phase, Step))
    ensures
        transition(Phase::FetchPr { number, probe }, None, reply, r.0, r.1),
{
    match reply {
        Reply::Pr(Ok(pr)) => {
            let sha = copy_string_opt(&pr.merge_commit_sha);
            let ctx = Context {
                entry: EntryPoint::PullRequestNumber(number),
                pr: Some(pr),
                issue: None,
                cross: false,
            };
            match sha {
                Some(sha) => (
                    Phase::FindCommit { ctx, on: Source::Primary, probe: Probe::Direct },
                    Step::Ask(Request::FindCommit(Source::Primary, sha)),
                ),
                None => (Phase::Done, done_enriched(ctx, None, None)),
            }
        },
        Reply::Pr(Err(e)) => {
            let is_probe = match probe {
                Probe::Direct => false,
                _ => true,
            };
            if soft(&e) && is_probe {
                (Phase::FetchIssue { number, probe }, Step::Ask(Request::FetchIssue(number)))
            } else {
                (Phase::Done, Step::Finished(Err(e)))
            }
        },
        _ => (Phase::Done, unexpected()),
    }
}

fn is_cross(own: &Option<GhRepoInfo>, pr: &PullRequestInfo) -> (r: bool)
    ensures
        r == cross_repo(*pr, *own),
{
    match (&pr.repo_info, own) {
        (Some(a), Some(b)) => !a.same_repo(b),
        _ => false,
    }
}

fn step_fetch_issue(own: &Option<GhRepoInfo>, number: u64, probe: Probe, reply: Reply) -> (r: (
    Phase,
    Step,
))
    ensures
        transition(Phase::FetchIssue { number, probe }, *own, reply, r.0, r.1),
{
    match reply {
        Reply::Issue(Ok(issue)) => {
            let closing = if issue.closing_prs.len() > 0 {
                Some(issue.closing_prs[0].copy())
            } else {
                None
            };
            let (sha, cross, coords) = match &closing {
                Some(pr) => (
                    copy_string_opt(&pr.merge_commit_sha),
                    is_cross(own, pr),
                    copy_coords(&pr.repo_info),
                ),
                None => (None, false, None),
            };
            let ctx = Context {
                entry: EntryPoint::IssueNumber(number),
                pr: closing,
                issue: Some(issue),
                cross: false,
            };
            match sha {
                Some(sha) => {
                    if cross {
                        match coords {
                            Some(target) => (
                                Phase::Sibling { ctx: Context { cross: true, ..ctx }, sha },
                                Step::Ask(Request::ForRepo(target)),
                            ),
                            None => (Phase::Done, unexpected()),
                        }
                    } else {
                        (
                            Phase::FindCommit { ctx, on: Source::Primary, probe: Probe::Direct },
                            Step::Ask(Request::FindCommit(Source::Primary, sha)),
                        )
                    }
                },
                None => (Phase::Done, done_enriched(ctx, None, None)),
            }
        },
        Reply::Issue(Err(e)) => {
            let is_soft_err = soft(&e);
            match probe {
                Probe::Number(_, label) if is_soft_err => (
                    Phase::Done,
                    Step::Finished(Err(WtgError::NotFound(label))),
                ),
                Probe::Token(t) if is_soft_err => {
                    let req = Request::FindFile(t.clone());
                    let next_probe = Probe::Token(t.clone());
                    (Phase::FindFile { path: t, probe: next_probe }, Step::Ask(req))
                },
                _ => (Phase::Done, Step::Finished(Err(e))),
            }
        },
        _ => (Phase::Done, unexpected()),
    }
}

fn step_sibling(ctx: Context, sha: String, reply: Reply) -> (r: (Phase, Step))
    ensures
        transition(Phase::Sibling { ctx, sha }, None, reply, r.0, r.1),
{
    match reply {
        Reply::Sibling(true) => (
            Phase::FindCommit { ctx, on: Source::Sibling, probe: Probe::Direct },
            Step::Ask(Request::FindCommit(Source::Sibling, sha)),
        ),
        Reply::Sibling(false) => (Phase::Done, done_enriched(ctx, None, None)),
        _ => (Phase::Done, unexpected()),
    }
}

fn file_links(own: &Option<GhRepoInfo>, f: &FileInfo) -> (r: (Option<String>, Vec<Option<String>>))
    ensures
        r.0.deep_view() == coords_link(coords_view(*own), f.last_commit.hash@),
        opt_links(r.1@) == author_links(f.previous_authors@),
{
    let url = match own {
        Some(c) => Some(commit_url(c, f.last_commit.hash.as_str())),
        None => None,
    };
    let mut urls: Vec<Option<String>> = Vec::new();
    let mut i: usize = 0;
    while i < f.previous_authors.len()
        invariant
            0 <= i <= f.previous_authors@.len(),
            opt_links(urls@) == author_links(f.previous_authors@.subrange(0, i as int)),
        decreases f.previous_authors@.len() - i,
    {
        let u = author_url_from_email(f.previous_authors[i].2.as_str());
        proof {
            assert(f.previous_authors@.subrange(0, i + 1) == f.previous_authors@.subrange(
                0,
                i as int,
            ).push(f.previous_authors@[i as int]));
            assert(opt_links(urls@.push(u)) == opt_links(urls@).push(u.deep_view()));
        }
        urls.push(u);
        i = i + 1;
    }
    assert(f.previous_authors@.subrange(0, f.previous_authors@.len() as int)
        == f.previous_authors@);
    (url, urls)
}

fn step_find_file(own: &Option<GhRepoInfo>, path: String, probe: Probe, reply: Reply) -> (r: (
    Phase,
    Step,
))
    ensures
        transition(Phase::FindFile { path, probe }, *own, reply, r.0, r.1),
{
    match reply {
        Reply::File(Ok(f)) => {
            let (url, urls) = file_links(own, &f);
            let req = Request::FindRelease(
                Source::Primary,
                f.last_commit.hash.clone(),
                f.last_commit.timestamp,
            );
            (Phase::FileRelease { file: f, commit_url: url, author_urls: urls }, Step::Ask(req))
        },
        Reply::File(Err(e)) => {
            let is_soft_err = soft(&e);
            match probe {
                Probe::Token(t) if is_soft_err => {
                    let req = Request::FindTag(t.clone());
                    (Phase::FindTag { name: t }, Step::Ask(req))
                },
                _ => (Phase::Done, Step::Finished(Err(e))),
            }
        },
        _ => (Phase::Done, unexpected()),
    }
}

fn step_file_release(
    file: FileInfo,
    commit_url: Option<String>,
    author_urls: Vec<Option<String>>,
    reply: Reply,
) -> (r: (Phase, Step))
    ensures
        transition(Phase::FileRelease { file, commit_url, author_urls }, None, reply, r.0, r.1),
{
    match reply {
        Reply::Release(rel) => (
            Phase::Done,
            Step::Finished(
                Ok(IdentifiedThing::File(FileResult { file_info: file, commit_url, author_urls, release: rel })),
            ),
        ),
        _ => (Phase::Done, unexpected()),
    }
}

fn tag_link_of(own: &Option<GhRepoInfo>, t: &TagInfo) -> (r: Option<String>)
    ensures
        r.deep_view() == tag_link(*own, *t),
{
    match own {
        Some(c) => if t.is_release {
            Some(release_url(c, t.name.as_str()))
        } else {
            Some(tag_url(c, t.name.as_str()))
        },
        None => None,
    }
}

fn step_find_tag(own: &Option<GhRepoInfo>, name: String, reply: Reply) -> (r: (Phase, Step))
    ensures
        transition(Phase::FindTag { name }, *own, reply, r.0, r.1),
{
    match reply {
        Reply::Tag(Ok(t)) => {
            let url = tag_link_of(own, &t);
            (Phase::Done, Step::Finished(Ok(IdentifiedThing::TagOnly(t, url))))
        },
        Reply::Tag(Err(e)) => {
            if soft(&e) {
                (Phase::Done, Step::Finished(Err(WtgError::NotFound(name))))
            } else {
                (Phase::Done, Step::Finished(Err(e)))
            }
        },
        _ => (Phase::Done, unexpected()),
    }
}

/// Phases that can end in a report without a commit carry the pull request
/// or the issue that the report is about.
pub open spec fn phase_wf(p: Phase) -> bool {
    match p {
        Phase::Sibling { ctx, .. } => ctx.issue is Some,
        _ => true,
    }
}

/// A successful report for a commit, pull request or issue is never empty:
/// it holds the commit, the pull request or the issue.
pub proof fn lemma_report_not_empty(p: Phase, own: Option<GhRepoInfo>, reply: Reply, np: Phase, s: Step)
    requires
        phase_wf(p),
        transition(p, own, reply, np, s),
    ensures
        phase_wf(np),
        s matches Step::Finished(Ok(IdentifiedThing::Enriched(i))) ==> (i.commit is Some || i.pr is Some
            || i.issue is Some),
{
}

/// Every resolution starts in a well-formed phase.
pub proof fn lemma_start_wf(q: Query, np: Phase, s: Step)
    requires
        start_spec(q, np, s),
    ensures
        phase_wf(np),
{
}

} // verus!
