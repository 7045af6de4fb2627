//! Pull requests and issues, and the discovery of the pull request that
//! closed an issue from the issue's timeline.

use vstd::prelude::*;
use vstd::string::*;

use crate::input::{coords_view, GhRepoInfo};

verus! {

/// A pull request.
#[derive(Debug, Clone, PartialEq, Eq)]
pub struct PullRequestInfo {
    pub number: u64,
    /// Repository the pull request lives in, when known.
    pub repo_info: Option<GhRepoInfo>,
    pub title: String,
    pub body: Option<String>,
    pub state: String,
    pub url: String,
    pub merged: bool,
    pub merge_commit_sha: Option<String>,
    pub author: Option<String>,
    pub author_url: Option<String>,
    /// Creation time, seconds since the Unix epoch (UTC).
    pub created_at: Option<i64>,
}

/// A pull request named by repository and number, possibly in another
/// repository than the issue that refers to it.
#[derive(Debug, Clone, PartialEq, Eq)]
pub struct PullRequestRef {
    pub number: u64,
    pub owner: String,
    pub repo: String,
}

impl PullRequestRef {
    pub fn new(coords: GhRepoInfo, number: u64) -> (r: PullRequestRef)
        ensures
            r.number == number,
            r.owner@ == coords.owner@,
            r.repo@ == coords.repo@,
    {
        PullRequestRef { number, owner: coords.owner, repo: coords.repo }
    }

    pub fn coords(&self) -> (r: GhRepoInfo)
        ensures
            r@ == (self.owner@, self.repo@),
    {
        GhRepoInfo::new(self.owner.clone(), self.repo.clone())
    }
}

/// Open or closed.
#[derive(Debug, Clone, Copy, PartialEq, Eq)]
pub enum IssueState {
    Open,
    Closed,
}

/// An issue with the pull requests that closed it.
#[derive(Debug, Clone, PartialEq, Eq)]
pub struct ExtendedIssueInfo {
    pub number: u64,
    pub title: String,
    pub body: Option<String>,
    pub state: IssueState,
    pub url: String,
    pub author: Option<String>,
    pub author_url: Option<String>,
    pub closing_prs: Vec<PullRequestInfo>,
    pub created_at: Option<i64>,
    /// The timeline was read anonymously after an SSO refusal and may miss
    /// cross-project references.
    pub timeline_may_be_incomplete: bool,
}

/// Only a closed issue has a timeline worth reading for closing pull requests.
pub fn needs_timeline(state: IssueState) -> (r: bool)
    ensures
        r == (state == IssueState::Closed),
{
    match state {
        IssueState::Closed => true,
        IssueState::Open => false,
    }
}

/// Kind of a timeline event that refers to a pull request.
#[derive(Debug, Clone, Copy, PartialEq, Eq)]
pub enum TimelineEventKind {
    Closed,
    CrossReferenced,
    Referenced,
    Other,
}

/// Same pull request: same repository and same number.
pub open spec fn same_pr(a: PullRequestInfo, b: PullRequestInfo) -> bool {
    a.number == b.number && coords_view(a.repo_info) == coords_view(b.repo_info)
}

pub open spec fn has_pr(c: Seq<PullRequestInfo>, p: PullRequestInfo) -> bool {
    exists|i: int| 0 <= i < c.len() && same_pr(#[trigger] c[i], p)
}

/// One event of the scan: the candidates so far, whether the scan is over,
/// the event's kind and the pull request it refers to. A merged pull request
/// of a `Closed` event becomes the one closing pull request and ends the
/// scan; a merged one that is cross-referenced or referenced is added unless
/// already there; anything else changes nothing.
pub open spec fn scan_step(
    c: Seq<PullRequestInfo>,
    done: bool,
    kind: TimelineEventKind,
    pr: PullRequestInfo,
) -> (Seq<PullRequestInfo>, bool) {
    if done || !pr.merged {
        (c, done)
    } else if kind == TimelineEventKind::Closed {
        (seq![pr], true)
    } else if (kind == TimelineEventKind::CrossReferenced || kind
        == TimelineEventKind::Referenced) && !has_pr(c, pr) {
        (c.push(pr), false)
    } else {
        (c, false)
    }
}

/// The scan of an issue's timeline for closing pull requests.
#[derive(Debug, Clone, PartialEq, Eq)]
pub struct ClosingPrScan {
    pub candidates: Vec<PullRequestInfo>,
    pub done: bool,
}

fn same_coords(a: &Option<GhRepoInfo>, b: &Option<GhRepoInfo>) -> (r: bool)
    ensures
        r == (coords_view(*a) == coords_view(*b)),
{
    match (a, b) {
        (Some(x), Some(y)) => x.same_repo(y),
        (None, None) => true,
        _ => false,
    }
}

impl ClosingPrScan {
    pub fn new() -> (r: ClosingPrScan)
        ensures
            r.candidates@.len() == 0,
            !r.done,
    {
        ClosingPrScan { candidates: Vec::new(), done: false }
    }

    fn contains(&self, pr: &PullRequestInfo) -> (r: bool)
        ensures
            r == has_pr(self.candidates@, *pr),
    {
        let mut i: usize = 0;
        while i < self.candidates.len()
            invariant
                0 <= i <= self.candidates@.len(),
                forall|k: int| 0 <= k < i ==> !same_pr(self.candidates@[k], *pr),
            decreases self.candidates@.len() - i,
        {
            let c = &self.candidates[i];
            if c.number == pr.number && same_coords(&c.repo_info, &pr.repo_info) {
                assert(same_pr(self.candidates@[i as int], *pr));
                return true;
            }
            i = i + 1;
        }
        false
    }

    /// Takes one event into account; returns whether the scan is over.
    pub fn step(&mut self, kind: TimelineEventKind, pr: PullRequestInfo) -> (r: bool)
        ensures
            (final(self).candidates@, final(self).done) == scan_step(
                old(self).candidates@,
                old(self).done,
                kind,
                pr,
            ),
            r == final(self).done,
    {
        if self.done || !pr.merged {
            return self.done;
        }
        match kind {
            TimelineEventKind::Closed => {
                let mut only = Vec::new();
                only.push(pr);
                self.candidates = only;
                self.done = true;
                true
            },
            TimelineEventKind::CrossReferenced | TimelineEventKind::Referenced => {
                if !self.contains(&pr) {
                    self.candidates.push(pr);
                }
                false
            },
            TimelineEventKind::Other => false,
        }
    }

    /// The pull requests found, the closing one first.
    pub fn finish(self) -> (r: Vec<PullRequestInfo>)
        ensures
            r@ == self.candidates@,
    {
        self.candidates
    }
}

/// A `Closed` event with a merged pull request adopts that pull request
/// alone and ends the scan; once ended, no event changes the result.
pub proof fn lemma_closed_event_short_circuits(
    c: Seq<PullRequestInfo>,
    pr: PullRequestInfo,
    later_kind: TimelineEventKind,
    later_pr: PullRequestInfo,
)
    requires
        pr.merged,
    ensures
        scan_step(
            c,
            false,
            TimelineEventKind::Closed,
            pr,
        ) == (seq![pr], true),
        scan_step(seq![pr], true, later_kind, later_pr) == (seq![pr], true),
{
}

/// Candidates are never duplicated: adding one keeps at most one entry per
/// repository and number.
pub proof fn lemma_scan_keeps_distinct(
    c: Seq<PullRequestInfo>,
    done: bool,
    kind: TimelineEventKind,
    pr: PullRequestInfo,
)
    requires
        forall|i: int, j: int| 0 <= i < j < c.len() ==> !same_pr(c[i], c[j]),
    ensures
        ({
            let n = scan_step(c, done, kind, pr).0;
            forall|i: int, j: int| 0 <= i < j < n.len() ==> !same_pr(n[i], n[j])
        }),
{
    let n = scan_step(c, done, kind, pr).0;
    if !done && pr.merged && kind != TimelineEventKind::Closed && (kind
        == TimelineEventKind::CrossReferenced || kind == TimelineEventKind::Referenced)
        && !has_pr(c, pr) {
        assert forall|i: int, j: int| 0 <= i < j < n.len() implies !same_pr(n[i], n[j]) by {
            if j == c.len() {
                assert(n[i] == c[i]);
                if same_pr(n[i], n[j]) {
                    assert(same_pr(c[i], pr));
                }
            } else {
                assert(n[i] == c[i] && n[j] == c[j]);
            }
        }
    }
}

} // verus!
