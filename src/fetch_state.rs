//! What a cached repository has already synchronized from its remote, and
//! the decisions of on-demand fetching. Every update only ever adds: flags go
//! from false to true, and the set of attempted commits only grows.

use vstd::prelude::*;
use vstd::string::*;

use crate::text::{str_eq, views};

verus! {

/// Per-repository record of what was synchronized.
#[derive(Debug, Clone, PartialEq, Eq)]
pub struct FetchState {
    pub full_metadata_synced: bool,
    /// Commits already fetched or found absent on the remote.
    pub fetched_commits: Vec<String>,
    pub tags_synced: bool,
}

pub struct FetchStateView {
    pub full_metadata_synced: bool,
    pub fetched_commits: Seq<Seq<char>>,
    pub tags_synced: bool,
}

impl View for FetchState {
    type V = FetchStateView;

    open spec fn view(&self) -> FetchStateView {
        FetchStateView {
            full_metadata_synced: self.full_metadata_synced,
            fetched_commits: views(self.fetched_commits@),
            tags_synced: self.tags_synced,
        }
    }
}

/// `b` has everything `a` had: no flag went back to false, no attempted
/// commit was forgotten.
pub open spec fn grows(a: FetchStateView, b: FetchStateView) -> bool {
    &&& a.full_metadata_synced ==> b.full_metadata_synced
    &&& a.tags_synced ==> b.tags_synced
    &&& forall|h: Seq<char>| a.fetched_commits.contains(h) ==> b.fetched_commits.contains(h)
}

/// Any sequence of updates only adds: growth is reflexive and transitive.
pub proof fn lemma_grows_sequence(a: FetchStateView, b: FetchStateView, c: FetchStateView)
    ensures
        grows(a, a),
        grows(a, b) && grows(b, c) ==> grows(a, c),
{
}

/// What to do after a commit was not found locally.
#[derive(Debug, Clone, Copy, PartialEq, Eq)]
pub enum MissAction {
    /// Nothing more can be learned: report not found.
    NotFound,
    /// Not found; the repository is shallow and fetching was not asked for.
    NotFoundShallow,
    /// Ask the remote whether it has the commit.
    ProbeRemote,
}

pub open spec fn miss_action_spec(
    s: FetchStateView,
    hash: Seq<char>,
    allow_fetch: bool,
    shallow: bool,
) -> MissAction {
    if s.full_metadata_synced || s.fetched_commits.contains(hash) {
        MissAction::NotFound
    } else if !allow_fetch {
        if shallow {
            MissAction::NotFoundShallow
        } else {
            MissAction::NotFound
        }
    } else {
        MissAction::ProbeRemote
    }
}

impl FetchState {
    /// The state of a cache entry just opened: fully synchronized after a
    /// fresh clone or a successful refresh, unknown otherwise.
    pub fn opened(synced: bool) -> (r: FetchState)
        ensures
            r@.full_metadata_synced == synced,
            !r@.tags_synced,
            r@.fetched_commits.len() == 0,
    {
        FetchState { full_metadata_synced: synced, fetched_commits: Vec::new(), tags_synced: false }
    }

    pub fn has_attempted(&self, hash: &str) -> (r: bool)
        ensures
            r == self@.fetched_commits.contains(hash@),
    {
        let mut i: usize = 0;
        while i < self.fetched_commits.len()
            invariant
                0 <= i <= self.fetched_commits@.len(),
                forall|k: int| 0 <= k < i ==> self@.fetched_commits[k] != hash@,
            decreases self.fetched_commits@.len() - i,
        {
            if str_eq(self.fetched_commits[i].as_str(), hash) {
                assert(self@.fetched_commits[i as int] == hash@);
                return true;
            }
            i = i + 1;
        }
        false
    }

    /// After a local miss: whether to give up or probe the remote. Fetching
    /// is allowed for cached repositories, and for the user's own repository
    /// only when asked for (a shallow one is reported).
    pub fn on_local_miss(&self, hash: &str, allow_fetch: bool, shallow: bool) -> (r: MissAction)
        ensures
            r == miss_action_spec(self@, hash@, allow_fetch, shallow),
    {
        if self.full_metadata_synced || self.has_attempted(hash) {
            MissAction::NotFound
        } else if !allow_fetch {
            if shallow {
                MissAction::NotFoundShallow
            } else {
                MissAction::NotFound
            }
        } else {
            MissAction::ProbeRemote
        }
    }

    /// Records a commit as attempted.
    pub fn remember(&mut self, hash: String)
        ensures
            grows(old(self)@, final(self)@),
            final(self)@.fetched_commits.contains(hash@),
            final(self)@.full_metadata_synced == old(self)@.full_metadata_synced,
            final(self)@.tags_synced == old(self)@.tags_synced,
            forall|h: Seq<char>|
                final(self)@.fetched_commits.contains(h) ==> old(self)@.fetched_commits.contains(h)
                    || h == hash@,
    {
        if self.has_attempted(hash.as_str()) {
            return;
        }
        let ghost before = self@.fetched_commits;
        self.fetched_commits.push(hash);
        assert(self@.fetched_commits == before.push(hash@));
        assert(self@.fetched_commits[before.len() as int] == hash@);
        assert forall|h: Seq<char>| before.contains(h) implies self@.fetched_commits.contains(h) by {
            let k = choose|k: int| 0 <= k < before.len() && before[k] == h;
            assert(self@.fetched_commits[k] == h);
        }
    }

    /// After asking the remote: a commit it lacks is remembered so that it is
    /// never asked for again; one it has is to be fetched. Returns whether to fetch.
    pub fn on_probe(&mut self, hash: String, exists_remotely: bool) -> (r: bool)
        ensures
            r == exists_remotely,
            grows(old(self)@, final(self)@),
            !exists_remotely ==> final(self)@.fetched_commits.contains(hash@),
            exists_remotely ==> final(self)@ == old(self)@,
    {
        if !exists_remotely {
            self.remember(hash);
            false
        } else {
            true
        }
    }

    /// After fetching a commit: it is remembered.
    pub fn on_fetched(&mut self, hash: String)
        ensures
            grows(old(self)@, final(self)@),
            final(self)@.fetched_commits.contains(hash@),
    {
        self.remember(hash);
    }

    /// Whether tags still have to be fetched.
    pub fn tags_needed(&self) -> (r: bool)
        ensures
            r == !(self@.tags_synced || self@.full_metadata_synced),
    {
        !(self.tags_synced || self.full_metadata_synced)
    }

    /// After fetching the tags.
    pub fn on_tags_fetched(&mut self)
        ensures
            grows(old(self)@, final(self)@),
            final(self)@.tags_synced,
            final(self)@.fetched_commits == old(self)@.fetched_commits,
            final(self)@.full_metadata_synced == old(self)@.full_metadata_synced,
    {
        self.tags_synced = true;
    }

    /// After a full refresh or clone.
    pub fn on_full_sync(&mut self)
        ensures
            grows(old(self)@, final(self)@),
            final(self)@.full_metadata_synced,
            final(self)@.fetched_commits == old(self)@.fetched_commits,
            final(self)@.tags_synced == old(self)@.tags_synced,
    {
        self.full_metadata_synced = true;
    }
}

} // verus!
