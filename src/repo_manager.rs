//! Where a repository lives: the user's working copy, or a cached clone of a
//! GitHub repository.

use vstd::prelude::*;
use vstd::string::*;

use crate::input::GhRepoInfo;

verus! {

/// A repository location, with its GitHub coordinates when it is a cached
/// clone.
#[derive(Debug, Clone, PartialEq, Eq)]
pub struct RepoManager {
    pub local_path: String,
    pub is_remote: bool,
    pub owner: Option<String>,
    pub repo_name: Option<String>,
}

impl RepoManager {
    /// Coordinates are known exactly for cached clones.
    pub open spec fn wf(&self) -> bool {
        self.is_remote <==> (self.owner is Some && self.repo_name is Some)
    }

    /// The user's own repository at `path`.
    pub fn local(path: String) -> (r: RepoManager)
        ensures
            r.wf(),
            r.local_path@ == path@,
            !r.is_remote,
    {
        RepoManager { local_path: path, is_remote: false, owner: None, repo_name: None }
    }

    /// The cached clone of `coords` at `path`.
    pub fn remote(path: String, coords: GhRepoInfo) -> (r: RepoManager)
        ensures
            r.wf(),
            r.local_path@ == path@,
            r.is_remote,
            r.owner.deep_view() == Some(coords.owner@),
            r.repo_name.deep_view() == Some(coords.repo@),
    {
        RepoManager {
            local_path: path,
            is_remote: true,
            owner: Some(coords.owner),
            repo_name: Some(coords.repo),
        }
    }

    pub fn path(&self) -> (r: &str)
        ensures
            r@ == self.local_path@,
    {
        self.local_path.as_str()
    }

    pub fn is_remote(&self) -> (r: bool)
        ensures
            r == self.is_remote,
    {
        self.is_remote
    }

    /// Owner and repository name, for cached clones only.
    pub fn remote_info(&self) -> (r: Option<(String, String)>)
        ensures
            r is Some <==> (self.is_remote && self.owner is Some && self.repo_name is Some),
            r matches Some((o, n)) ==> o@ == self.owner->0@ && n@ == self.repo_name->0@,
    {
        if !self.is_remote {
            return None;
        }
        match (&self.owner, &self.repo_name) {
            (Some(o), Some(n)) => Some((o.clone(), n.clone())),
            _ => None,
        }
    }
}

} // verus!
