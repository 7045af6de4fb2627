//! Tags and releases, and the choice of the release that first shipped a commit.

use vstd::prelude::*;
use vstd::multiset::Multiset;
use vstd::string::*;

use crate::semver::{parse_semver, semver_spec, semver_view, Semver};

verus! {

/// A tag, with its release if GitHub has one for it.
#[derive(Debug, Clone, PartialEq, Eq)]
pub struct TagInfo {
    pub name: String,
    pub commit_hash: String,
    pub semver: Option<Semver>,
    /// Time of the tagged commit, seconds since the Unix epoch (UTC).
    pub created_at: i64,
    pub is_release: bool,
    pub release_name: Option<String>,
    pub release_url: Option<String>,
    pub published_at: Option<i64>,
}

impl TagInfo {
    pub open spec fn semver_tag(&self) -> bool {
        self.semver is Some
    }

    pub fn is_semver(&self) -> (r: bool)
        ensures
            r == self.semver_tag(),
    {
        self.semver.is_some()
    }

    /// A tag as read from a repository: its version recognized, no release yet.
    pub fn new(name: String, commit_hash: String, created_at: i64) -> (r: TagInfo)
        ensures
            r.name@ == name@,
            r.commit_hash@ == commit_hash@,
            semver_view(r.semver) == semver_spec(name@),
            r.created_at == created_at,
            !r.is_release,
            r.release_name is None,
            r.release_url is None,
            r.published_at is None,
    {
        let semver = parse_semver(name.as_str());
        TagInfo {
            name,
            commit_hash,
            semver,
            created_at,
            is_release: false,
            release_name: None,
            release_url: None,
            published_at: None,
        }
    }
}

/// Priority tier: released versions, then unreleased versions, then other
/// releases, then other tags.
pub open spec fn tier(is_release: bool, is_semver: bool) -> int {
    if is_release && is_semver {
        0
    } else if !is_release && is_semver {
        1
    } else if is_release && !is_semver {
        2
    } else {
        3
    }
}

/// What the choice looks at in a tag: tier and commit time.
pub open spec fn tag_key(t: TagInfo) -> (int, i64) {
    (tier(t.is_release, t.semver is Some), t.created_at)
}

/// `a` is strictly preferred to `b`: a better tier, or the same tier and an
/// older commit.
pub open spec fn preferred(a: (int, i64), b: (int, i64)) -> bool {
    a.0 < b.0 || (a.0 == b.0 && a.1 < b.1)
}

/// `k` is the first of the most preferred candidates.
pub open spec fn is_best(c: Seq<TagInfo>, k: int) -> bool {
    &&& 0 <= k < c.len()
    &&& forall|j: int| 0 <= j < c.len() ==> !preferred(tag_key(#[trigger] c[j]), tag_key(c[k]))
    &&& forall|j: int| 0 <= j < k ==> preferred(tag_key(c[k]), tag_key(#[trigger] c[j]))
}

fn key_of(t: &TagInfo) -> (r: (u8, i64))
    ensures
        (r.0 as int, r.1) == tag_key(*t),
{
    let sem = t.semver.is_some();
    let tier: u8 = if t.is_release && sem {
        0
    } else if !t.is_release && sem {
        1
    } else if t.is_release && !sem {
        2
    } else {
        3
    };
    (tier, t.created_at)
}

/// Among tags that contain a commit, the one to report: the first of those in
/// the best tier with the oldest commit. `None` only when there is none.
pub fn pick_best_tag(candidates: &Vec<TagInfo>) -> (r: Option<usize>)
    ensures
        r is None <==> candidates@.len() == 0,
        r matches Some(k) ==> is_best(candidates@, k as int),
{
    let n = candidates.len();
    if n == 0 {
        return None;
    }
    let mut best: usize = 0;
    let mut best_key = key_of(&candidates[0]);
    let mut j: usize = 1;
    while j < n
        invariant
            0 <= best < j <= n,
            n == candidates@.len(),
            (best_key.0 as int, best_key.1) == tag_key(candidates@[best as int]),
            forall|i: int|
                0 <= i < j ==> !preferred(
                    tag_key(#[trigger] candidates@[i]),
                    tag_key(candidates@[best as int]),
                ),
            forall|i: int|
                0 <= i < best ==> preferred(
                    tag_key(candidates@[best as int]),
                    tag_key(#[trigger] candidates@[i]),
                ),
        decreases n - j,
    {
        let k = key_of(&candidates[j]);
        if k.0 < best_key.0 || (k.0 == best_key.0 && k.1 < best_key.1) {
            best = j;
            best_key = k;
        }
        j = j + 1;
    }
    Some(best)
}

/// The tags that may contain a commit of time `since`: a tag on an older
/// commit cannot.
pub open spec fn not_older(c: Seq<TagInfo>, since: i64) -> Seq<int>
    decreases c.len(),
{
    if c.len() == 0 {
        Seq::empty()
    } else if c.last().created_at >= since {
        not_older(c.drop_last(), since).push(c.len() - 1)
    } else {
        not_older(c.drop_last(), since)
    }
}

pub open spec fn index_view(v: Seq<usize>) -> Seq<int> {
    v.map_values(|x: usize| x as int)
}

/// Indices of the tags whose commit is not older than `since`, in order.
pub fn tags_not_older(tags: &Vec<TagInfo>, since: i64) -> (r: Vec<usize>)
    ensures
        index_view(r@) == not_older(tags@, since),
{
    let mut out: Vec<usize> = Vec::new();
    let mut i: usize = 0;
    while i < tags.len()
        invariant
            0 <= i <= tags@.len(),
            index_view(out@) == not_older(tags@.subrange(0, i as int), since),
        decreases tags@.len() - i,
    {
        let ghost pre = tags@.subrange(0, i as int);
        assert(tags@.subrange(0, i + 1).drop_last() == pre);
        if tags[i].created_at >= since {
            assert(index_view(out@.push(i)) == index_view(out@).push(i as int));
            out.push(i);
        }
        i = i + 1;
    }
    assert(tags@.subrange(0, tags@.len() as int) == tags@);
    out
}

/// A GitHub release.
#[derive(Debug, Clone, PartialEq, Eq)]
pub struct ReleaseInfo {
    pub tag_name: String,
    pub name: Option<String>,
    pub url: String,
    pub created_at: i64,
    pub published_at: Option<i64>,
    pub prerelease: bool,
}

/// How a commit relates to a tag, as GitHub's compare (tag → commit) reports it.
#[derive(Debug, Clone, Copy, PartialEq, Eq)]
pub enum CompareStatus {
    Ahead,
    Behind,
    Identical,
    Diverged,
}

/// The tag contains the commit iff the commit is behind it or the same.
pub open spec fn contains_spec(s: CompareStatus) -> bool {
    s == CompareStatus::Behind || s == CompareStatus::Identical
}

pub fn compare_contains(s: CompareStatus) -> (r: bool)
    ensures
        r == contains_spec(s),
{
    match s {
        CompareStatus::Behind | CompareStatus::Identical => true,
        _ => false,
    }
}

/// The tag of a release that contains the commit, from the compare answer
/// (status and the tag's own commit); `None` when it does not contain it.
pub fn release_tag_from_compare(release: &ReleaseInfo, status: CompareStatus, base_sha: String) -> (r:
    Option<TagInfo>)
    ensures
        r is Some <==> contains_spec(status),
        r matches Some(t) ==> {
            &&& t.name@ == release.tag_name@
            &&& t.commit_hash@ == base_sha@
            &&& semver_view(t.semver) == semver_spec(release.tag_name@)
            &&& t.is_release
            &&& t.release_name.deep_view() == release.name.deep_view()
            &&& t.release_url.deep_view() == Some(release.url@)
            &&& t.published_at == release.published_at
            &&& t.created_at == release.created_at
        },
{
    if !compare_contains(status) {
        return None;
    }
    let name = release.tag_name.clone();
    let semver = parse_semver(name.as_str());
    let release_name = match &release.name {
        Some(n) => Some(n.clone()),
        None => None,
    };
    Some(
        TagInfo {
            name,
            commit_hash: base_sha,
            semver,
            created_at: release.created_at,
            is_release: true,
            release_name,
            release_url: Some(release.url.clone()),
            published_at: release.published_at,
        },
    )
}

/// Newest first by creation time.
pub open spec fn newest_first(s: Seq<ReleaseInfo>) -> bool {
    forall|i: int, j: int| 0 <= i < j < s.len() ==> s[i].created_at >= s[j].created_at
}

/// The same releases, newest first.
pub fn sort_newest_first(page: Vec<ReleaseInfo>) -> (r: Vec<ReleaseInfo>)
    ensures
        newest_first(r@),
        r@.to_multiset() == page@.to_multiset(),
{
    broadcast use vstd::seq_lib::group_to_multiset_ensures, vstd::multiset::group_multiset_axioms;

    let mut rest = page;
    let mut out: Vec<ReleaseInfo> = Vec::new();
    assert(out@.to_multiset() =~= Multiset::empty());
    while rest.len() > 0
        invariant
            newest_first(out@),
            out@.to_multiset().add(rest@.to_multiset()) == page@.to_multiset(),
        decreases rest@.len(),
    {
        let ghost before_rest = rest@;
        let x = match rest.pop() {
            Some(x) => x,
            None => {
                return out;
            },
        };
        assert(before_rest == rest@.push(x));
        let mut p: usize = 0;
        while p < out.len() && out[p].created_at >= x.created_at
            invariant
                0 <= p <= out@.len(),
                forall|i: int| 0 <= i < p ==> out@[i].created_at >= x.created_at,
            decreases out@.len() - p,
        {
            p = p + 1;
        }
        let ghost before_out = out@;
        out.insert(p, x);
        assert(out@ == before_out.insert(p as int, x));
        assert forall|i: int, j: int| 0 <= i < j < out@.len() implies out@[i].created_at
            >= out@[j].created_at by {
            if j < p {
                assert(out@[i] == before_out[i] && out@[j] == before_out[j]);
            } else if j == p {
                assert(out@[i] == before_out[i]);
            } else if i == p {
                assert(out@[j] == before_out[j - 1]);
                assert(before_out[p as int].created_at < x.created_at);
            } else if i < p {
                assert(out@[i] == before_out[i] && out@[j] == before_out[j - 1]);
            } else {
                assert(out@[i] == before_out[i - 1] && out@[j] == before_out[j - 1]);
            }
        }
        proof {
            vstd::seq_lib::to_multiset_insert(before_out, p as int, x);
            vstd::seq_lib::to_multiset_build(rest@, x);
        }
        assert(out@.to_multiset() == before_out.to_multiset().insert(x));
        assert(before_rest.to_multiset() == rest@.to_multiset().insert(x));
        assert forall|a: ReleaseInfo|
            #[trigger] out@.to_multiset().add(rest@.to_multiset()).count(a) == before_out.to_multiset().add(
                before_rest.to_multiset(),
            ).count(a) by {
            if a == x {
            } else {
            }
        }
        assert(out@.to_multiset().add(rest@.to_multiset()) =~= before_out.to_multiset().add(
            before_rest.to_multiset(),
        ));
    }
    assert(rest@.to_multiset() =~= Multiset::empty());
    assert(out@.to_multiset().add(rest@.to_multiset()) =~= out@.to_multiset());
    out
}

/// A page of releases listed newest first, cut where they become older than
/// `since`: the releases kept are the page's releases not older than
/// `since`, newest first; the listing stops after this page when it was
/// empty or reached an older release.
pub fn select_page(page: Vec<ReleaseInfo>, since: i64) -> (r: (Vec<ReleaseInfo>, bool))
    ensures
        exists|s: Seq<ReleaseInfo>, k: int|
            {
                &&& newest_first(s)
                &&& s.to_multiset() == page@.to_multiset()
                &&& 0 <= k <= s.len()
                &&& r.0@ == s.subrange(0, k)
                &&& forall|i: int| 0 <= i < k ==> (#[trigger] s[i]).created_at >= since
                &&& forall|i: int| k <= i < s.len() ==> (#[trigger] s[i]).created_at < since
                &&& r.1 == (s.len() == 0 || k < s.len())
            },
{
    let sorted = sort_newest_first(page);
    let ghost s = sorted@;
    let n = sorted.len();
    let mut k: usize = 0;
    while k < n && sorted[k].created_at >= since
        invariant
            0 <= k <= n,
            n == sorted@.len(),
            forall|i: int| 0 <= i < k ==> (#[trigger] sorted@[i]).created_at >= since,
        decreases n - k,
    {
        k = k + 1;
    }
    assert forall|i: int| k <= i < s.len() implies (#[trigger] s[i]).created_at < since by {
        assert(s[k as int].created_at < since);
        if i > k {
            assert(s[k as int].created_at >= s[i].created_at);
        }
    }
    let stop = n == 0 || k < n;
    let mut kept = sorted;
    kept.truncate(k);
    assert(kept@ == s.subrange(0, k as int));
    (kept, stop)
}

} // verus!
