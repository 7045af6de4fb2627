use wtg_cli::commit::{CommitInfo, FileInfo};
use wtg_cli::errors::{classify_api_error, on_api_failure, FailureAction, Notice, WtgError};
use wtg_cli::fetch_state::{FetchState, MissAction};
use wtg_cli::input::{parse, GhRepoInfo, Query};
use wtg_cli::resolve::{EntryPoint, IdentifiedThing, Reply, Request, Resolver, Source, Step};
use wtg_cli::tags::{pick_best_tag, TagInfo};
use wtg_cli::timeline::{ExtendedIssueInfo, IssueState, PullRequestInfo};

/// Runs a resolution, answering each request with `answer`; returns the
/// outcome and the requests made.
fn run(
    query: Query,
    own: Option<GhRepoInfo>,
    mut answer: impl FnMut(&Request) -> Reply,
) -> (Result<IdentifiedThing, WtgError>, Vec<Request>) {
    let (mut resolver, mut step) = Resolver::start(query, own);
    let mut asked = Vec::new();
    loop {
        match step {
            Step::Finished(r) => return (r, asked),
            Step::Ask(req) => {
                let reply = answer(&req);
                asked.push(req);
                assert!(asked.len() < 50, "resolution does not end");
                step = resolver.on_reply(reply);
            }
        }
    }
}

fn coords(o: &str, r: &str) -> GhRepoInfo {
    GhRepoInfo::new(o.into(), r.into())
}

fn commit_at(hash: &str) -> CommitInfo {
    CommitInfo::from_parts(hash.into(), "Subject\n", "Ada".into(), "ada@example.com".into(), 1000)
}

fn merged_pr(repo: &GhRepoInfo, number: u64, sha: &str) -> PullRequestInfo {
    PullRequestInfo {
        number,
        repo_info: Some(repo.clone()),
        title: "Fix".into(),
        body: None,
        state: "closed".into(),
        url: format!("https://github.com/{}/{}/pull/{number}", repo.owner, repo.repo),
        merged: true,
        merge_commit_sha: Some(sha.into()),
        author: Some("ada".into()),
        author_url: None,
        created_at: Some(900),
    }
}

fn release_tag(name: &str, ts: i64, released: bool) -> TagInfo {
    let mut t = TagInfo::new(name.into(), format!("sha-{name}"), ts);
    t.is_release = released;
    t
}

fn not_found(what: &str) -> WtgError {
    WtgError::NotFound(what.into())
}

#[test]
fn merged_pr_resolves_to_commit_and_release() {
    let parsed = parse("#42", None).unwrap();
    let sha = "abc1234def";
    let (result, asked) = run(parsed.query, None, |req| match req {
        Request::FetchPr(42) => Reply::Pr(Ok(merged_pr(&coords("o", "r"), 42, sha))),
        Request::FindCommit(Source::Primary, h) if h == sha => Reply::Commit(Ok(commit_at(sha))),
        Request::EnrichCommit(_, c) => Reply::Commit(Ok(c.clone())),
        Request::FindRelease(Source::Primary, h, _) if h == sha => {
            let candidates = vec![release_tag("v0.9-rc1", 1100, false), release_tag("v1.0.0", 1200, true)];
            let best = pick_best_tag(&candidates).unwrap();
            Reply::Release(Some(candidates[best].clone()))
        }
        other => panic!("unexpected request {other:?}"),
    });
    match result.unwrap() {
        IdentifiedThing::Enriched(info) => {
            assert_eq!(info.entry_point, EntryPoint::PullRequestNumber(42));
            assert_eq!(info.pr.unwrap().number, 42);
            assert_eq!(info.commit.unwrap().hash, sha);
            assert_eq!(info.release.unwrap().name, "v1.0.0");
            assert!(info.issue.is_none());
        }
        other => panic!("unexpected {other:?}"),
    }
    assert_eq!(asked.len(), 4);
}

fn cross_project_issue(primary_release: Option<TagInfo>) -> (Result<IdentifiedThing, WtgError>, Vec<Request>) {
    let parsed = parse("https://github.com/o/r/issues/7", None).unwrap();
    let own = parsed.gh_repo_info.clone();
    assert_eq!(own, Some(coords("o", "r")));
    let other = coords("o", "r2");
    let sha = "feedbeef";
    run(parsed.query, own, move |req| match req {
        Request::FetchIssue(7) => Reply::Issue(Ok(ExtendedIssueInfo {
            number: 7,
            title: "Bug".into(),
            body: None,
            state: IssueState::Closed,
            url: "https://github.com/o/r/issues/7".into(),
            author: None,
            author_url: None,
            closing_prs: vec![merged_pr(&other, 9, sha)],
            created_at: Some(10),
            timeline_may_be_incomplete: false,
        })),
        Request::ForRepo(c) => {
            assert_eq!(c, &other);
            Reply::Sibling(true)
        }
        Request::FindCommit(Source::Sibling, h) if h == sha => Reply::Commit(Ok(commit_at(sha))),
        Request::EnrichCommit(Source::Sibling, c) => Reply::Commit(Ok(c.clone())),
        Request::FindRelease(Source::Primary, _, _) => Reply::Release(primary_release.clone()),
        Request::FindRelease(Source::Sibling, _, _) => Reply::Release(Some(release_tag("r2-v1.0.0", 2000, true))),
        other => panic!("unexpected request {other:?}"),
    })
}

#[test]
fn cross_project_issue_uses_sibling_backend() {
    let (result, asked) = cross_project_issue(None);
    match result.unwrap() {
        IdentifiedThing::Enriched(info) => {
            assert_eq!(info.entry_point, EntryPoint::IssueNumber(7));
            assert_eq!(info.issue.unwrap().number, 7);
            assert_eq!(info.pr.unwrap().number, 9);
            assert_eq!(info.commit.unwrap().hash, "feedbeef");
            assert_eq!(info.release.unwrap().name, "r2-v1.0.0");
        }
        other => panic!("unexpected {other:?}"),
    }
    assert!(matches!(asked[1], Request::ForRepo(_)));
    assert!(matches!(asked[4], Request::FindRelease(Source::Primary, _, _)));
    assert!(matches!(asked[5], Request::FindRelease(Source::Sibling, _, _)));
}

#[test]
fn cross_project_issue_prefers_issue_repository_release() {
    let (result, asked) = cross_project_issue(Some(release_tag("v3.0.0", 3000, true)));
    match result.unwrap() {
        IdentifiedThing::Enriched(info) => assert_eq!(info.release.unwrap().name, "v3.0.0"),
        other => panic!("unexpected {other:?}"),
    }
    assert_eq!(asked.len(), 5);
}

#[test]
fn unknown_absent_commit_is_not_found() {
    let parsed = parse("abc123d", None).unwrap();
    let mut state = FetchState::opened(false);
    let mut probes = 0;
    let mut fetches = 0;
    let (result, asked) = run(parsed.query, Some(coords("o", "r")), |req| match req {
        Request::FindCommit(Source::Primary, h) => {
            // Not in the local repository: consult the fetch bookkeeping.
            if state.on_local_miss(h, true, false) == MissAction::ProbeRemote {
                probes += 1;
                if state.on_probe(h.clone(), false) {
                    fetches += 1;
                }
            }
            Reply::Commit(Err(not_found(h)))
        }
        Request::FindFile(p) => Reply::File(Err(not_found(p))),
        Request::FindTag(t) => Reply::Tag(Err(not_found(t))),
        other => panic!("unexpected request {other:?}"),
    });
    assert_eq!(result, Err(not_found("abc123d")));
    assert_eq!(probes, 1);
    assert_eq!(fetches, 0);
    assert_eq!(state.fetched_commits, vec!["abc123d".to_string()]);
    assert_eq!(asked.len(), 3);
}

#[test]
fn rate_limit_aborts_with_one_notice() {
    let parsed = parse("https://github.com/o/r/pull/1", None).unwrap();
    assert_eq!(parsed.query, Query::Pr(1));
    let mut notices = Vec::new();
    let (result, asked) = run(parsed.query, parsed.gh_repo_info.clone(), |req| match req {
        Request::FetchPr(1) => {
            let failure = classify_api_error(Some(429), "API rate limit exceeded");
            let (action, notice) = on_api_failure(false, true, failure, "429".into());
            notices.extend(notice);
            match action {
                FailureAction::Fail(e) => Reply::Pr(Err(e)),
                FailureAction::RetryOnBackup => panic!("rate limit must not be retried"),
            }
        }
        other => panic!("unexpected request {other:?}"),
    });
    assert_eq!(result, Err(WtgError::GhRateLimit));
    assert_eq!(notices, vec![Notice::GhRateLimitHit]);
    assert_eq!(asked.len(), 1);
}

#[test]
fn numeric_token_probes_in_order() {
    let (result, asked) = run(Query::Unknown("12".into()), None, |req| match req {
        Request::FindCommit(_, h) => Reply::Commit(Err(not_found(h))),
        Request::FetchPr(12) => Reply::Pr(Err(WtgError::Unsupported("PR lookup".into()))),
        Request::FetchIssue(12) => Reply::Issue(Err(not_found("Issue #12"))),
        Request::FindFile(p) => Reply::File(Err(not_found(p))),
        Request::FindTag(t) => Reply::Tag(Ok(release_tag(t, 5, false))),
        other => panic!("unexpected request {other:?}"),
    });
    let kinds: Vec<&str> = asked
        .iter()
        .map(|r| match r {
            Request::FindCommit(..) => "commit",
            Request::FetchPr(_) => "pr",
            Request::FetchIssue(_) => "issue",
            Request::FindFile(_) => "file",
            Request::FindTag(_) => "tag",
            _ => "other",
        })
        .collect();
    assert_eq!(kinds, ["commit", "pr", "issue", "file", "tag"]);
    match result.unwrap() {
        IdentifiedThing::TagOnly(t, url) => {
            assert_eq!(t.name, "12");
            assert_eq!(url, None);
        }
        other => panic!("unexpected {other:?}"),
    }
}

#[test]
fn issue_or_pr_not_found_and_fatal_errors() {
    let (result, _) = run(Query::IssueOrPr(5), None, |req| match req {
        Request::FetchPr(5) => Reply::Pr(Err(not_found("PR #5"))),
        Request::FetchIssue(5) => Reply::Issue(Err(not_found("Issue #5"))),
        other => panic!("unexpected request {other:?}"),
    });
    assert_eq!(result, Err(not_found("#5")));
    let (result, asked) = run(Query::Unknown("deadbeef".into()), None, |req| match req {
        Request::FindCommit(..) => Reply::Commit(Err(WtgError::Timeout)),
        other => panic!("unexpected request {other:?}"),
    });
    assert_eq!(result, Err(WtgError::Timeout));
    assert_eq!(asked.len(), 1);
}

#[test]
fn file_and_tag_reports_carry_links() {
    let own = Some(coords("o", "r"));
    let file = FileInfo {
        path: "README.md".into(),
        last_commit: commit_at("b0b0b0b0"),
        previous_authors: vec![
            ("a0a0a0a".into(), "Ann".into(), "ann@users.noreply.github.com".into()),
            ("c0c0c0c".into(), "Cy".into(), "cy@example.com".into()),
        ],
    };
    let (result, _) = run(Query::FilePath("README.md".into()), own.clone(), |req| match req {
        Request::FindFile(p) if p == "README.md" => Reply::File(Ok(file.clone())),
        Request::FindRelease(Source::Primary, h, _) if h == "b0b0b0b0" => Reply::Release(None),
        other => panic!("unexpected request {other:?}"),
    });
    match result.unwrap() {
        IdentifiedThing::File(f) => {
            assert_eq!(f.commit_url.as_deref(), Some("https://github.com/o/r/commit/b0b0b0b0"));
            assert_eq!(f.author_urls, vec![Some("https://github.com/ann".to_string()), None]);
            assert_eq!(f.file_info, file);
        }
        other => panic!("unexpected {other:?}"),
    }
    let (result, _) = run(Query::Unknown("v1.0.0".into()), own, |req| match req {
        Request::FindCommit(..) => Reply::Commit(Err(not_found("v1.0.0"))),
        Request::FindFile(_) => Reply::File(Err(WtgError::Unsupported("file lookup".into()))),
        Request::FindTag(_) => Reply::Tag(Ok(release_tag("v1.0.0", 1, true))),
        other => panic!("unexpected request {other:?}"),
    });
    match result.unwrap() {
        IdentifiedThing::TagOnly(_, url) => {
            assert_eq!(url.as_deref(), Some("https://github.com/o/r/releases/tag/v1%2E0%2E0"))
        }
        other => panic!("unexpected {other:?}"),
    }
}

#[test]
fn unmerged_pr_and_open_issue_reports() {
    let mut open_pr = merged_pr(&coords("o", "r"), 3, "x");
    open_pr.merged = false;
    open_pr.merge_commit_sha = None;
    let (result, asked) = run(Query::Pr(3), None, |_| Reply::Pr(Ok(open_pr.clone())));
    match result.unwrap() {
        IdentifiedThing::Enriched(info) => {
            assert!(info.commit.is_none() && info.release.is_none());
            assert_eq!(info.pr.unwrap().number, 3);
        }
        other => panic!("unexpected {other:?}"),
    }
    assert_eq!(asked.len(), 1);
    let (result, _) = run(Query::GitCommit("abc".into()), None, |_| Reply::Sibling(true));
    assert!(matches!(result, Err(WtgError::Unsupported(_))));
}
