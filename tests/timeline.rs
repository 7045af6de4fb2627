use wtg_cli::input::GhRepoInfo;
use wtg_cli::timeline::{needs_timeline, ClosingPrScan, IssueState, PullRequestInfo, TimelineEventKind};

fn pr(repo: &str, number: u64, merged: bool) -> PullRequestInfo {
    PullRequestInfo {
        number,
        repo_info: Some(GhRepoInfo::new("o".into(), repo.into())),
        title: format!("PR {number}"),
        body: None,
        state: "closed".into(),
        url: format!("https://github.com/o/{repo}/pull/{number}"),
        merged,
        merge_commit_sha: merged.then(|| format!("sha{number}")),
        author: None,
        author_url: None,
        created_at: None,
    }
}

#[test]
fn closed_event_adopts_one_pr() {
    let mut scan = ClosingPrScan::new();
    assert!(!scan.step(TimelineEventKind::CrossReferenced, pr("r", 3, true)));
    assert!(scan.step(TimelineEventKind::Closed, pr("r2", 9, true)));
    assert!(scan.step(TimelineEventKind::Referenced, pr("r", 4, true)));
    assert!(scan.step(TimelineEventKind::Closed, pr("r", 5, true)));
    assert_eq!(scan.finish(), vec![pr("r2", 9, true)]);
}

#[test]
fn references_are_deduplicated_and_unmerged_ignored() {
    let mut scan = ClosingPrScan::new();
    scan.step(TimelineEventKind::CrossReferenced, pr("r", 3, true));
    scan.step(TimelineEventKind::Referenced, pr("r", 3, true));
    scan.step(TimelineEventKind::CrossReferenced, pr("r2", 3, true));
    scan.step(TimelineEventKind::Closed, pr("r", 8, false));
    scan.step(TimelineEventKind::Other, pr("r", 6, true));
    assert!(!scan.done);
    assert_eq!(scan.finish(), vec![pr("r", 3, true), pr("r2", 3, true)]);
}

#[test]
fn only_closed_issues_read_the_timeline() {
    assert!(needs_timeline(IssueState::Closed));
    assert!(!needs_timeline(IssueState::Open));
}
