use wtg_cli::input::{parse_github_repo_url, parse_github_url};

fn assert_issue_or_pr(url: &str, expected_query: &str) {
    let parsed = parse_github_url(url).unwrap_or_else(|| panic!("failed to parse {url}"));
    assert_eq!(parsed.owner(), Some("owner"));
    assert_eq!(parsed.repo(), Some("repo"));
    assert_eq!(parsed.query(), expected_query);
}

#[test]
fn parses_issue_urls_with_fragments_and_queries() {
    let urls = [
        "https://github.com/owner/repo/issues/42",
        "https://github.com/owner/repo/issues/42#issuecomment-123456",
        "https://github.com/owner/repo/issues/42?tab=comments",
    ];

    for url in urls {
        assert_issue_or_pr(url, "#42");
    }
}

#[test]
fn parses_pr_urls_with_files_views_and_comments() {
    let urls = [
        "https://github.com/owner/repo/pull/7",
        "https://github.com/owner/repo/pull/7/files",
        "https://github.com/owner/repo/pull/7/files?diff=split",
        "https://github.com/owner/repo/pull/7#discussion_r987654321",
        "https://github.com/owner/repo/pull/7#issuecomment-abcdef",
    ];

    for url in urls {
        assert_issue_or_pr(url, "#7");
    }
}

#[test]
fn parses_www_and_scheme_less_urls() {
    let urls = [
        "github.com/owner/repo/issues/101#issuecomment-1",
        "//github.com/owner/repo/pull/15?tab=commits",
        "https://www.github.com/owner/repo/pull/7#discussion_r42",
    ];

    assert_issue_or_pr(urls[0], "#101");
    assert_issue_or_pr(urls[1], "#15");
    assert_issue_or_pr(urls[2], "#7");
}

#[test]
fn parses_git_repo_urls() {
    let repo_info = parse_github_repo_url("https://github.com/owner/repo.git").unwrap();
    assert_eq!(repo_info.owner(), "owner");
    assert_eq!(repo_info.repo(), "repo");

    let repo_info = parse_github_repo_url("https://api.github.com/repos/owner/repo").unwrap();
    assert_eq!(repo_info.owner(), "owner");
    assert_eq!(repo_info.repo(), "repo");
}

#[test]
fn parses_git_ssh_urls() {
    let parsed = parse_github_url("git@github.com:owner/repo/pull/9#discussion_r123").unwrap();
    assert_eq!(parsed.owner(), Some("owner"));
    assert_eq!(parsed.repo(), Some("repo"));
    assert_eq!(parsed.query(), "#9");

    let repo_info = parse_github_repo_url("git@github.com:owner/repo.git").unwrap();
    assert_eq!(repo_info.owner(), "owner");
    assert_eq!(repo_info.repo(), "repo");
}

#[test]
fn rejects_malformed_owner_repo_segments() {
    assert!(parse_github_repo_url("owner space/repo").is_none());
    assert!(parse_github_repo_url("owner/repo~").is_none());
    assert!(parse_github_url("https://github.com/owner space/repo/issues/1").is_none());
}
