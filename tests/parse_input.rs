use wtg_cli::input::{
    check_path, collect_segments, is_allowed_github_host, parse, sanitize_owner_repo_segment,
    sanitize_query, try_parse_input, try_parse_input_str, GhUrlHostType, InputError, Query,
    RejectReason,
};
use wtg_cli::links::commit_url;

fn remote_parse(input: &str) -> (String, String, Query) {
    let parsed = try_parse_input(input, None).unwrap_or_else(|| panic!("failed to parse {input}"));
    let info = parsed.gh_repo_info.clone().expect("coordinates");
    (info.owner, info.repo, parsed.query)
}

fn with_repo(input: &str, repo: &str) -> (String, String, Query) {
    let parsed = try_parse_input(input, Some(repo))
        .unwrap_or_else(|| panic!("failed to parse {input} with repo {repo}"));
    let info = parsed.gh_repo_info.clone().expect("coordinates");
    (info.owner, info.repo, parsed.query)
}

fn local(input: &str) -> Query {
    let parsed = try_parse_input(input, None).expect("should parse");
    assert!(parsed.gh_repo_info().is_none());
    parsed.query
}

fn owner_repo(q: Query) -> (String, String, Query) {
    ("owner".to_string(), "repo".to_string(), q)
}

#[test]
fn parses_github_issue_urls() {
    for url in [
        "https://github.com/owner/repo/issues/42",
        "https://github.com/owner/repo/issues/42#issuecomment-123456",
        "https://github.com/owner/repo/issues/42?tab=comments",
    ] {
        assert_eq!(remote_parse(url), owner_repo(Query::Issue(42)));
    }
    assert_eq!(
        remote_parse("https://github.com/owner/repo/issues/999999"),
        owner_repo(Query::Issue(999_999))
    );
}

#[test]
fn parses_github_pr_urls() {
    for url in [
        "https://github.com/owner/repo/pull/7",
        "https://github.com/owner/repo/pull/7/files",
        "https://github.com/owner/repo/pull/7/files?diff=split",
        "https://github.com/owner/repo/pull/7#discussion_r987654321",
        "https://github.com/owner/repo/pull/7#issuecomment-abcdef",
    ] {
        assert_eq!(remote_parse(url), owner_repo(Query::Pr(7)));
    }
    assert_eq!(
        remote_parse("https://github.com/owner/repo/pull/123456"),
        owner_repo(Query::Pr(123_456))
    );
}

#[test]
fn parses_github_commit_urls() {
    assert_eq!(
        remote_parse("https://github.com/owner/repo/commit/abc123def456"),
        owner_repo(Query::GitCommit("abc123def456".into()))
    );
    assert_eq!(
        remote_parse("https://github.com/owner/repo/commit/abc123d"),
        owner_repo(Query::GitCommit("abc123d".into()))
    );
    assert_eq!(
        remote_parse("https://github.com/owner/repo/commit/abc123#diff-1"),
        owner_repo(Query::GitCommit("abc123".into()))
    );
}

#[test]
fn parses_github_file_urls() {
    assert_eq!(
        remote_parse("https://github.com/owner/repo/blob/main/README.md"),
        owner_repo(Query::FilePath("README.md".into()))
    );
    assert_eq!(
        remote_parse("https://github.com/owner/repo/blob/main/a/b/c/d.txt"),
        owner_repo(Query::FilePath("a/b/c/d.txt".into()))
    );
    assert_eq!(
        remote_parse("https://github.com/owner/repo/tree/main/src"),
        owner_repo(Query::FilePath("src".into()))
    );
    // The first segment after `tree` is taken as the ref, even when the
    // branch name itself holds a slash.
    assert_eq!(
        remote_parse("https://github.com/owner/repo/tree/feat/new-feature/docs/api"),
        owner_repo(Query::FilePath("new-feature/docs/api".into()))
    );
}

#[test]
fn parses_alternate_github_url_formats() {
    assert_eq!(remote_parse("github.com/owner/repo/issues/101"), owner_repo(Query::Issue(101)));
    assert_eq!(
        remote_parse("github.com/owner/repo/issues/101#issuecomment-1"),
        owner_repo(Query::Issue(101))
    );
    assert_eq!(remote_parse("//github.com/owner/repo/pull/15"), owner_repo(Query::Pr(15)));
    assert_eq!(remote_parse("//github.com/owner/repo/pull/15?tab=commits"), owner_repo(Query::Pr(15)));
    assert_eq!(remote_parse("https://www.github.com/owner/repo/pull/7"), owner_repo(Query::Pr(7)));
    assert_eq!(
        remote_parse("https://www.github.com/owner/repo/pull/7#discussion_r42"),
        owner_repo(Query::Pr(7))
    );
}

#[test]
fn parses_github_ssh_urls() {
    assert_eq!(remote_parse("git@github.com:owner/repo/pull/9"), owner_repo(Query::Pr(9)));
    assert_eq!(remote_parse("git@github.com:owner/repo/pull/9#discussion_r123"), owner_repo(Query::Pr(9)));
    assert_eq!(remote_parse("git@github.com:owner/repo/issues/42"), owner_repo(Query::Issue(42)));
    assert_eq!(
        remote_parse("git@github.com:owner/repo/commit/abc123"),
        owner_repo(Query::GitCommit("abc123".into()))
    );
}

#[test]
fn parses_github_api_urls() {
    assert_eq!(
        remote_parse("https://api.github.com/repos/owner/repo/issues/42"),
        owner_repo(Query::Issue(42))
    );
}

#[test]
fn parses_local_inputs() {
    assert_eq!(local("#42"), Query::IssueOrPr(42));
    assert_eq!(local("42"), Query::Unknown("42".into()));
    assert_eq!(local("  #99  "), Query::IssueOrPr(99));
    assert_eq!(local("abc123d"), Query::Unknown("abc123d".into()));
    assert_eq!(local("  abc123  "), Query::Unknown("abc123".into()));
    assert_eq!(local("v1.0.0"), Query::Unknown("v1.0.0".into()));
    assert_eq!(local("README.md"), Query::Unknown("README.md".into()));
    assert_eq!(local("src/lib.rs"), Query::Unknown("src/lib.rs".into()));
    assert_eq!(local("src/файл.rs"), Query::Unknown("src/файл.rs".into()));
    assert_eq!(local("версия-1.0"), Query::Unknown("версия-1.0".into()));
    assert_eq!(local("src/👍.md"), Query::Unknown("src/👍.md".into()));
}

#[test]
fn parses_simple_owner_repo_format() {
    for (input, o, r) in [
        ("owner/repo", "owner", "repo"),
        ("my-org/my-repo", "my-org", "my-repo"),
        ("my_org/my_repo", "my_org", "my_repo"),
        ("my.org/my.repo", "my.org", "my.repo"),
        ("my-org_test/repo.name-2", "my-org_test", "repo.name-2"),
    ] {
        assert_eq!(
            with_repo("dummy", input),
            (o.to_string(), r.to_string(), Query::Unknown("dummy".into()))
        );
    }
}

#[test]
fn parses_various_repo_url_formats() {
    for url in [
        "https://github.com/owner/repo",
        "https://github.com/owner/repo.git",
        "https://www.github.com/owner/repo",
        "https://api.github.com/repos/owner/repo",
        "git@github.com:owner/repo",
        "git@github.com:owner/repo.git",
    ] {
        assert_eq!(with_repo("dummy", url), owner_repo(Query::Unknown("dummy".into())));
    }
}

#[test]
fn parses_input_with_explicit_repo() {
    assert_eq!(with_repo("#42", "owner/repo"), owner_repo(Query::IssueOrPr(42)));
    assert_eq!(with_repo("abc123", "owner/repo"), owner_repo(Query::Unknown("abc123".into())));
    assert_eq!(
        with_repo("src/lib.rs", "https://github.com/owner/repo"),
        owner_repo(Query::Unknown("src/lib.rs".into()))
    );
}

#[test]
fn rejects_malformed_github_urls() {
    for url in [
        "https://github.com/owner space/repo/issues/1",
        "https://github.com/owner/repo space/issues/1",
        "https://github.com/owner~/repo/issues/1",
        "https://github.com/owner/repo~/issues/1",
        "https://github.com//repo/issues/1",
        "https://github.com/owner//issues/1",
        "https://github.com/   /repo/issues/1",
    ] {
        assert!(try_parse_input(url, None).is_none(), "should reject {url}");
    }
}

#[test]
fn rejects_unsafe_file_paths_in_urls_and_local() {
    for input in [
        "https://github.com/owner/repo/blob/main/../../../etc/passwd",
        "https://github.com/owner/repo/blob/main/src/../../../etc/passwd",
        "/etc/passwd",
        "../../../etc/passwd",
        "src/../../../etc/passwd",
    ] {
        assert!(try_parse_input(input, None).is_none(), "should reject {input}");
    }
}

#[test]
fn rejects_empty_url_inputs() {
    for input in ["", "   ", "\n\n", "\t\t"] {
        assert!(try_parse_input(input, None).is_none(), "should reject {input:?}");
    }
}

#[test]
fn rejects_control_characters() {
    for input in ["test\0data", "test\ndata", "test\rdata", "test\tdata"] {
        assert!(try_parse_input(input, None).is_none(), "should reject {input:?}");
    }
}

#[test]
fn rejects_malformed_repo_urls() {
    for repo in [
        "owner space/repo",
        "owner/repo space",
        "owner~/repo",
        "owner/repo~",
        "owner!/repo",
        "owner/repo/extra",
        "justowner",
        "/repo",
        "owner/",
        "",
        "   ",
    ] {
        assert!(try_parse_input("dummy", Some(repo)).is_none(), "should reject {repo:?}");
    }
}

#[test]
fn each_input_error_has_an_input() {
    assert_eq!(parse("   ", None), Err(InputError::EmptyInput));
    assert_eq!(
        parse("abc\u{7}def", None),
        Err(InputError::SecurityRejection(RejectReason::ControlCharacter))
    );
    assert_eq!(
        parse("../secret", None),
        Err(InputError::SecurityRejection(RejectReason::UnsafePath))
    );
    assert_eq!(parse("https://gitlab.com/o/r/-/issues/1", None), Err(InputError::NotGitHubUrl));
    assert_eq!(parse("git@gitlab.com:o/r.git", None), Err(InputError::NotGitHubUrl));
    assert_eq!(
        parse("https://github.com/o/r/wiki/Home", None),
        Err(InputError::MalformedGitHubUrl)
    );
    assert_eq!(parse("x", Some("https://gitlab.com/o/r")), Err(InputError::NotGitHubUrl));
    assert_eq!(parse("x", Some("owner/repo/extra")), Err(InputError::MalformedGitHubUrl));
}

#[test]
fn control_characters_are_refused_whatever_the_flag() {
    for flag in [None, Some("owner/repo")] {
        assert_eq!(
            parse("#4\u{0}2", flag),
            Err(InputError::SecurityRejection(RejectReason::ControlCharacter))
        );
        assert_eq!(
            parse(" abc\r\ndef", flag),
            Err(InputError::SecurityRejection(RejectReason::ControlCharacter))
        );
        assert_eq!(parse(" \t\n ", flag), Err(InputError::EmptyInput));
    }
}

#[test]
fn parsed_paths_are_never_absolute_or_parent() {
    for input in [
        "https://github.com/o/r/blob/main/a/./b",
        "https://github.com/o/r/tree/main/docs",
        "src/lib.rs",
        "a/b/../c",
        "/abs",
        "..",
    ] {
        if let Ok(p) = parse(input, None) {
            match p.query {
                Query::FilePath(path) | Query::Unknown(path) => {
                    assert!(!path.starts_with('/'), "{path}");
                    assert!(!path.split('/').any(|c| c == ".."), "{path}");
                }
                _ => {}
            }
        }
    }
    assert_eq!(parse("a/b/../c", None), Err(InputError::SecurityRejection(RejectReason::UnsafePath)));
}

#[test]
fn commit_url_round_trips() {
    let url = "https://github.com/owner/repo/commit/0123abcd";
    let parsed = parse(url, None).unwrap();
    let info = parsed.gh_repo_info.clone().unwrap();
    match &parsed.query {
        Query::GitCommit(h) => assert_eq!(commit_url(&info, h), url),
        other => panic!("unexpected {other:?}"),
    }
    // Names with safe punctuation come back percent-encoded.
    let parsed = parse("https://github.com/my-org/my.repo/commit/abc", None).unwrap();
    let info = parsed.gh_repo_info.clone().unwrap();
    assert_eq!(
        commit_url(&info, "abc"),
        "https://github.com/my%2Dorg/my%2Erepo/commit/abc"
    );
}

#[test]
fn sanitizers_trim_and_refuse() {
    assert_eq!(sanitize_query("  #99 "), Some("#99".to_string()));
    assert_eq!(sanitize_query(" \n "), None);
    assert_eq!(sanitize_query("a\u{1b}b"), None);
    assert_eq!(sanitize_owner_repo_segment(" my.repo "), Some("my.repo".to_string()));
    assert_eq!(sanitize_owner_repo_segment("my repo"), None);
    assert_eq!(sanitize_owner_repo_segment(""), None);
    assert_eq!(try_parse_input_str("#7"), Some(Query::IssueOrPr(7)));
    assert_eq!(try_parse_input_str("#+7"), Some(Query::IssueOrPr(7)));
    assert_eq!(try_parse_input_str("#x"), Some(Query::Unknown("#x".into())));
    assert_eq!(try_parse_input_str("#18446744073709551616"), Some(Query::Unknown("#18446744073709551616".into())));
}

#[test]
fn path_and_host_helpers() {
    assert!(check_path("src/lib.rs"));
    assert!(!check_path(""));
    assert!(!check_path("/etc"));
    assert!(!check_path("a/../b"));
    assert!(check_path("a/..b"));
    assert_eq!(collect_segments("/a//b/c/"), vec!["a", "b", "c"]);
    assert_eq!(is_allowed_github_host("www.GitHub.com"), GhUrlHostType::Github);
    assert_eq!(is_allowed_github_host("www.www.api.github.com"), GhUrlHostType::GithubApi);
    assert_eq!(is_allowed_github_host("gitlab.com"), GhUrlHostType::Other);
}
