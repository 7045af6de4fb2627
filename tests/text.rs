use wtg_cli::input::GhRepoInfo;
use wtg_cli::repo_manager::RepoManager;
use wtg_cli::text::{contains_str, count_lines, ends_with, parse_u64, split_all, split_fields, starts_with, str_eq, trim, trim_end};
use wtg_cli::timeline::PullRequestRef;

#[test]
fn trims_unicode_whitespace() {
    assert_eq!(trim("\u{a0} x y \u{3000}\n"), "x y");
    assert_eq!(trim("   "), "");
    assert_eq!(trim_end("a \t\n"), "a");
    assert_eq!(trim_end(" a"), " a");
}

#[test]
fn splits_and_searches() {
    assert_eq!(split_fields("//a/b//c", '/'), vec!["a", "b", "c"]);
    assert_eq!(split_all("a::b", ':'), vec!["a", "", "b"]);
    assert_eq!(split_all("", ':'), vec![""]);
    assert!(starts_with("github.com/x", "github.com/"));
    assert!(!starts_with("git", "github"));
    assert!(ends_with("me@users.noreply.github.com", "@users.noreply.github.com"));
    assert!(contains_str("https://x", "://"));
    assert!(!contains_str("https:/x", "://"));
    assert!(str_eq("é", "é") && !str_eq("e", "é"));
}

#[test]
fn parses_unsigned_integers_like_std() {
    assert_eq!(parse_u64("42"), Some(42));
    assert_eq!(parse_u64("+7"), Some(7));
    assert_eq!(parse_u64("007"), Some(7));
    assert_eq!(parse_u64("18446744073709551615"), Some(u64::MAX));
    assert_eq!(parse_u64("18446744073709551616"), None);
    for bad in ["", "+", "-1", "4 2", "0x10", "١"] {
        assert_eq!(parse_u64(bad), bad.parse::<u64>().ok(), "{bad}");
    }
}

#[test]
fn counts_lines_like_std() {
    for text in ["", "a", "a\n", "a\nb", "a\n\nb\n", "\n", "a\r\nb"] {
        assert_eq!(count_lines(text), text.lines().count(), "{text:?}");
    }
}

#[test]
fn repository_locations() {
    let local = RepoManager::local("/work/project".into());
    assert!(!local.is_remote());
    assert_eq!(local.remote_info(), None);
    assert_eq!(local.path(), "/work/project");
    let cached = RepoManager::remote("/cache/o/r".into(), GhRepoInfo::new("o".into(), "r".into()));
    assert!(cached.is_remote());
    assert_eq!(cached.remote_info(), Some(("o".to_string(), "r".to_string())));
}

#[test]
fn pull_request_references() {
    let r = PullRequestRef::new(GhRepoInfo::new("o".into(), "r2".into()), 9);
    assert_eq!((r.number, r.owner.as_str(), r.repo.as_str()), (9, "o", "r2"));
    assert_eq!(r.coords(), GhRepoInfo::new("o".into(), "r2".into()));
}
