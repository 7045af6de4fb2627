use wtg_cli::tags::{
    compare_contains, pick_best_tag, release_tag_from_compare, select_page, sort_newest_first, tags_not_older,
    CompareStatus, ReleaseInfo, TagInfo,
};

fn tag(name: &str, ts: i64, released: bool) -> TagInfo {
    let mut t = TagInfo::new(name.to_string(), format!("sha-{name}"), ts);
    t.is_release = released;
    t
}

#[test]
fn prefers_released_versions() {
    let tags = vec![tag("v0.9-rc1", 10, false), tag("v1.0.0", 20, true)];
    assert_eq!(pick_best_tag(&tags), Some(1));
}

#[test]
fn tier_order_then_oldest() {
    let tags = vec![
        tag("nightly", 1, false),
        tag("stable-build", 2, true),
        tag("v2.0.0", 30, false),
        tag("v1.5.0", 20, false),
        tag("v1.4.0", 20, false),
    ];
    // unreleased versions beat releases that are not versions; oldest wins,
    // the first of equals is kept
    assert_eq!(pick_best_tag(&tags), Some(3));
    let only_plain = vec![tag("b", 5, false), tag("a", 5, false), tag("rel", 9, true)];
    assert_eq!(pick_best_tag(&only_plain), Some(2));
    assert_eq!(pick_best_tag(&vec![]), None);
}

#[test]
fn filters_tags_by_commit_time() {
    let tags = vec![tag("a", 5, false), tag("b", 10, false), tag("c", 15, false)];
    assert_eq!(tags_not_older(&tags, 10), vec![1, 2]);
    assert_eq!(tags_not_older(&tags, 16), Vec::<usize>::new());
}

fn release(name: &str, created: i64) -> ReleaseInfo {
    ReleaseInfo {
        tag_name: name.to_string(),
        name: Some(format!("Release {name}")),
        url: format!("https://github.com/o/r/releases/tag/{name}"),
        created_at: created,
        published_at: Some(created + 1),
        prerelease: false,
    }
}

#[test]
fn compare_decides_containment() {
    assert!(compare_contains(CompareStatus::Behind));
    assert!(compare_contains(CompareStatus::Identical));
    assert!(!compare_contains(CompareStatus::Ahead));
    assert!(!compare_contains(CompareStatus::Diverged));
    let r = release("v1.2.0", 100);
    let t = release_tag_from_compare(&r, CompareStatus::Behind, "base".into()).unwrap();
    assert_eq!(t.name, "v1.2.0");
    assert_eq!(t.commit_hash, "base");
    assert!(t.is_release && t.is_semver());
    assert_eq!(t.release_url.as_deref(), Some("https://github.com/o/r/releases/tag/v1.2.0"));
    assert_eq!(release_tag_from_compare(&r, CompareStatus::Diverged, "base".into()), None);
}

#[test]
fn pages_are_sorted_and_cut() {
    let page = vec![release("a", 5), release("b", 30), release("c", 20), release("d", 1)];
    let sorted = sort_newest_first(page.clone());
    let names: Vec<_> = sorted.iter().map(|r| r.tag_name.as_str()).collect();
    assert_eq!(names, ["b", "c", "a", "d"]);
    let (kept, stop) = select_page(page, 5);
    let names: Vec<_> = kept.iter().map(|r| r.tag_name.as_str()).collect();
    assert_eq!(names, ["b", "c", "a"]);
    assert!(stop);
    let (kept, stop) = select_page(vec![release("x", 9), release("y", 7)], 0);
    assert_eq!(kept.len(), 2);
    assert!(!stop);
    let (kept, stop) = select_page(vec![], 0);
    assert!(kept.is_empty() && stop);
}
