use wtg_cli::semver::{is_semver_tag, is_stable_semver, parse_semver, Semver};

fn v(major: u32, minor: u32, patch: Option<u32>) -> Semver {
    Semver { major, minor, patch, build: None, pre_release: None, build_metadata: None }
}

#[test]
fn python_prefixed_beta() {
    let parsed = parse_semver("py-v1.0.0b1").unwrap();
    assert_eq!(parsed.major, 1);
    assert_eq!(parsed.minor, 0);
    assert_eq!(parsed.patch, Some(0));
    assert_eq!(parsed.pre_release.as_deref(), Some("b1"));
    assert!(is_semver_tag("py-v1.0.0b1"));
    assert!(!is_stable_semver("py-v1.0.0b1"));
}

#[test]
fn recognizes_common_shapes() {
    assert_eq!(parse_semver("v1.2.3"), Some(v(1, 2, Some(3))));
    assert_eq!(parse_semver("1.2"), Some(v(1, 2, None)));
    assert_eq!(parse_semver("rust-v0.10.7"), Some(v(0, 10, 7.into())));
    let four = parse_semver("1.2.3.4").unwrap();
    assert_eq!(four.build, Some(4));
    let pre = parse_semver("v2.0.0-rc.1").unwrap();
    assert_eq!(pre.pre_release.as_deref(), Some("rc.1"));
    let rc = parse_semver("1.2.3rc12").unwrap();
    assert_eq!(rc.pre_release.as_deref(), Some("rc12"));
    let meta = parse_semver("1.0.0-alpha+build.5").unwrap();
    assert_eq!(meta.pre_release.as_deref(), Some("alpha"));
    assert_eq!(meta.build_metadata.as_deref(), Some("build.5"));
    let only_meta = parse_semver("1.0.0+20240101").unwrap();
    assert_eq!(only_meta.pre_release, None);
    assert_eq!(only_meta.build_metadata.as_deref(), Some("20240101"));
}

#[test]
fn rejects_non_versions() {
    for tag in ["abc", "1", "v", "1.x", "1.2.x", "v1.2.3-", "1.2.3+", "1.2.3beta", "1.2.3a", "Py-1.0", "4294967296.0"] {
        assert_eq!(parse_semver(tag), None, "{tag}");
        assert!(!is_semver_tag(tag));
    }
}

#[test]
fn stability() {
    assert!(is_stable_semver("v1.2.3"));
    assert!(!is_stable_semver("v1.2.3-rc1"));
    assert!(!is_stable_semver("1.2.3.4"));
    assert!(!is_stable_semver("1.2.3+meta"));
    assert!(!is_stable_semver("nightly"));
    assert!(parse_semver("1.2.3").unwrap().is_stable());
}

#[test]
fn reparsing_gives_the_same_version() {
    for tag in ["py-v1.0.0b1", "v1.2.3-rc.1+m", "1.2", "nope"] {
        assert_eq!(parse_semver(tag), parse_semver(tag));
    }
}
