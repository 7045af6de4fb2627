use wtg_cli::backend_choice::{best_remote, plan_for_coords, plan_for_local, remote_host_kind, BackendKind, HostKind, Remote};
use wtg_cli::errors::{Notice, WtgError};
use wtg_cli::input::GhRepoInfo;

fn remote_named(name: &str, url: &str) -> Remote {
    Remote { name: name.into(), url: url.into() }
}

#[test]
fn explicit_coordinates() {
    let c = GhRepoInfo::new("o".into(), "r".into());
    assert_eq!(plan_for_coords(c.clone(), false, true), Err(WtgError::GitHubClientFailed));
    let p = plan_for_coords(c.clone(), true, true).unwrap();
    assert_eq!((p.kind, p.notice), (BackendKind::Combined, None));
    let p = plan_for_coords(c, true, false).unwrap();
    assert_eq!((p.kind, p.notice), (BackendKind::ApiOnly, Some(Notice::ApiOnly)));
}

#[test]
fn local_repository_plans() {
    let p = plan_for_local(&vec![], true);
    assert_eq!((p.kind, p.notice), (BackendKind::GitOnly, Some(Notice::NoRemotes)));
    let gh = vec![remote_named("fork", "https://gitlab.com/x/y"), remote_named("origin", "git@github.com:o/r.git")];
    let p = plan_for_local(&gh, true);
    assert_eq!(p.kind, BackendKind::Combined);
    assert_eq!(p.coords, Some(GhRepoInfo::new("o".into(), "r".into())));
    let p = plan_for_local(&gh, false);
    assert_eq!((p.kind, p.notice), (BackendKind::GitOnly, Some(Notice::UnreachableGitHub)));
    let mixed = vec![remote_named("a", "https://gitlab.com/x/y"), remote_named("b", "https://bitbucket.org/x/y")];
    assert_eq!(plan_for_local(&mixed, true).notice, Some(Notice::MixedRemotes));
    let single = vec![remote_named("mirror", "https://example.org/x.git"), remote_named("origin", "https://gitlab.com/x/y")];
    assert_eq!(
        plan_for_local(&single, true).notice,
        Some(Notice::UnsupportedHost("https://gitlab.com/x/y".into()))
    );
}

#[test]
fn remote_preference() {
    let rs = vec![
        remote_named("origin", "https://gitlab.com/a/b"),
        remote_named("mine", "https://github.com/a/b"),
        remote_named("upstream", "https://github.com/up/b"),
    ];
    assert_eq!(best_remote(&rs), Some(2));
    assert_eq!(best_remote(&vec![]), None);
    assert_eq!(remote_host_kind("git@bitbucket.org:a/b"), HostKind::Bitbucket);
    assert_eq!(remote_host_kind("https://example.org"), HostKind::Unknown);
}
