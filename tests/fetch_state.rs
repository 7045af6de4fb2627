use wtg_cli::fetch_state::{FetchState, MissAction};

#[test]
fn absent_commit_is_probed_once() {
    let mut state = FetchState::opened(false);
    assert_eq!(state.on_local_miss("abc123d", true, false), MissAction::ProbeRemote);
    let fetch = state.on_probe("abc123d".to_string(), false);
    assert!(!fetch);
    assert_eq!(state.fetched_commits, vec!["abc123d".to_string()]);
    assert_eq!(state.on_local_miss("abc123d", true, false), MissAction::NotFound);
}

#[test]
fn miss_decisions() {
    let synced = FetchState::opened(true);
    assert_eq!(synced.on_local_miss("x", true, false), MissAction::NotFound);
    let fresh = FetchState::opened(false);
    assert_eq!(fresh.on_local_miss("x", false, false), MissAction::NotFound);
    assert_eq!(fresh.on_local_miss("x", false, true), MissAction::NotFoundShallow);
    let mut s = FetchState::opened(false);
    assert!(s.on_probe("y".into(), true));
    assert!(s.fetched_commits.is_empty());
    s.on_fetched("y".into());
    assert_eq!(s.on_local_miss("y", true, false), MissAction::NotFound);
}

#[test]
fn flags_only_grow() {
    let mut s = FetchState::opened(false);
    assert!(s.tags_needed());
    s.on_fetched("a".into());
    s.on_tags_fetched();
    assert!(!s.tags_needed());
    s.remember("a".into());
    s.remember("b".into());
    s.on_full_sync();
    s.on_tags_fetched();
    assert!(s.full_metadata_synced && s.tags_synced);
    assert_eq!(s.fetched_commits, vec!["a".to_string(), "b".to_string()]);
    assert!(s.has_attempted("a") && s.has_attempted("b") && !s.has_attempted("c"));
}
