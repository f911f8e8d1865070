use nix_index_cache::cache::{
    apply_rebuild_success, artifact_path, decide, marker_path, CacheAction, CacheState,
};
use nix_index_cache::error::CacheError;
use nix_index_cache::fetch::decode_outcome;

#[test]
fn fresh_marker_uses_existing() {
    let state = CacheState { marker: Some("23.05".to_string()), artifact_exists: true };
    assert_eq!(decide(&state, "23.05"), CacheAction::UseExisting);
}

#[test]
fn stale_marker_rebuilds_and_overwrites() {
    let mut state = CacheState { marker: Some("22.11".to_string()), artifact_exists: true };
    assert_eq!(decide(&state, "23.05"), CacheAction::Rebuild);
    apply_rebuild_success(&mut state, "23.05");
    assert_eq!(state.marker.as_deref(), Some("23.05"));
    assert!(state.artifact_exists);
}

#[test]
fn second_cycle_after_rebuild_is_fresh() {
    let mut state = CacheState { marker: None, artifact_exists: false };
    assert_eq!(decide(&state, "23.05"), CacheAction::Rebuild);
    apply_rebuild_success(&mut state, "23.05");
    assert_eq!(decide(&state, "23.05"), CacheAction::UseExisting);
    assert_eq!(decide(&state, "23.05"), CacheAction::UseExisting);
}

#[test]
fn missing_artifact_rebuilds() {
    let state = CacheState { marker: Some("23.05".to_string()), artifact_exists: false };
    assert_eq!(decide(&state, "23.05"), CacheAction::Rebuild);
}

#[test]
fn missing_marker_rebuilds() {
    let state = CacheState { marker: None, artifact_exists: true };
    assert_eq!(decide(&state, "23.05"), CacheAction::Rebuild);
}

#[test]
fn cache_paths() {
    assert_eq!(artifact_path("/var/cache", "nixospkgs"), "/var/cache/nixospkgs.db");
    assert_eq!(marker_path("/var/cache", "nixospkgs"), "/var/cache/nixospkgs.ver");
}

#[test]
fn failed_status_is_fetch_error() {
    assert_eq!(decode_outcome::<u32>(false, Some(1)), Err(CacheError::Fetch));
    assert_eq!(decode_outcome::<u32>(false, None), Err(CacheError::Fetch));
}

#[test]
fn malformed_body_is_decode_error() {
    assert_eq!(decode_outcome::<u32>(true, None), Err(CacheError::Decode));
}

#[test]
fn decoded_document_passes_through() {
    assert_eq!(decode_outcome(true, Some(5u32)), Ok(5u32));
}
