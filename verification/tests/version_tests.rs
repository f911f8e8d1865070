use nix_index_cache::error::CacheError;
use nix_index_cache::version::{
    document_url, last_path_segment, normalize_release, resolve_version_from_path, str_eq,
    strip_prefix_str, version_url,
};

#[test]
fn normalize_rolling_release() {
    assert_eq!(normalize_release("22.11").unwrap(), "unstable");
    assert_eq!(normalize_release("22.11.20230101.abcd").unwrap(), "unstable");
}

#[test]
fn normalize_plain_release() {
    assert_eq!(normalize_release("23.05.20230601.1234").unwrap(), "23.05");
    assert_eq!(normalize_release("23.05").unwrap(), "23.05");
}

#[test]
fn normalize_short_identifier_fails() {
    assert_eq!(normalize_release("1.2"), Err(CacheError::Resolve));
}

#[test]
fn version_from_redirect_path() {
    assert_eq!(resolve_version_from_path("/nixos-23.05.1234").unwrap(), "23.05.1234");
}

#[test]
fn version_from_path_without_prefix() {
    assert_eq!(resolve_version_from_path("/channel/final").unwrap(), "final");
}

#[test]
fn version_from_empty_path_fails() {
    assert_eq!(resolve_version_from_path(""), Err(CacheError::Resolve));
}

#[test]
fn last_segment_examples() {
    assert_eq!(last_path_segment("/a/b/c"), "c");
    assert_eq!(last_path_segment("abc"), "abc");
    assert_eq!(last_path_segment("a/"), "");
}

#[test]
fn strip_prefix_examples() {
    assert_eq!(strip_prefix_str("nixos-23.05", "nixos-"), "23.05");
    assert_eq!(strip_prefix_str("23.05", "nixos-"), "23.05");
    assert_eq!(strip_prefix_str("nix", "nixos-"), "nix");
}

#[test]
fn url_building() {
    assert_eq!(version_url("unstable"), "https://channels.nixos.org/nixos-unstable");
    assert_eq!(
        document_url("23.05", "packages.json.br"),
        "https://channels.nixos.org/nixos-23.05/packages.json.br"
    );
}

#[test]
fn str_eq_examples() {
    assert!(str_eq("abc", "abc"));
    assert!(!str_eq("abc", "abd"));
    assert!(!str_eq("abc", "ab"));
}
