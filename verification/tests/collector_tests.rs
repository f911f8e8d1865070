use nix_index_cache::collector::{collect_attrs, contains_str, declared_packages_key, union_into};
use nix_index_cache::resolve::resolve_versions;
use nix_index_cache::store::{NixPkg, NixPkgList, Store};

fn read_source(content: &str) -> Option<Vec<String>> {
    nix_editor::read::getarrvals(content, "environment.systemPackages").ok()
}

#[test]
fn collects_union_across_sources() {
    let outcomes = vec![
        read_source("{ environment.systemPackages = with pkgs; [ vim wget ]; }"),
        read_source("{ environment.systemPackages = [ wget firefox ]; }"),
        read_source("{ boot.loader.grub.enable = true; }"),
    ];
    assert!(outcomes[0].is_some());
    assert!(outcomes[1].is_some());
    assert!(outcomes[2].is_none());
    let out = collect_attrs(&outcomes);
    assert_eq!(out.len(), 3);
    assert!(out.contains(&"vim".to_string()));
    assert!(out.contains(&"wget".to_string()));
    assert!(out.contains(&"firefox".to_string()));
}

#[test]
fn all_sources_unreadable_gives_empty() {
    let outcomes = vec![read_source("]] not a configuration [["), None];
    assert!(outcomes[0].is_none());
    let out = collect_attrs(&outcomes);
    assert!(out.is_empty());
}

#[test]
fn union_into_dedups() {
    let mut acc = vec!["a".to_string(), "b".to_string()];
    union_into(&mut acc, &vec!["b".to_string(), "c".to_string()]);
    assert_eq!(acc, vec!["a".to_string(), "b".to_string(), "c".to_string()]);
}

#[test]
fn contains_str_examples() {
    let v = vec!["x".to_string()];
    assert!(contains_str(&v, "x"));
    assert!(!contains_str(&v, "y"));
}

#[test]
fn conventional_declaration_key() {
    assert_eq!(declared_packages_key(), "environment.systemPackages");
}

#[test]
fn resolve_versions_end_to_end() {
    let doc = NixPkgList {
        packages: vec![
            (
                "vim".to_string(),
                NixPkg { pname: "vim".to_string(), version: "9.0".to_string() },
            ),
            (
                "firefox".to_string(),
                NixPkg { pname: "firefox".to_string(), version: "118.0".to_string() },
            ),
        ],
    };
    let store = Store::build_plain(&doc);
    let outcomes = vec![
        read_source("{ environment.systemPackages = with pkgs; [ vim wget ]; }"),
        read_source("not even close to a configuration ==="),
    ];
    let out = resolve_versions(&store, &outcomes);
    assert_eq!(out, vec![("vim".to_string(), "9.0".to_string())]);
}

#[test]
fn duplicate_declarations_collapse() {
    let outcomes = vec![
        Some(vec!["hello".to_string(), "hello".to_string()]),
        Some(vec!["hello".to_string()]),
    ];
    let out = collect_attrs(&outcomes);
    assert_eq!(out, vec!["hello".to_string()]);
}
