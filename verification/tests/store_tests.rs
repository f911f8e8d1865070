use nix_index_cache::error::CacheError;
use nix_index_cache::store::{
    import_outcome, pick_unique_version, NixPkg, NixPkgList, NixosPkg, NixosPkgList, PkgMeta,
    PkgRow, Store, StrOrVec,
};

fn meta_all_absent() -> PkgMeta {
    PkgMeta {
        broken: None,
        insecure: None,
        unsupported: None,
        unfree: None,
        description: None,
        longdescription: None,
        homepage: None,
        maintainers: None,
        position: None,
        license: None,
        platforms: None,
    }
}

#[test]
fn plain_index_scenario() {
    let doc = NixPkgList {
        packages: vec![
            (
                "pkgA".to_string(),
                NixPkg { pname: "a".to_string(), version: "1.0".to_string() },
            ),
            (
                "pkgB".to_string(),
                NixPkg { pname: "b".to_string(), version: "2.0".to_string() },
            ),
        ],
    };
    let store = Store::build_plain(&doc);
    assert_eq!(store.pkgs.len(), 2);
    assert_eq!(store.pkgs[0].attribute, "pkgA");
    assert_eq!(store.pkgs[0].pname, "a");
    assert_eq!(store.pkgs[0].version, "1.0");
    assert!(store.pkgs[0].system.is_none());
    assert_eq!(store.pkgs[1].attribute, "pkgB");
    assert_eq!(store.pkgs[1].pname, "b");
    assert_eq!(store.pkgs[1].version, "2.0");
    assert_eq!(store.metas.len(), 0);
    let declared = vec!["pkgA".to_string(), "pkgC".to_string()];
    let out = store.resolve_all(&declared);
    assert_eq!(out, vec![("pkgA".to_string(), "1.0".to_string())]);
}

#[test]
fn query_zero_one_many_matches() {
    fn row(attr: &str, version: &str) -> PkgRow {
        PkgRow {
            attribute: attr.to_string(),
            system: None,
            pname: "p".to_string(),
            version: version.to_string(),
        }
    }
    let store = Store { pkgs: vec![row("dup", "1"), row("one", "7"), row("dup", "2")], metas: vec![] };
    assert_eq!(store.query_version("one"), Some("7".to_string()));
    assert_eq!(store.query_version("missing"), None);
    assert_eq!(store.query_version("dup"), None);
}

#[test]
fn round_trip_all_fields_present() {
    let meta = PkgMeta {
        broken: Some(true),
        insecure: Some(false),
        unsupported: Some(true),
        unfree: Some(false),
        description: Some("desc".to_string()),
        longdescription: Some("long".to_string()),
        homepage: Some(StrOrVec::Single("https://example.org".to_string())),
        maintainers: Some("[\"m\"]".to_string()),
        position: Some("pkgs/a.nix:1".to_string()),
        license: Some("{\"spdx\":\"MIT\"}".to_string()),
        platforms: Some("[\"x86_64-linux\"]".to_string()),
    };
    let doc = NixosPkgList {
        packages: vec![(
            "pkgA".to_string(),
            NixosPkg {
                system: "x86_64-linux".to_string(),
                pname: "a".to_string(),
                version: "1.0".to_string(),
                meta,
            },
        )],
    };
    let store = Store::build_extended(&doc);
    assert_eq!(store.query_version("pkgA"), Some("1.0".to_string()));
    let row = store.query_row("pkgA").unwrap();
    assert_eq!(row.attribute, "pkgA");
    assert_eq!(row.system.as_deref(), Some("x86_64-linux"));
    assert_eq!(row.pname, "a");
    assert_eq!(row.version, "1.0");
    let m = store.query_meta("pkgA").unwrap();
    assert_eq!(m.attribute, "pkgA");
    assert_eq!(m.broken, 1);
    assert_eq!(m.insecure, 0);
    assert_eq!(m.unsupported, 1);
    assert_eq!(m.unfree, 0);
    assert_eq!(m.description, "desc");
    assert_eq!(m.longdescription, "long");
    assert_eq!(m.homepage, "https://example.org");
    assert_eq!(m.maintainers, "[\"m\"]");
    assert_eq!(m.position, "pkgs/a.nix:1");
    assert_eq!(m.license, "{\"spdx\":\"MIT\"}");
    assert_eq!(m.platforms, "[\"x86_64-linux\"]");
}

#[test]
fn query_row_and_meta_ambiguity() {
    let doc = NixosPkgList {
        packages: vec![
            (
                "dup".to_string(),
                NixosPkg {
                    system: "s".to_string(),
                    pname: "p".to_string(),
                    version: "1".to_string(),
                    meta: meta_all_absent(),
                },
            ),
            (
                "dup".to_string(),
                NixosPkg {
                    system: "s".to_string(),
                    pname: "p".to_string(),
                    version: "2".to_string(),
                    meta: meta_all_absent(),
                },
            ),
        ],
    };
    let store = Store::build_extended(&doc);
    assert!(store.query_row("dup").is_none());
    assert!(store.query_meta("dup").is_none());
    assert!(store.query_row("absent").is_none());
    assert!(store.query_meta("absent").is_none());
}

#[test]
fn bulk_load_appends_in_order() {
    let mut store = Store::new();
    store.bulk_load_pkgs(vec![
        PkgRow {
            attribute: "x".to_string(),
            system: None,
            pname: "px".to_string(),
            version: "1".to_string(),
        },
        PkgRow {
            attribute: "y".to_string(),
            system: None,
            pname: "py".to_string(),
            version: "2".to_string(),
        },
    ]);
    assert_eq!(store.pkgs.len(), 2);
    assert_eq!(store.pkgs[0].attribute, "x");
    assert_eq!(store.pkgs[1].attribute, "y");
    assert_eq!(store.query_version("y"), Some("2".to_string()));
    assert!(store.metas.is_empty());
}

#[test]
fn abnormal_import_exit_is_subprocess_error() {
    assert_eq!(import_outcome(false), Err(CacheError::Subprocess));
    assert_eq!(import_outcome(true), Ok(()));
}

#[test]
fn pick_unique_version_examples() {
    assert_eq!(pick_unique_version(&vec![]), None);
    assert_eq!(pick_unique_version(&vec!["1.0".to_string()]), Some("1.0".to_string()));
    assert_eq!(pick_unique_version(&vec!["1.0".to_string(), "2.0".to_string()]), None);
}

#[test]
fn round_trip_absent_meta_defaults() {
    let doc = NixosPkgList {
        packages: vec![(
            "pkgA".to_string(),
            NixosPkg {
                system: "sys".to_string(),
                pname: "a".to_string(),
                version: "1.0".to_string(),
                meta: meta_all_absent(),
            },
        )],
    };
    let store = Store::build_extended(&doc);
    let m = &store.metas[0];
    assert_eq!(m.broken, 0);
    assert_eq!(m.insecure, 0);
    assert_eq!(m.unsupported, 0);
    assert_eq!(m.unfree, 0);
    assert_eq!(m.description, "");
    assert_eq!(m.longdescription, "");
    assert_eq!(m.homepage, "");
    assert_eq!(m.maintainers, "");
    assert_eq!(m.position, "");
    assert_eq!(m.license, "");
    assert_eq!(m.platforms, "");
}

#[test]
fn meta_broken_absent_homepage_list() {
    let mut meta = meta_all_absent();
    meta.homepage = Some(StrOrVec::List(vec![
        "https://x".to_string(),
        "https://y".to_string(),
    ]));
    let doc = NixosPkgList {
        packages: vec![(
            "pkgA".to_string(),
            NixosPkg {
                system: "sys".to_string(),
                pname: "a".to_string(),
                version: "1.0".to_string(),
                meta,
            },
        )],
    };
    let store = Store::build_extended(&doc);
    let m = &store.metas[0];
    assert_eq!(m.broken, 0);
    assert_eq!(m.homepage, "https://x");
}

#[test]
fn homepage_empty_list_loads_empty() {
    let mut meta = meta_all_absent();
    meta.homepage = Some(StrOrVec::List(vec![]));
    let doc = NixosPkgList {
        packages: vec![(
            "pkgA".to_string(),
            NixosPkg {
                system: "sys".to_string(),
                pname: "a".to_string(),
                version: "1.0".to_string(),
                meta,
            },
        )],
    };
    let store = Store::build_extended(&doc);
    assert_eq!(store.metas[0].homepage, "");
}
