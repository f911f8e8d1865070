use nix_index_cache::encode::{encode_meta_rows, encode_pkg_rows, meta_fields, pkg_fields};
use nix_index_cache::store::{MetaRow, PkgRow};

fn plain_row(attr: &str, pname: &str, version: &str) -> PkgRow {
    PkgRow {
        attribute: attr.to_string(),
        system: None,
        pname: pname.to_string(),
        version: version.to_string(),
    }
}

#[test]
fn encode_plain_rows_exact() {
    let rows = vec![plain_row("pkgA", "a", "1.0"), plain_row("pkgB", "b", "2.0")];
    assert_eq!(encode_pkg_rows(&rows), "pkgA,a,1.0\npkgB,b,2.0\n");
}

#[test]
fn encode_extended_row_with_system() {
    let rows = vec![PkgRow {
        attribute: "pkgA".to_string(),
        system: Some("x86_64-linux".to_string()),
        pname: "a".to_string(),
        version: "1.0".to_string(),
    }];
    assert_eq!(encode_pkg_rows(&rows), "pkgA,x86_64-linux,a,1.0\n");
}

#[test]
fn encode_quotes_embedded_delimiters() {
    let rows = vec![plain_row("pkgA", "a,b", "1.0")];
    assert_eq!(encode_pkg_rows(&rows), "pkgA,\"a,b\",1.0\n");
}

#[test]
fn encode_meta_row_exact() {
    let rows = vec![MetaRow {
        attribute: "pkgA".to_string(),
        broken: 1,
        insecure: 0,
        unsupported: 0,
        unfree: 1,
        description: "d".to_string(),
        longdescription: "".to_string(),
        homepage: "https://x".to_string(),
        maintainers: "maint".to_string(),
        position: "p:1".to_string(),
        license: "MIT".to_string(),
        platforms: "linux".to_string(),
    }];
    assert_eq!(
        encode_meta_rows(&rows),
        "pkgA,1,0,0,1,d,,https://x,maint,p:1,MIT,linux\n"
    );
}

#[test]
fn field_layout_matches_schema() {
    let p = pkg_fields(&plain_row("at", "pn", "vr"));
    assert_eq!(p, vec!["at".to_string(), "pn".to_string(), "vr".to_string()]);
    let m = meta_fields(&MetaRow {
        attribute: "at".to_string(),
        broken: 0,
        insecure: 1,
        unsupported: 0,
        unfree: 0,
        description: "de".to_string(),
        longdescription: "lo".to_string(),
        homepage: "ho".to_string(),
        maintainers: "ma".to_string(),
        position: "po".to_string(),
        license: "li".to_string(),
        platforms: "pl".to_string(),
    });
    assert_eq!(
        m,
        vec![
            "at".to_string(),
            "0".to_string(),
            "1".to_string(),
            "0".to_string(),
            "0".to_string(),
            "de".to_string(),
            "lo".to_string(),
            "ho".to_string(),
            "ma".to_string(),
            "po".to_string(),
            "li".to_string(),
            "pl".to_string()
        ]
    );
}
