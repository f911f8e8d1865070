//! The delimited-text encoding fed to the external bulk-import process.
//!
//! Every transformed row becomes one delimited record; the records of a
//! table are concatenated and handed as one stream to the import
//! process's standard input.  The per-record encoding (delimiting,
//! quoting of embedded delimiters and newlines) is the writer's.

use vstd::prelude::*;
use crate::store::{MetaRow, MetaRowV, PkgRow, PkgRowV};

verus! {

/// What the delimited writer makes of one record: its fields, comma
/// separated, quoted where needed, newline terminated.
pub uninterp spec fn csv_record_of(fields: Seq<Seq<char>>) -> Seq<char>;

/// Relies on csv::Writer (default dialect): encodes one record, the
/// fields comma-separated, quoted only where a field embeds a delimiter,
/// quote or line break, and newline-terminated; the encoding depends on
/// the fields alone.  The call cannot fail: a fresh writer sees one
/// record (no length mismatch), the in-memory sink raises no I/O error,
/// and string fields joined with ASCII punctuation stay valid UTF-8.
#[verifier::external_body]
fn csv_record(fields: &Vec<String>) -> (r: String)
    ensures
        r@ == csv_record_of(fields@.map_values(|f: String| f@)),
{
    let mut w = csv::Writer::from_writer(Vec::new());
    w.write_record(fields).expect("single record on a fresh in-memory writer");
    String::from_utf8(w.into_inner().expect("in-memory writer raises no I/O error"))
        .expect("encoding of UTF-8 fields is UTF-8")
}

/// The text form of a stored 0/1 flag.
pub open spec fn spec_flag_text(f: u8) -> Seq<char> {
    if f == 0 {
        "0"@
    } else {
        "1"@
    }
}

fn flag_text(f: u8) -> (r: String)
    ensures
        r@ == spec_flag_text(f),
{
    if f == 0 {
        String::from_str("0")
    } else {
        String::from_str("1")
    }
}

/// The fields of a `pkgs` record, in schema column order; the system
/// column only where the row carries one.
pub open spec fn spec_pkg_fields(r: PkgRowV) -> Seq<Seq<char>> {
    match r.system {
        Some(sys) => seq![r.attribute, sys, r.pname, r.version],
        None => seq![r.attribute, r.pname, r.version],
    }
}

/// The fields of a `meta` record, in schema column order.
pub open spec fn spec_meta_fields(r: MetaRowV) -> Seq<Seq<char>> {
    seq![
        r.attribute,
        spec_flag_text(r.broken),
        spec_flag_text(r.insecure),
        spec_flag_text(r.unsupported),
        spec_flag_text(r.unfree),
        r.description,
        r.longdescription,
        r.homepage,
        r.maintainers,
        r.position,
        r.license,
        r.platforms,
    ]
}

/// Lays a `pkgs` row out as its record fields.
pub fn pkg_fields(row: &PkgRow) -> (r: Vec<String>)
    ensures
        r@.map_values(|f: String| f@) == spec_pkg_fields(row@),
{
    let mut v: Vec<String> = Vec::new();
    v.push(row.attribute.clone());
    match &row.system {
        Some(s) => v.push(s.clone()),
        None => {},
    }
    v.push(row.pname.clone());
    v.push(row.version.clone());
    proof {
        assert(v@.map_values(|f: String| f@) =~= spec_pkg_fields(row@));
    }
    v
}

/// Lays a `meta` row out as its record fields.
pub fn meta_fields(row: &MetaRow) -> (r: Vec<String>)
    ensures
        r@.map_values(|f: String| f@) == spec_meta_fields(row@),
{
    let mut v: Vec<String> = Vec::new();
    v.push(row.attribute.clone());
    v.push(flag_text(row.broken));
    v.push(flag_text(row.insecure));
    v.push(flag_text(row.unsupported));
    v.push(flag_text(row.unfree));
    v.push(row.description.clone());
    v.push(row.longdescription.clone());
    v.push(row.homepage.clone());
    v.push(row.maintainers.clone());
    v.push(row.position.clone());
    v.push(row.license.clone());
    v.push(row.platforms.clone());
    proof {
        assert(v@.map_values(|f: String| f@) =~= spec_meta_fields(row@));
    }
    v
}

/// The stream loaded into the `pkgs` table: every row's record, in row
/// order.
pub open spec fn spec_encode_pkgs(rows: Seq<PkgRow>) -> Seq<char>
    decreases rows.len(),
{
    if rows.len() == 0 {
        Seq::empty()
    } else {
        spec_encode_pkgs(rows.drop_last()) + csv_record_of(spec_pkg_fields(rows.last()@))
    }
}

/// The stream loaded into the `meta` table.
pub open spec fn spec_encode_metas(rows: Seq<MetaRow>) -> Seq<char>
    decreases rows.len(),
{
    if rows.len() == 0 {
        Seq::empty()
    } else {
        spec_encode_metas(rows.drop_last()) + csv_record_of(spec_meta_fields(rows.last()@))
    }
}

/// Encodes the `pkgs` rows as one delimited stream.
pub fn encode_pkg_rows(rows: &Vec<PkgRow>) -> (r: String)
    ensures
        r@ == spec_encode_pkgs(rows@),
{
    let n = rows.len();
    let mut out = String::new();
    let mut i: usize = 0;
    while i < n
        invariant
            i <= n,
            n == rows@.len(),
            out@ == spec_encode_pkgs(rows@.take(i as int)),
        decreases n - i,
    {
        proof {
            assert(rows@.take(i + 1).drop_last() =~= rows@.take(i as int));
            assert(rows@.take(i + 1).last() == rows@[i as int]);
        }
        let fields = pkg_fields(&rows[i]);
        let line = csv_record(&fields);
        out.append(line.as_str());
        i += 1;
    }
    proof {
        assert(rows@.take(n as int) =~= rows@);
    }
    out
}

/// Encodes the `meta` rows as one delimited stream.
pub fn encode_meta_rows(rows: &Vec<MetaRow>) -> (r: String)
    ensures
        r@ == spec_encode_metas(rows@),
{
    let n = rows.len();
    let mut out = String::new();
    let mut i: usize = 0;
    while i < n
        invariant
            i <= n,
            n == rows@.len(),
            out@ == spec_encode_metas(rows@.take(i as int)),
        decreases n - i,
    {
        proof {
            assert(rows@.take(i + 1).drop_last() =~= rows@.take(i as int));
            assert(rows@.take(i + 1).last() == rows@[i as int]);
        }
        let fields = meta_fields(&rows[i]);
        let line = csv_record(&fields);
        out.append(line.as_str());
        i += 1;
    }
    proof {
        assert(rows@.take(n as int) =~= rows@);
    }
    out
}

} // verus!
