//! The relational store and its builder.
//!
//! A decoded index document is transformed entry by entry into delimited
//! rows — one `pkgs` row per entry, and for the extended variant one
//! `meta` row as well — and the whole row set is loaded in bulk into a
//! store built from scratch.  The in-process store here holds the rows
//! directly and answers the exact-match point lookups of the query
//! surface; an external store is fed the same rows through the delimited
//! encoding of [`crate::encode`].

use vstd::prelude::*;
use crate::error::CacheError;
use crate::version::str_eq;

verus! {

/// A homepage declaration: a single location, or a list of which the
/// first element counts.
pub enum StrOrVec {
    Single(String),
    List(Vec<String>),
}

/// The descriptive metadata block of an extended-variant entry.  Every
/// field is optional in the document; absence is resolved at the
/// transform boundary (flags to false, text to empty).
pub struct PkgMeta {
    pub broken: Option<bool>,
    pub insecure: Option<bool>,
    pub unsupported: Option<bool>,
    pub unfree: Option<bool>,
    pub description: Option<String>,
    pub longdescription: Option<String>,
    pub homepage: Option<StrOrVec>,
    /// Arbitrary structured value, kept as its serialized text; `None`
    /// when absent or when serialization failed.
    pub maintainers: Option<String>,
    pub position: Option<String>,
    /// Serialized text, as `maintainers`.
    pub license: Option<String>,
    /// Serialized text, as `maintainers`.
    pub platforms: Option<String>,
}

/// An entry of the extended (system) index document.
pub struct NixosPkg {
    pub system: String,
    pub pname: String,
    pub version: String,
    pub meta: PkgMeta,
}

/// An entry of the plain name/version index document.
pub struct NixPkg {
    pub pname: String,
    pub version: String,
}

/// A decoded extended-variant index document: attribute to entry.
pub struct NixosPkgList {
    pub packages: Vec<(String, NixosPkg)>,
}

/// A decoded plain-variant index document: attribute to entry.
pub struct NixPkgList {
    pub packages: Vec<(String, NixPkg)>,
}

/// A row of the `pkgs` table.  The plain variant has no system column.
pub struct PkgRow {
    pub attribute: String,
    pub system: Option<String>,
    pub pname: String,
    pub version: String,
}

/// A row of the `meta` table.  Flags are stored as 0/1; absent text is
/// stored empty.
pub struct MetaRow {
    pub attribute: String,
    pub broken: u8,
    pub insecure: u8,
    pub unsupported: u8,
    pub unfree: u8,
    pub description: String,
    pub longdescription: String,
    pub homepage: String,
    pub maintainers: String,
    pub position: String,
    pub license: String,
    pub platforms: String,
}

/// The mathematical value of a `pkgs` row.
pub struct PkgRowV {
    pub attribute: Seq<char>,
    pub system: Option<Seq<char>>,
    pub pname: Seq<char>,
    pub version: Seq<char>,
}

/// The mathematical value of a `meta` row.
pub struct MetaRowV {
    pub attribute: Seq<char>,
    pub broken: u8,
    pub insecure: u8,
    pub unsupported: u8,
    pub unfree: u8,
    pub description: Seq<char>,
    pub longdescription: Seq<char>,
    pub homepage: Seq<char>,
    pub maintainers: Seq<char>,
    pub position: Seq<char>,
    pub license: Seq<char>,
    pub platforms: Seq<char>,
}

impl View for PkgRow {
    type V = PkgRowV;

    open spec fn view(&self) -> PkgRowV {
        PkgRowV {
            attribute: self.attribute@,
            system: match self.system {
                Some(s) => Some(s@),
                None => None,
            },
            pname: self.pname@,
            version: self.version@,
        }
    }
}

impl View for MetaRow {
    type V = MetaRowV;

    open spec fn view(&self) -> MetaRowV {
        MetaRowV {
            attribute: self.attribute@,
            broken: self.broken,
            insecure: self.insecure,
            unsupported: self.unsupported,
            unfree: self.unfree,
            description: self.description@,
            longdescription: self.longdescription@,
            homepage: self.homepage@,
            maintainers: self.maintainers@,
            position: self.position@,
            license: self.license@,
            platforms: self.platforms@,
        }
    }
}

/// The stored form of an optional boolean flag: absent and false both
/// load as 0, true as 1.
pub open spec fn flag_of(b: Option<bool>) -> u8 {
    match b {
        Some(true) => 1,
        _ => 0,
    }
}

/// The stored form of an optional text column: absent loads as empty.
pub open spec fn text_of(o: Option<String>) -> Seq<char> {
    match o {
        Some(s) => s@,
        None => Seq::empty(),
    }
}

/// The stored form of a homepage declaration: a list resolves to its
/// first element, a single value to itself, absence (and the empty list)
/// to empty text.
pub open spec fn homepage_text(h: Option<StrOrVec>) -> Seq<char> {
    match h {
        Some(StrOrVec::Single(s)) => s@,
        Some(StrOrVec::List(l)) => if l@.len() > 0 {
            l@[0]@
        } else {
            Seq::empty()
        },
        None => Seq::empty(),
    }
}

/// The `pkgs` row of a plain-variant entry.
pub open spec fn plain_row_of(attr: Seq<char>, p: NixPkg) -> PkgRowV {
    PkgRowV { attribute: attr, system: None, pname: p.pname@, version: p.version@ }
}

/// The `pkgs` row of an extended-variant entry.
pub open spec fn extended_row_of(attr: Seq<char>, p: NixosPkg) -> PkgRowV {
    PkgRowV { attribute: attr, system: Some(p.system@), pname: p.pname@, version: p.version@ }
}

/// The `meta` row of an extended-variant entry.
pub open spec fn meta_row_of(attr: Seq<char>, m: PkgMeta) -> MetaRowV {
    MetaRowV {
        attribute: attr,
        broken: flag_of(m.broken),
        insecure: flag_of(m.insecure),
        unsupported: flag_of(m.unsupported),
        unfree: flag_of(m.unfree),
        description: text_of(m.description),
        longdescription: text_of(m.longdescription),
        homepage: homepage_text(m.homepage),
        maintainers: text_of(m.maintainers),
        position: text_of(m.position),
        license: text_of(m.license),
        platforms: text_of(m.platforms),
    }
}

/// Coerces an optional flag for loading.
pub fn flag_value(b: &Option<bool>) -> (r: u8)
    ensures
        r == flag_of(*b),
{
    match b {
        Some(x) => if *x {
            1
        } else {
            0
        },
        None => 0,
    }
}

/// Coerces an optional text column for loading.
pub fn text_value(o: &Option<String>) -> (r: String)
    ensures
        r@ == text_of(*o),
{
    match o {
        Some(s) => s.clone(),
        None => String::new(),
    }
}

/// Resolves a homepage declaration to a single string.
pub fn homepage_value(h: &Option<StrOrVec>) -> (r: String)
    ensures
        r@ == homepage_text(*h),
{
    match h {
        Some(StrOrVec::Single(s)) => s.clone(),
        Some(StrOrVec::List(l)) => if l.len() > 0 {
            l[0].clone()
        } else {
            String::new()
        },
        None => String::new(),
    }
}

/// Transforms a plain-variant entry into its `pkgs` row.
pub fn plain_row(attr: &String, p: &NixPkg) -> (r: PkgRow)
    ensures
        r@ == plain_row_of(attr@, *p),
{
    PkgRow {
        attribute: attr.clone(),
        system: None,
        pname: p.pname.clone(),
        version: p.version.clone(),
    }
}

/// Transforms an extended-variant entry into its `pkgs` row.
pub fn extended_row(attr: &String, p: &NixosPkg) -> (r: PkgRow)
    ensures
        r@ == extended_row_of(attr@, *p),
{
    PkgRow {
        attribute: attr.clone(),
        system: Some(p.system.clone()),
        pname: p.pname.clone(),
        version: p.version.clone(),
    }
}

/// Transforms an extended-variant entry into its `meta` row.
pub fn meta_row(attr: &String, m: &PkgMeta) -> (r: MetaRow)
    ensures
        r@ == meta_row_of(attr@, *m),
{
    MetaRow {
        attribute: attr.clone(),
        broken: flag_value(&m.broken),
        insecure: flag_value(&m.insecure),
        unsupported: flag_value(&m.unsupported),
        unfree: flag_value(&m.unfree),
        description: text_value(&m.description),
        longdescription: text_value(&m.longdescription),
        homepage: homepage_value(&m.homepage),
        maintainers: text_value(&m.maintainers),
        position: text_value(&m.position),
        license: text_value(&m.license),
        platforms: text_value(&m.platforms),
    }
}

/// The number of `pkgs` rows whose attribute equals `attr`.
pub open spec fn match_count(rows: Seq<PkgRow>, attr: Seq<char>) -> nat
    decreases rows.len(),
{
    if rows.len() == 0 {
        0
    } else {
        match_count(rows.drop_last(), attr) + if rows.last().attribute@ == attr {
            1nat
        } else {
            0nat
        }
    }
}

/// The version column of the last `pkgs` row whose attribute equals
/// `attr` (meaningful when at least one matches).
pub open spec fn match_version(rows: Seq<PkgRow>, attr: Seq<char>) -> Seq<char>
    decreases rows.len(),
{
    if rows.len() == 0 {
        Seq::empty()
    } else if rows.last().attribute@ == attr {
        rows.last().version@
    } else {
        match_version(rows.drop_last(), attr)
    }
}

/// Transforms every entry of a plain-variant document into its `pkgs`
/// row, in document order.
pub fn transform_plain(doc: &NixPkgList) -> (r: Vec<PkgRow>)
    ensures
        r@.len() == doc.packages@.len(),
        forall|i: int|
            0 <= i < doc.packages@.len() ==> r@[i]@ == plain_row_of(
                doc.packages@[i].0@,
                doc.packages@[i].1,
            ),
{
    let n = doc.packages.len();
    let mut rows: Vec<PkgRow> = Vec::new();
    let mut i: usize = 0;
    while i < n
        invariant
            i <= n,
            n == doc.packages@.len(),
            rows@.len() == i,
            forall|j: int|
                0 <= j < i ==> rows@[j]@ == plain_row_of(doc.packages@[j].0@, doc.packages@[j].1),
        decreases n - i,
    {
        let pair = &doc.packages[i];
        rows.push(plain_row(&pair.0, &pair.1));
        i += 1;
    }
    rows
}

/// Transforms every entry of an extended-variant document into its
/// `pkgs` row and its `meta` row, in document order.
pub fn transform_extended(doc: &NixosPkgList) -> (r: (Vec<PkgRow>, Vec<MetaRow>))
    ensures
        r.0@.len() == doc.packages@.len(),
        r.1@.len() == doc.packages@.len(),
        forall|i: int|
            0 <= i < doc.packages@.len() ==> r.0@[i]@ == extended_row_of(
                doc.packages@[i].0@,
                doc.packages@[i].1,
            ),
        forall|i: int|
            0 <= i < doc.packages@.len() ==> r.1@[i]@ == meta_row_of(
                doc.packages@[i].0@,
                doc.packages@[i].1.meta,
            ),
{
    let n = doc.packages.len();
    let mut rows: Vec<PkgRow> = Vec::new();
    let mut metas: Vec<MetaRow> = Vec::new();
    let mut i: usize = 0;
    while i < n
        invariant
            i <= n,
            n == doc.packages@.len(),
            rows@.len() == i,
            metas@.len() == i,
            forall|j: int|
                0 <= j < i ==> rows@[j]@ == extended_row_of(
                    doc.packages@[j].0@,
                    doc.packages@[j].1,
                ),
            forall|j: int|
                0 <= j < i ==> metas@[j]@ == meta_row_of(
                    doc.packages@[j].0@,
                    doc.packages@[j].1.meta,
                ),
        decreases n - i,
    {
        let pair = &doc.packages[i];
        rows.push(extended_row(&pair.0, &pair.1));
        metas.push(meta_row(&pair.0, &pair.1.meta));
        i += 1;
    }
    (rows, metas)
}

/// The last `pkgs` row whose attribute equals `attr` (meaningful when at
/// least one matches).
pub open spec fn match_row(rows: Seq<PkgRow>, attr: Seq<char>) -> PkgRow
    decreases rows.len(),
{
    if rows.len() == 0 {
        rows.last()
    } else if rows.last().attribute@ == attr {
        rows.last()
    } else {
        match_row(rows.drop_last(), attr)
    }
}

/// The number of `meta` rows whose attribute equals `attr`.
pub open spec fn meta_match_count(rows: Seq<MetaRow>, attr: Seq<char>) -> nat
    decreases rows.len(),
{
    if rows.len() == 0 {
        0
    } else {
        meta_match_count(rows.drop_last(), attr) + if rows.last().attribute@ == attr {
            1nat
        } else {
            0nat
        }
    }
}

/// The last `meta` row whose attribute equals `attr` (meaningful when at
/// least one matches).
pub open spec fn meta_match_row(rows: Seq<MetaRow>, attr: Seq<char>) -> MetaRow
    decreases rows.len(),
{
    if rows.len() == 0 {
        rows.last()
    } else if rows.last().attribute@ == attr {
        rows.last()
    } else {
        meta_match_row(rows.drop_last(), attr)
    }
}

/// A field-for-field copy of a `pkgs` row.
pub fn clone_pkg_row(row: &PkgRow) -> (r: PkgRow)
    ensures
        r == *row,
{
    PkgRow {
        attribute: row.attribute.clone(),
        system: match &row.system {
            Some(s) => Some(s.clone()),
            None => None,
        },
        pname: row.pname.clone(),
        version: row.version.clone(),
    }
}

/// A field-for-field copy of a `meta` row.
pub fn clone_meta_row(row: &MetaRow) -> (r: MetaRow)
    ensures
        r == *row,
{
    MetaRow {
        attribute: row.attribute.clone(),
        broken: row.broken,
        insecure: row.insecure,
        unsupported: row.unsupported,
        unfree: row.unfree,
        description: row.description.clone(),
        longdescription: row.longdescription.clone(),
        homepage: row.homepage.clone(),
        maintainers: row.maintainers.clone(),
        position: row.position.clone(),
        license: row.license.clone(),
        platforms: row.platforms.clone(),
    }
}

/// A store built from scratch by one rebuild: the loaded `pkgs` rows and,
/// for the extended variant, the loaded `meta` rows.
pub struct Store {
    pub pkgs: Vec<PkgRow>,
    pub metas: Vec<MetaRow>,
}

impl Store {
    /// A new empty store, as schema creation leaves it.
    pub fn new() -> (r: Store)
        ensures
            r.pkgs@ =~= Seq::<PkgRow>::empty(),
            r.metas@ =~= Seq::<MetaRow>::empty(),
    {
        Store { pkgs: Vec::new(), metas: Vec::new() }
    }

    /// Loads a whole `pkgs` row set in one bulk operation.
    pub fn bulk_load_pkgs(&mut self, rows: Vec<PkgRow>)
        ensures
            final(self).pkgs@ == old(self).pkgs@ + rows@,
            final(self).metas@ == old(self).metas@,
    {
        let mut rows = rows;
        self.pkgs.append(&mut rows);
    }

    /// Loads a whole `meta` row set in one bulk operation.
    pub fn bulk_load_metas(&mut self, rows: Vec<MetaRow>)
        ensures
            final(self).metas@ == old(self).metas@ + rows@,
            final(self).pkgs@ == old(self).pkgs@,
    {
        let mut rows = rows;
        self.metas.append(&mut rows);
    }

    /// Builds a store from a decoded plain-variant document: one `pkgs`
    /// row per entry, in document order, no `meta` rows.
    pub fn build_plain(doc: &NixPkgList) -> (r: Store)
        ensures
            r.pkgs@.len() == doc.packages@.len(),
            forall|i: int|
                0 <= i < doc.packages@.len() ==> r.pkgs@[i]@ == plain_row_of(
                    doc.packages@[i].0@,
                    doc.packages@[i].1,
                ),
            r.metas@.len() == 0,
    {
        let mut s = Store::new();
        let rows = transform_plain(doc);
        let ghost rows_v = rows@;
        s.bulk_load_pkgs(rows);
        proof {
            assert(Seq::<PkgRow>::empty() + rows_v =~= rows_v);
        }
        s
    }

    /// Builds a store from a decoded extended-variant document: one
    /// `pkgs` row and one `meta` row per entry, in document order.
    pub fn build_extended(doc: &NixosPkgList) -> (r: Store)
        ensures
            r.pkgs@.len() == doc.packages@.len(),
            r.metas@.len() == doc.packages@.len(),
            forall|i: int|
                0 <= i < doc.packages@.len() ==> r.pkgs@[i]@ == extended_row_of(
                    doc.packages@[i].0@,
                    doc.packages@[i].1,
                ),
            forall|i: int|
                0 <= i < doc.packages@.len() ==> r.metas@[i]@ == meta_row_of(
                    doc.packages@[i].0@,
                    doc.packages@[i].1.meta,
                ),
    {
        let mut s = Store::new();
        let (rows, metas) = transform_extended(doc);
        let ghost rows_v = rows@;
        let ghost metas_v = metas@;
        s.bulk_load_pkgs(rows);
        s.bulk_load_metas(metas);
        proof {
            assert(Seq::<PkgRow>::empty() + rows_v =~= rows_v);
            assert(Seq::<MetaRow>::empty() + metas_v =~= metas_v);
        }
        s
    }

    /// The full-row point lookup: the one `pkgs` row whose attribute
    /// equals `attr`, and nothing when zero or more than one row
    /// matches.
    pub fn query_row(&self, attr: &str) -> (r: Option<PkgRow>)
        ensures
            match_count(self.pkgs@, attr@) == 1 ==> (r matches Some(row) && row == match_row(
                self.pkgs@,
                attr@,
            )),
            match_count(self.pkgs@, attr@) != 1 ==> r is None,
    {
        let n = self.pkgs.len();
        let mut count: usize = 0;
        let mut found: Option<PkgRow> = None;
        let mut i: usize = 0;
        while i < n
            invariant
                i <= n,
                n == self.pkgs@.len(),
                count <= i,
                count == match_count(self.pkgs@.take(i as int), attr@),
                count > 0 ==> (found matches Some(row) && row == match_row(
                    self.pkgs@.take(i as int),
                    attr@,
                )),
                count == 0 ==> found is None,
            decreases n - i,
        {
            proof {
                assert(self.pkgs@.take(i + 1).drop_last() =~= self.pkgs@.take(i as int));
                assert(self.pkgs@.take(i + 1).last() == self.pkgs@[i as int]);
            }
            let row = &self.pkgs[i];
            if str_eq(row.attribute.as_str(), attr) {
                count += 1;
                found = Some(clone_pkg_row(row));
            }
            i += 1;
        }
        proof {
            assert(self.pkgs@.take(n as int) =~= self.pkgs@);
        }
        if count == 1 {
            found
        } else {
            None
        }
    }

    /// The metadata point lookup: the one `meta` row whose attribute
    /// equals `attr`, and nothing when zero or more than one row
    /// matches.
    pub fn query_meta(&self, attr: &str) -> (r: Option<MetaRow>)
        ensures
            meta_match_count(self.metas@, attr@) == 1 ==> (r matches Some(row) && row
                == meta_match_row(self.metas@, attr@)),
            meta_match_count(self.metas@, attr@) != 1 ==> r is None,
    {
        let n = self.metas.len();
        let mut count: usize = 0;
        let mut found: Option<MetaRow> = None;
        let mut i: usize = 0;
        while i < n
            invariant
                i <= n,
                n == self.metas@.len(),
                count <= i,
                count == meta_match_count(self.metas@.take(i as int), attr@),
                count > 0 ==> (found matches Some(row) && row == meta_match_row(
                    self.metas@.take(i as int),
                    attr@,
                )),
                count == 0 ==> found is None,
            decreases n - i,
        {
            proof {
                assert(self.metas@.take(i + 1).drop_last() =~= self.metas@.take(i as int));
                assert(self.metas@.take(i + 1).last() == self.metas@[i as int]);
            }
            let row = &self.metas[i];
            if str_eq(row.attribute.as_str(), attr) {
                count += 1;
                found = Some(clone_meta_row(row));
            }
            i += 1;
        }
        proof {
            assert(self.metas@.take(n as int) =~= self.metas@);
        }
        if count == 1 {
            found
        } else {
            None
        }
    }

    /// The exact-match point lookup of the query surface: the version of
    /// the one `pkgs` row whose attribute equals `attr`, and nothing when
    /// zero or more than one row matches.
    pub fn query_version(&self, attr: &str) -> (r: Option<String>)
        ensures
            match_count(self.pkgs@, attr@) == 1 ==> (r matches Some(v) && v@ == match_version(
                self.pkgs@,
                attr@,
            )),
            match_count(self.pkgs@, attr@) != 1 ==> r is None,
    {
        let n = self.pkgs.len();
        let mut count: usize = 0;
        let mut found: Option<String> = None;
        let mut i: usize = 0;
        while i < n
            invariant
                i <= n,
                n == self.pkgs@.len(),
                count <= i,
                count == match_count(self.pkgs@.take(i as int), attr@),
                count > 0 ==> (found matches Some(v) && v@ == match_version(
                    self.pkgs@.take(i as int),
                    attr@,
                )),
                count == 0 ==> found is None,
            decreases n - i,
        {
            proof {
                assert(self.pkgs@.take(i + 1).drop_last() =~= self.pkgs@.take(i as int));
                assert(self.pkgs@.take(i + 1).last() == self.pkgs@[i as int]);
            }
            let row = &self.pkgs[i];
            if str_eq(row.attribute.as_str(), attr) {
                count += 1;
                found = Some(row.version.clone());
            }
            i += 1;
        }
        proof {
            assert(self.pkgs@.take(n as int) =~= self.pkgs@);
        }
        if count == 1 {
            found
        } else {
            None
        }
    }
}

/// Classifies the exit of the bulk-import process: an abnormal exit is a
/// subprocess failure that aborts the cycle, so the version marker must
/// not be written.  Only a successful exit of every import lets the
/// rebuild count as complete.
pub fn import_outcome(exit_success: bool) -> (r: Result<(), CacheError>)
    ensures
        r is Ok <==> exit_success,
        !exit_success ==> (r matches Err(e) && e == CacheError::Subprocess),
{
    if exit_success {
        Ok(())
    } else {
        Err(CacheError::Subprocess)
    }
}

/// The point-lookup decision over the rows an external store handed
/// back: exactly one matching row resolves to its version; zero or
/// several resolve to nothing.
pub fn pick_unique_version(versions: &Vec<String>) -> (r: Option<String>)
    ensures
        versions@.len() == 1 ==> (r matches Some(v) && v@ == versions@[0]@),
        versions@.len() != 1 ==> r is None,
{
    if versions.len() == 1 {
        Some(versions[0].clone())
    } else {
        None
    }
}

/// The resolved (attribute, version) pairs for a declared attribute
/// list, in list order: an attribute contributes a pair exactly when one
/// `pkgs` row matches it.
pub open spec fn resolved_pairs(rows: Seq<PkgRow>, attrs: Seq<String>) -> Seq<(Seq<char>, Seq<char>)>
    decreases attrs.len(),
{
    if attrs.len() == 0 {
        Seq::empty()
    } else {
        let rest = resolved_pairs(rows, attrs.drop_last());
        if match_count(rows, attrs.last()@) == 1 {
            rest.push((attrs.last()@, match_version(rows, attrs.last()@)))
        } else {
            rest
        }
    }
}

/// The pair view of a resolved mapping.
pub open spec fn pair_views(r: Seq<(String, String)>) -> Seq<(Seq<char>, Seq<char>)> {
    r.map_values(|p: (String, String)| (p.0@, p.1@))
}

impl Store {
    /// Resolves every declared attribute against the store: the result
    /// maps each attribute with exactly one matching `pkgs` row to that
    /// row's version; attributes with zero or with several matching rows
    /// are dropped silently.
    pub fn resolve_all(&self, attrs: &Vec<String>) -> (r: Vec<(String, String)>)
        ensures
            pair_views(r@) == resolved_pairs(self.pkgs@, attrs@),
    {
        let n = attrs.len();
        let mut out: Vec<(String, String)> = Vec::new();
        let mut i: usize = 0;
        while i < n
            invariant
                i <= n,
                n == attrs@.len(),
                pair_views(out@) == resolved_pairs(self.pkgs@, attrs@.take(i as int)),
            decreases n - i,
        {
            proof {
                assert(attrs@.take(i + 1).drop_last() =~= attrs@.take(i as int));
                assert(attrs@.take(i + 1).last() == attrs@[i as int]);
            }
            let attr = &attrs[i];
            let ghost prev = out@;
            match self.query_version(attr.as_str()) {
                Some(version) => {
                    out.push((attr.clone(), version));
                    proof {
                        assert(pair_views(out@) =~= pair_views(prev).push(
                            (attr@, match_version(self.pkgs@, attr@)),
                        ));
                    }
                },
                None => {},
            }
            i += 1;
        }
        proof {
            assert(attrs@.take(n as int) =~= attrs@);
        }
        out
    }
}

/// When no row matches, the match count is zero.
pub proof fn lemma_match_count_zero(rows: Seq<PkgRow>, attr: Seq<char>)
    requires
        forall|j: int| 0 <= j < rows.len() ==> rows[j].attribute@ != attr,
    ensures
        match_count(rows, attr) == 0,
    decreases rows.len(),
{
    if rows.len() > 0 {
        lemma_match_count_zero(rows.drop_last(), attr);
    }
}

/// When exactly the row at index `i` matches, the match count is one and
/// the matched row (and so its version) is that row.
pub proof fn lemma_match_unique(rows: Seq<PkgRow>, attr: Seq<char>, i: int)
    requires
        0 <= i < rows.len(),
        rows[i].attribute@ == attr,
        forall|j: int| 0 <= j < rows.len() && j != i ==> rows[j].attribute@ != attr,
    ensures
        match_count(rows, attr) == 1,
        match_row(rows, attr) == rows[i],
        match_version(rows, attr) == rows[i].version@,
    decreases rows.len(),
{
    if i == rows.len() - 1 {
        lemma_match_count_zero(rows.drop_last(), attr);
    } else {
        lemma_match_unique(rows.drop_last(), attr, i);
    }
}

/// When no `meta` row matches, the match count is zero.
pub proof fn lemma_meta_match_count_zero(rows: Seq<MetaRow>, attr: Seq<char>)
    requires
        forall|j: int| 0 <= j < rows.len() ==> rows[j].attribute@ != attr,
    ensures
        meta_match_count(rows, attr) == 0,
    decreases rows.len(),
{
    if rows.len() > 0 {
        lemma_meta_match_count_zero(rows.drop_last(), attr);
    }
}

/// When exactly the `meta` row at index `i` matches, the match count is
/// one and the matched row is that row.
pub proof fn lemma_meta_match_unique(rows: Seq<MetaRow>, attr: Seq<char>, i: int)
    requires
        0 <= i < rows.len(),
        rows[i].attribute@ == attr,
        forall|j: int| 0 <= j < rows.len() && j != i ==> rows[j].attribute@ != attr,
    ensures
        meta_match_count(rows, attr) == 1,
        meta_match_row(rows, attr) == rows[i],
    decreases rows.len(),
{
    if i == rows.len() - 1 {
        lemma_meta_match_count_zero(rows.drop_last(), attr);
    } else {
        lemma_meta_match_unique(rows.drop_last(), attr, i);
    }
}

/// Round trip for the plain variant: in a store built from a document
/// whose attributes are pairwise distinct, every document attribute has
/// exactly one matching row, and querying it yields a row equal to its
/// source entry in every retained column — the version in particular.
pub proof fn lemma_round_trip_plain(doc: NixPkgList, s: Store, i: int)
    requires
        s.pkgs@.len() == doc.packages@.len(),
        forall|k: int|
            0 <= k < doc.packages@.len() ==> s.pkgs@[k]@ == plain_row_of(
                doc.packages@[k].0@,
                doc.packages@[k].1,
            ),
        forall|k: int, l: int|
            0 <= k < l < doc.packages@.len() ==> doc.packages@[k].0@ != doc.packages@[l].0@,
        0 <= i < doc.packages@.len(),
    ensures
        match_count(s.pkgs@, doc.packages@[i].0@) == 1,
        match_row(s.pkgs@, doc.packages@[i].0@)@ == plain_row_of(
            doc.packages@[i].0@,
            doc.packages@[i].1,
        ),
        match_version(s.pkgs@, doc.packages@[i].0@) == doc.packages@[i].1.version@,
{
    assert(forall|j: int|
        0 <= j < s.pkgs@.len() && j != i ==> s.pkgs@[j].attribute@ != doc.packages@[i].0@);
    lemma_match_unique(s.pkgs@, doc.packages@[i].0@, i);
}

/// Round trip for the extended variant: as for the plain one, and the
/// one matching `meta` row equals the transform of the source metadata
/// in every column (absent flags as 0, absent text empty).
pub proof fn lemma_round_trip_extended(doc: NixosPkgList, s: Store, i: int)
    requires
        s.pkgs@.len() == doc.packages@.len(),
        s.metas@.len() == doc.packages@.len(),
        forall|k: int|
            0 <= k < doc.packages@.len() ==> s.pkgs@[k]@ == extended_row_of(
                doc.packages@[k].0@,
                doc.packages@[k].1,
            ),
        forall|k: int|
            0 <= k < doc.packages@.len() ==> s.metas@[k]@ == meta_row_of(
                doc.packages@[k].0@,
                doc.packages@[k].1.meta,
            ),
        forall|k: int, l: int|
            0 <= k < l < doc.packages@.len() ==> doc.packages@[k].0@ != doc.packages@[l].0@,
        0 <= i < doc.packages@.len(),
    ensures
        match_count(s.pkgs@, doc.packages@[i].0@) == 1,
        match_row(s.pkgs@, doc.packages@[i].0@)@ == extended_row_of(
            doc.packages@[i].0@,
            doc.packages@[i].1,
        ),
        match_version(s.pkgs@, doc.packages@[i].0@) == doc.packages@[i].1.version@,
        meta_match_count(s.metas@, doc.packages@[i].0@) == 1,
        meta_match_row(s.metas@, doc.packages@[i].0@)@ == meta_row_of(
            doc.packages@[i].0@,
            doc.packages@[i].1.meta,
        ),
{
    assert(forall|j: int|
        0 <= j < s.pkgs@.len() && j != i ==> s.pkgs@[j].attribute@ != doc.packages@[i].0@);
    lemma_match_unique(s.pkgs@, doc.packages@[i].0@, i);
    assert(forall|j: int|
        0 <= j < s.metas@.len() && j != i ==> s.metas@[j].attribute@ != doc.packages@[i].0@);
    lemma_meta_match_unique(s.metas@, doc.packages@[i].0@, i);
}

} // verus!
