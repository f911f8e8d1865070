//! The query surface: declared attributes resolved to versions.
//!
//! The declared package set is collected from the reader outcomes of the
//! declaration sources, then every declared attribute is point-resolved
//! against the built store.  The result maps exactly those declared attributes that match
//! one `pkgs` row; an attribute with zero or with several matching rows
//! is omitted silently, and its absence means unresolved, not error.

use vstd::prelude::*;
use crate::collector::{collect_attrs, distinct_strs, seq_has_str, union_has};
use crate::store::{match_count, match_version, pair_views, resolved_pairs, PkgRow, Store};

verus! {

/// Membership of an (attribute, version) pair in a resolved mapping.
pub open spec fn pairs_has(r: Seq<(Seq<char>, Seq<char>)>, a: Seq<char>, v: Seq<char>) -> bool {
    exists|i: int| 0 <= i < r.len() && r[i].0 == a && r[i].1 == v
}

proof fn lemma_resolved_pairs_has(rows: Seq<PkgRow>, attrs: Seq<String>, a: Seq<char>, v: Seq<char>)
    ensures
        pairs_has(resolved_pairs(rows, attrs), a, v) <==> (seq_has_str(attrs, a) && match_count(
            rows,
            a,
        ) == 1 && v == match_version(rows, a)),
    decreases attrs.len(),
{
    if attrs.len() > 0 {
        lemma_resolved_pairs_has(rows, attrs.drop_last(), a, v);
        let rest = resolved_pairs(rows, attrs.drop_last());
        let last = attrs.last();
        if match_count(rows, last@) == 1 {
            let pair = (last@, match_version(rows, last@));
            assert(resolved_pairs(rows, attrs) == rest.push(pair));
            if pairs_has(rest.push(pair), a, v) {
                let i = choose|i: int|
                    0 <= i < rest.push(pair).len() && rest.push(pair)[i].0 == a && rest.push(
                        pair,
                    )[i].1 == v;
                if i < rest.len() {
                    assert(rest[i].0 == a && rest[i].1 == v);
                    let j = choose|j: int|
                        0 <= j < attrs.drop_last().len() && attrs.drop_last()[j]@ == a;
                    assert(attrs[j]@ == a);
                } else {
                    assert(a == last@ && v == match_version(rows, a));
                    assert(attrs[attrs.len() - 1]@ == a);
                }
            }
            if seq_has_str(attrs, a) && match_count(rows, a) == 1 && v == match_version(rows, a) {
                let j = choose|j: int| 0 <= j < attrs.len() && attrs[j]@ == a;
                if j < attrs.len() - 1 {
                    assert(attrs.drop_last()[j]@ == a);
                    let i = choose|i: int| 0 <= i < rest.len() && rest[i].0 == a && rest[i].1 == v;
                    assert(rest.push(pair)[i].0 == a && rest.push(pair)[i].1 == v);
                } else {
                    assert(a == last@);
                    assert(rest.push(pair)[rest.len() as int].0 == a);
                    assert(rest.push(pair)[rest.len() as int].1 == v);
                }
            }
        } else {
            assert(resolved_pairs(rows, attrs) == rest);
            if pairs_has(rest, a, v) {
                let j = choose|j: int|
                    0 <= j < attrs.drop_last().len() && attrs.drop_last()[j]@ == a;
                assert(attrs[j]@ == a);
            }
            if seq_has_str(attrs, a) && match_count(rows, a) == 1 && v == match_version(rows, a) {
                let j = choose|j: int| 0 <= j < attrs.len() && attrs[j]@ == a;
                assert(a != last@);
                assert(attrs.drop_last()[j]@ == a);
            }
        }
    }
}

proof fn lemma_resolved_pairs_distinct(rows: Seq<PkgRow>, attrs: Seq<String>)
    requires
        distinct_strs(attrs),
    ensures
        forall|i: int, j: int|
            0 <= i < j < resolved_pairs(rows, attrs).len() ==> resolved_pairs(rows, attrs)[i].0
                != resolved_pairs(rows, attrs)[j].0,
    decreases attrs.len(),
{
    if attrs.len() > 0 {
        let prefix = attrs.drop_last();
        assert(distinct_strs(prefix));
        lemma_resolved_pairs_distinct(rows, prefix);
        let rest = resolved_pairs(rows, prefix);
        let last = attrs.last();
        if match_count(rows, last@) == 1 {
            let full = rest.push((last@, match_version(rows, last@)));
            assert(resolved_pairs(rows, attrs) == full);
            assert forall|i: int, j: int| 0 <= i < j < full.len() implies full[i].0
                != full[j].0 by {
                if j < rest.len() {
                    assert(full[i].0 == rest[i].0 && full[j].0 == rest[j].0);
                } else {
                    assert(full[i].0 == rest[i].0 && full[j].0 == last@);
                    assert(pairs_has(rest, rest[i].0, rest[i].1));
                    lemma_resolved_pairs_has(rows, prefix, rest[i].0, rest[i].1);
                    let m = choose|m: int| 0 <= m < prefix.len() && prefix[m]@ == rest[i].0;
                    assert(attrs[m]@ == rest[i].0);
                    assert(attrs[m]@ != attrs[attrs.len() - 1]@);
                }
            }
        } else {
            assert(resolved_pairs(rows, attrs) == rest);
        }
    }
}

/// Resolves the packages declared across the sources against the store:
/// the result holds (attribute, version) exactly for every attribute
/// some readable source declares that matches exactly one `pkgs` row,
/// with that row's version, and holds each such attribute once.
pub fn resolve_versions(store: &Store, outcomes: &Vec<Option<Vec<String>>>) -> (r: Vec<
    (String, String),
>)
    ensures
        forall|a: Seq<char>, v: Seq<char>|
            #[trigger] pairs_has(pair_views(r@), a, v) ==> (union_has(outcomes@, a)
                && match_count(store.pkgs@, a) == 1 && v == match_version(store.pkgs@, a)),
        forall|a: Seq<char>|
            union_has(outcomes@, a) && #[trigger] match_count(store.pkgs@, a) == 1
                ==> pairs_has(pair_views(r@), a, match_version(store.pkgs@, a)),
        forall|i: int, j: int| 0 <= i < j < r@.len() ==> r@[i].0@ != r@[j].0@,
{
    let attrs = collect_attrs(outcomes);
    let out = store.resolve_all(&attrs);
    proof {
        lemma_resolved_pairs_distinct(store.pkgs@, attrs@);
        assert forall|i: int, j: int| 0 <= i < j < out@.len() implies out@[i].0@
            != out@[j].0@ by {
            assert(pair_views(out@)[i].0 == out@[i].0@);
            assert(pair_views(out@)[j].0 == out@[j].0@);
        }
        assert forall|a: Seq<char>, v: Seq<char>| #[trigger]
            pairs_has(pair_views(out@), a, v) implies (union_has(outcomes@, a) && match_count(
            store.pkgs@,
            a,
        ) == 1 && v == match_version(store.pkgs@, a)) by {
            lemma_resolved_pairs_has(store.pkgs@, attrs@, a, v);
        }
        assert forall|a: Seq<char>|
            union_has(outcomes@, a) && #[trigger] match_count(store.pkgs@, a)
                == 1 implies pairs_has(
            pair_views(out@),
            a,
            match_version(store.pkgs@, a),
        ) by {
            lemma_resolved_pairs_has(store.pkgs@, attrs@, a, match_version(store.pkgs@, a));
        }
    }
    out
}

} // verus!
