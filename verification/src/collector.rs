//! Collection of declared package attributes.
//!
//! The configuration reader is an external collaborator specified at its
//! boundary: for each declaration source the shell hands in the reader's
//! outcome — the ordered list of values declared under the key, or
//! nothing when the source could not be read or parsed (the reader can
//! even abort on adversarial content, which the shell turns into the
//! same nothing).  The collector accumulates the set union of all
//! successful outcomes; a failed source contributes nothing and never
//! aborts the collection.

use vstd::prelude::*;
use crate::version::str_eq;

verus! {

/// The key under which declared packages conventionally stand.
pub fn declared_packages_key() -> (r: &'static str)
    ensures
        r@ == "environment.systemPackages"@,
{
    "environment.systemPackages"
}

/// Membership of a string value in a list of strings.
pub open spec fn seq_has_str(v: Seq<String>, s: Seq<char>) -> bool {
    exists|i: int| 0 <= i < v.len() && v[i]@ == s
}

/// Whether one reader outcome declares `s`; a failed source declares
/// nothing.
pub open spec fn outcome_has(o: Option<Vec<String>>, s: Seq<char>) -> bool {
    match o {
        Some(v) => seq_has_str(v@, s),
        None => false,
    }
}

/// Whether any source's outcome declares `s`.
pub open spec fn union_has(outcomes: Seq<Option<Vec<String>>>, s: Seq<char>) -> bool {
    exists|i: int| 0 <= i < outcomes.len() && outcome_has(outcomes[i], s)
}

/// Pairwise distinctness of the values of a list: set semantics.
pub open spec fn distinct_strs(v: Seq<String>) -> bool {
    forall|i: int, j: int| 0 <= i < j < v.len() ==> v[i]@ != v[j]@
}

proof fn lemma_push_has(v: Seq<String>, x: String)
    ensures
        forall|s: Seq<char>|
            #[trigger] seq_has_str(v.push(x), s) <==> (seq_has_str(v, s) || x@ == s),
{
    assert forall|s: Seq<char>|
        #[trigger] seq_has_str(v.push(x), s) <==> (seq_has_str(v, s) || x@ == s) by {
        if seq_has_str(v.push(x), s) {
            let i = choose|i: int| 0 <= i < v.push(x).len() && v.push(x)[i]@ == s;
            if i < v.len() {
                assert(v[i]@ == s);
            } else {
                assert(x@ == s);
            }
        }
        if seq_has_str(v, s) {
            let i = choose|i: int| 0 <= i < v.len() && v[i]@ == s;
            assert(v.push(x)[i]@ == s);
        }
        if x@ == s {
            assert(v.push(x)[v.len() as int]@ == s);
        }
    }
}

/// Whether `v` holds the value `s`.
pub fn contains_str(v: &Vec<String>, s: &str) -> (r: bool)
    ensures
        r == seq_has_str(v@, s@),
{
    let n = v.len();
    let mut i: usize = 0;
    while i < n
        invariant
            i <= n,
            n == v@.len(),
            forall|j: int| 0 <= j < i ==> v@[j]@ != s@,
        decreases n - i,
    {
        if str_eq(v[i].as_str(), s) {
            return true;
        }
        i += 1;
    }
    false
}

/// Adds every value of `items` that `acc` does not hold yet: afterwards
/// `acc` holds the union of the two value sets, still without duplicates.
pub fn union_into(acc: &mut Vec<String>, items: &Vec<String>)
    requires
        distinct_strs(old(acc)@),
    ensures
        distinct_strs(final(acc)@),
        forall|s: Seq<char>|
            #[trigger] seq_has_str(final(acc)@, s) <==> (seq_has_str(old(acc)@, s) || seq_has_str(
                items@,
                s,
            )),
{
    let n = items.len();
    let mut k: usize = 0;
    while k < n
        invariant
            k <= n,
            n == items@.len(),
            distinct_strs(acc@),
            forall|s: Seq<char>|
                #[trigger] seq_has_str(acc@, s) <==> (seq_has_str(old(acc)@, s) || seq_has_str(
                    items@.take(k as int),
                    s,
                )),
        decreases n - k,
    {
        proof {
            assert(items@.take(k + 1) =~= items@.take(k as int).push(items@[k as int]));
            lemma_push_has(items@.take(k as int), items@[k as int]);
        }
        let item = &items[k];
        if !contains_str(acc, item.as_str()) {
            proof {
                lemma_push_has(acc@, *item);
            }
            acc.push(item.clone());
        }
        k += 1;
    }
    proof {
        assert(items@.take(n as int) =~= items@);
    }
}

/// Collects the set union of the declared values across all reader
/// outcomes, a failed source contributing nothing.
pub fn collect_attrs(outcomes: &Vec<Option<Vec<String>>>) -> (r: Vec<String>)
    ensures
        distinct_strs(r@),
        forall|s: Seq<char>| #[trigger] seq_has_str(r@, s) <==> union_has(outcomes@, s),
{
    let n = outcomes.len();
    let mut acc: Vec<String> = Vec::new();
    let mut i: usize = 0;
    while i < n
        invariant
            i <= n,
            n == outcomes@.len(),
            distinct_strs(acc@),
            forall|s: Seq<char>|
                #[trigger] seq_has_str(acc@, s) <==> union_has(outcomes@.take(i as int), s),
        decreases n - i,
    {
        proof {
            lemma_union_take_step(outcomes@, i as int);
        }
        match &outcomes[i] {
            Some(vals) => {
                union_into(&mut acc, vals);
            },
            None => {},
        }
        i += 1;
    }
    proof {
        assert(outcomes@.take(n as int) =~= outcomes@);
    }
    acc
}

proof fn lemma_union_take_step(outcomes: Seq<Option<Vec<String>>>, i: int)
    requires
        0 <= i < outcomes.len(),
    ensures
        forall|s: Seq<char>|
            #[trigger] union_has(outcomes.take(i + 1), s) <==> (union_has(outcomes.take(i), s)
                || outcome_has(outcomes[i], s)),
{
    assert forall|s: Seq<char>|
        #[trigger] union_has(outcomes.take(i + 1), s) <==> (union_has(outcomes.take(i), s)
            || outcome_has(outcomes[i], s)) by {
        if union_has(outcomes.take(i + 1), s) {
            let j = choose|j: int|
                0 <= j < outcomes.take(i + 1).len() && #[trigger] outcome_has(
                    outcomes.take(i + 1)[j],
                    s,
                );
            if j < i {
                assert(outcomes.take(i)[j] == outcomes[j]);
                assert(outcome_has(outcomes.take(i)[j], s));
            } else {
                assert(outcomes.take(i + 1)[j] == outcomes[i]);
            }
        }
        if union_has(outcomes.take(i), s) {
            let j = choose|j: int|
                0 <= j < outcomes.take(i).len() && #[trigger] outcome_has(outcomes.take(i)[j], s);
            assert(outcomes.take(i + 1)[j] == outcomes[j]);
            assert(outcome_has(outcomes.take(i + 1)[j], s));
        }
        if outcome_has(outcomes[i], s) {
            assert(outcomes.take(i + 1)[i] == outcomes[i]);
            assert(outcome_has(outcomes.take(i + 1)[i], s));
        }
    }
}

/// The set of values a list holds.
pub open spec fn str_set(v: Seq<String>) -> Set<Seq<char>> {
    Set::new(|s: Seq<char>| seq_has_str(v, s))
}

/// The attribute set of one reader outcome: empty when the source
/// failed.
pub open spec fn source_set(o: Option<Vec<String>>) -> Set<Seq<char>> {
    Set::new(|s: Seq<char>| outcome_has(o, s))
}

/// The union of the attribute sets of all sources.
pub open spec fn union_sets(outcomes: Seq<Option<Vec<String>>>) -> Set<Seq<char>>
    decreases outcomes.len(),
{
    if outcomes.len() == 0 {
        Set::empty()
    } else {
        union_sets(outcomes.drop_last()).union(source_set(outcomes.last()))
    }
}

proof fn lemma_union_sets_has(outcomes: Seq<Option<Vec<String>>>)
    ensures
        forall|s: Seq<char>|
            #[trigger] union_sets(outcomes).contains(s) <==> union_has(outcomes, s),
    decreases outcomes.len(),
{
    if outcomes.len() > 0 {
        lemma_union_sets_has(outcomes.drop_last());
        assert forall|s: Seq<char>|
            #[trigger] union_sets(outcomes).contains(s) <==> union_has(outcomes, s) by {
            let prefix = outcomes.drop_last();
            if union_sets(outcomes).contains(s) {
                if union_sets(prefix).contains(s) {
                    let j = choose|j: int|
                        0 <= j < prefix.len() && #[trigger] outcome_has(prefix[j], s);
                    assert(outcomes[j] == prefix[j]);
                    assert(outcome_has(outcomes[j], s));
                } else {
                    assert(outcome_has(outcomes[outcomes.len() - 1], s));
                }
            }
            if union_has(outcomes, s) {
                let j = choose|j: int|
                    0 <= j < outcomes.len() && #[trigger] outcome_has(outcomes[j], s);
                if j < outcomes.len() - 1 {
                    assert(prefix[j] == outcomes[j]);
                    assert(outcome_has(prefix[j], s));
                    assert(union_sets(prefix).contains(s));
                } else {
                    assert(source_set(outcomes.last()).contains(s));
                }
            }
        }
    }
}

/// Set-union law: what the collector returns holds exactly the union of
/// the attribute sets of all declaration sources, a failed source
/// contributing the empty set rather than aborting the union.
pub proof fn lemma_collect_is_set_union(outcomes: Seq<Option<Vec<String>>>, r: Seq<String>)
    requires
        forall|s: Seq<char>| #[trigger] seq_has_str(r, s) <==> union_has(outcomes, s),
    ensures
        str_set(r) == union_sets(outcomes),
{
    lemma_union_sets_has(outcomes);
    assert(str_set(r) =~= union_sets(outcomes));
}

} // verus!
