//! Freshness checking and the cache cycle.
//!
//! Per cache artifact the manager keeps a version marker beside the
//! artifact file.  A cycle resolves the remote version, and the store is
//! reused exactly when the marker holds that version and the artifact
//! exists; otherwise the store is rebuilt and, only after the rebuild
//! has fully succeeded, the marker is overwritten with the resolved
//! version — the sole consistency mechanism.  A cycle that fails mid-way
//! leaves the marker unchanged, so the next cycle rebuilds again.
//!
//! Nothing guards two concurrent cycles against the same artifact path:
//! their delete, create and import steps can interleave.  Single-writer
//! use per artifact is assumed.

use vstd::prelude::*;
use crate::version::str_eq;

verus! {

/// What a cycle does after the freshness check.
#[derive(Clone, Copy, Debug, PartialEq, Eq, Structural)]
pub enum CacheAction {
    /// The artifact is fresh: hand out its path, fetch nothing.
    UseExisting,
    /// The artifact is stale or missing: fetch, decode and rebuild.
    Rebuild,
}

/// The on-disk state the manager reads at the start of a cycle: the
/// marker content (if the marker file is readable) and whether the
/// artifact file exists.
pub struct CacheState {
    pub marker: Option<String>,
    pub artifact_exists: bool,
}

/// The mathematical value of a cache state.
pub struct CacheStateV {
    pub marker: Option<Seq<char>>,
    pub artifact_exists: bool,
}

impl View for CacheState {
    type V = CacheStateV;

    open spec fn view(&self) -> CacheStateV {
        CacheStateV {
            marker: match self.marker {
                Some(m) => Some(m@),
                None => None,
            },
            artifact_exists: self.artifact_exists,
        }
    }
}

/// Freshness: the marker holds exactly the resolved version and the
/// artifact file exists.
pub open spec fn spec_fresh(s: CacheStateV, resolved: Seq<char>) -> bool {
    s.artifact_exists && (s.marker matches Some(m) && m == resolved)
}

/// One successful cycle: a fresh state is left untouched and nothing is
/// fetched; otherwise the store is rebuilt and the marker then holds the
/// resolved version.
pub open spec fn spec_cycle(s: CacheStateV, resolved: Seq<char>) -> (CacheAction, CacheStateV) {
    if spec_fresh(s, resolved) {
        (CacheAction::UseExisting, s)
    } else {
        (CacheAction::Rebuild, CacheStateV { marker: Some(resolved), artifact_exists: true })
    }
}

/// The freshness check of one cycle.
pub fn decide(state: &CacheState, resolved: &str) -> (a: CacheAction)
    ensures
        a == spec_cycle(state@, resolved@).0,
        a == CacheAction::UseExisting <==> spec_fresh(state@, resolved@),
{
    if state.artifact_exists {
        match &state.marker {
            Some(m) => {
                if str_eq(m.as_str(), resolved) {
                    CacheAction::UseExisting
                } else {
                    CacheAction::Rebuild
                }
            },
            None => CacheAction::Rebuild,
        }
    } else {
        CacheAction::Rebuild
    }
}

/// Records the completion of a successful rebuild: the artifact stands
/// anew and only now is the marker overwritten with the resolved
/// version, leaving a state that is fresh for it.
pub fn apply_rebuild_success(state: &mut CacheState, resolved: &str)
    ensures
        final(state)@ == spec_cycle(old(state)@, resolved@).1,
        spec_fresh(final(state)@, resolved@),
{
    state.artifact_exists = true;
    state.marker = Some(resolved.to_owned());
}

/// Freshness is idempotent: whatever state one successful cycle starts
/// from, a second cycle against an unchanged resolved version finds the
/// cache fresh and performs no rebuild.
pub proof fn lemma_freshness_idempotent(s: CacheStateV, resolved: Seq<char>)
    ensures
        spec_cycle(spec_cycle(s, resolved).1, resolved).0 == CacheAction::UseExisting,
        spec_cycle(spec_cycle(s, resolved).1, resolved).1 == spec_cycle(s, resolved).1,
{
}

/// Crash recovery: whatever a failed rebuild left of the artifact file,
/// as long as the marker it left behind does not hold the resolved
/// version, the next cycle rebuilds again.  A rebuild that never writes
/// the marker keeps this when the cycle went stale on a marker mismatch;
/// a shell that invalidates the marker before touching the artifact
/// keeps it from every starting state, closing the one corner (stale
/// only for want of the artifact, failure leaving a partial one beside
/// an already-matching marker).
pub proof fn lemma_failed_rebuild_retries(after: CacheStateV, resolved: Seq<char>)
    requires
        !(after.marker matches Some(m) && m == resolved),
    ensures
        spec_cycle(after, resolved).0 == CacheAction::Rebuild,
{
}

/// The artifact path of a source inside the cache directory.
pub fn artifact_path(cache_dir: &str, source: &str) -> (r: String)
    ensures
        r@ == cache_dir@ + "/"@ + source@ + ".db"@,
{
    let mut s = cache_dir.to_owned();
    s.append("/");
    s.append(source);
    s.append(".db");
    s
}

/// The version-marker path of a source inside the cache directory.
pub fn marker_path(cache_dir: &str, source: &str) -> (r: String)
    ensures
        r@ == cache_dir@ + "/"@ + source@ + ".ver"@,
{
    let mut s = cache_dir.to_owned();
    s.append("/");
    s.append(source);
    s.append(".ver");
    s
}

} // verus!
