use vstd::prelude::*;

verus! {

/// The failure classes of the cache pipeline.
///
/// Every stage reports its failure as one of these; only `ConfigRead` is
/// recovered locally (a declaration source that cannot be read is skipped),
/// all the others abort the current cache cycle.
#[derive(Clone, Copy, Debug, PartialEq, Eq, Structural)]
pub enum CacheError {
    /// The remote version could not be determined from the redirect target.
    Resolve,
    /// The index download answered with a non-success HTTP status.
    Fetch,
    /// The downloaded index document was malformed.
    Decode,
    /// The relational store could not be created or loaded.
    Store,
    /// The external bulk-import process failed to start or exited abnormally.
    Subprocess,
    /// A declaration source could not be read or parsed.
    ConfigRead,
}

} // verus!
