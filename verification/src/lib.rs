//! A verified core for a local package-index cache.
//!
//! The library models the logic of a cache pipeline for a remote package
//! index: deciding when the cached index is stale, transforming a decoded
//! index document into relational rows, loading those rows into an
//! in-process store, collecting declared package attributes from
//! configuration sources, and resolving each declared attribute to a
//! version by exact lookup.  Network transfer, the on-disk relational
//! store and the external bulk-import process live outside the library
//! and are driven by the decisions made here.

pub mod cache;
pub mod collector;
pub mod encode;
pub mod error;
pub mod fetch;
pub mod resolve;
pub mod store;
pub mod version;
