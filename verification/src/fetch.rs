//! The outcome of one download-and-decode stage.
//!
//! The download itself is a blocking transfer outside the library; what
//! is decided here is the stage's contract: a non-success HTTP status is
//! a fetch failure, a body that does not decode as the selected schema
//! variant is a decode failure and fatal to the cycle — no partial
//! acceptance — and only a decoded document goes on to the rebuild.

use vstd::prelude::*;
use crate::error::CacheError;

verus! {

/// Classifies what the transfer and the decoder came back with.
pub fn decode_outcome<T>(status_success: bool, decoded: Option<T>) -> (r: Result<T, CacheError>)
    ensures
        !status_success ==> (r matches Err(e) && e == CacheError::Fetch),
        status_success && decoded is None ==> (r matches Err(e) && e == CacheError::Decode),
        status_success ==> (decoded matches Some(d) ==> (r matches Ok(v) && v == d)),
{
    if !status_success {
        return Err(CacheError::Fetch);
    }
    match decoded {
        Some(d) => Ok(d),
        None => Err(CacheError::Decode),
    }
}

} // verus!
