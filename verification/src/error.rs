//! The ways in which a request can fail.

use vstd::prelude::*;

verus! {

/// Why a request was not answered with data.
#[derive(Clone, Copy, Debug, PartialEq, Eq, Structural)]
pub enum FsError {
    /// The identifier or name has no live entry in the current snapshot.
    NotFound,
    /// The store could not be listed or read, so no snapshot exists.
    StoreUnavailable,
    /// The request would change the store, which this view never does.
    Unsupported,
}

} // verus!
