use vstd::prelude::*;

verus! {

/// The closed error taxonomy of the cache facade.
///
/// Every raw backend operation surfaces its specific kind; the derived
/// operations of the manager treat only `NotFound` specially and pass every
/// other kind through unchanged.
#[derive(Debug, Clone, Copy, PartialEq, Eq, Structural)]
pub enum KvError {
    /// The key is absent, or its entry is logically expired.
    NotFound,
    /// The stored bytes could not be read back as a cache entry.
    Decode,
    /// A local filesystem failure other than "file not found".
    Io,
    /// The remote store was unreachable or replied with a failure.
    Connection,
    /// The connection string names no known backend scheme.
    Configuration,
}

/// Marker type for the "key absent or expired" failure.
#[derive(Debug, Clone, Copy, PartialEq, Eq, Structural)]
pub struct NotFoundError {}

/// The canonical "not found" result, always an error.
pub fn not_found_error() -> (r: Result<(), NotFoundError>)
    ensures
        r == Err::<(), NotFoundError>((NotFoundError {})),
{
    Err(NotFoundError {})
}

} // verus!
