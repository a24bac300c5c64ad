use vstd::prelude::*;

verus! {

/// The errors the storage backend reports to the query engine.
///
/// Lock contention is not an error: `lock` reports it as a `false` return,
/// since the engine treats contention as routine and retries.
#[derive(Clone, Copy, Debug, PartialEq, Eq, Structural)]
pub enum VfsError {
    /// `open` was called with an unrecognized file name.
    NotFound,
    /// `open` was called for an unsupported file kind.
    PermissionDenied,
    /// Growth of the backing store failed: the memory provider is exhausted.
    OutOfSpace,
}

} // verus!
