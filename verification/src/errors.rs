//! Typed failures surfaced by the engine.

use vstd::prelude::*;

verus! {

/// Every engine call reports failure through one of these kinds rather
/// than panicking, so an interactive caller can render the failure and
/// continue.
#[derive(Clone, Copy, Debug, PartialEq, Eq, Structural)]
pub enum FsError {
    /// Generic I/O failure, e.g. a directory that cannot be enumerated.
    Filesystem,
    /// A content copy failed mid-operation.
    CopyFailed,
    /// Removing a source after a successful copy failed, leaving an
    /// orphaned copy behind.
    RemoveFailed,
    /// A filename could not be represented as valid text during a
    /// recursive walk.
    Encoding,
    /// An index or path reference does not resolve to a current item.
    NotFound,
    /// The manipulation log has no record left to undo.
    NothingToUndo,
    /// The manipulation log has no undone record left to redo.
    NothingToRedo,
}

} // verus!
