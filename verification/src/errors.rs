//! Error taxonomy of the engine.

use vstd::prelude::*;

verus! {

/// Why an operation could not be written or applied.
#[derive(Clone, Copy, PartialEq, Eq, Structural, Debug)]
pub enum SyncError {
    /// The underlying store failed; fatal to the current operation, not to
    /// the engine. The verified in-memory store never raises it; a caller
    /// driving a fallible store maps that store's failures onto it.
    Storage,
    /// The operation's payload is malformed (a field map with a repeated
    /// name); the operation is corrupt and should be dead-lettered, never
    /// retried blindly.
    Serialization,
    /// A record the operation references is absent locally; the operation
    /// should be queued and retried once the dependency arrives.
    MissingDependency,
    /// The model/kind combination is not registered; the operation should be
    /// logged and skipped, never a panic.
    UnsupportedOperation,
}

} // verus!
