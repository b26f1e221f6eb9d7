//! Types exchanged with the surrounding application.
//!
//! Plain data carried across the API boundary: feature flags, job messages
//! and the sample normalized entities. The transport that moves them is the
//! application's business; the values themselves are held here so that the
//! engine's callers and its tests speak one language.

use vstd::prelude::*;

verus! {

/// A feature flag of the engine itself; the frontend keeps its own set.
#[derive(Clone, Copy, PartialEq, Eq, Structural, Debug)]
pub enum BackendFeature {
    /// Emit sync messages to peers as they are produced.
    SyncEmitMessages,
    /// Serve file contents to peers directly.
    FilesOverP2P,
}

/// A message a running job yields to its worker.
#[derive(Clone, Copy, PartialEq, Eq, Structural, Debug)]
pub enum JobMessage {
    /// The job is complete and stops being polled.
    Complete,
}

/// A normalized user entity.
#[derive(Debug, Clone)]
pub struct User {
    pub id: String,
    pub name: String,
}

/// A normalized organisation entity, referencing its users.
#[derive(Debug, Clone)]
pub struct Organisation {
    pub id: String,
    pub name: String,
    pub users: Vec<User>,
    pub owner: User,
    pub non_normalised_data: Vec<()>,
}

/// An entity identity composed of two keys.
#[derive(Debug, Clone)]
pub struct CompositeId {
    pub org_id: String,
    pub user_id: String,
}

/// The parameters a file-erasure job starts from.
#[derive(Clone, Copy, PartialEq, Eq, Structural, Hash, Debug)]
pub struct FileEraserJobInit {
    pub location_id: i32,
    pub path_id: i32,
    pub passes: usize,
}

/// One step of a file-erasure job: the filesystem entry to erase next.
#[derive(Debug, Clone)]
pub enum FileEraserJobStep {
    /// A directory whose entries are enqueued as further steps.
    Directory { path: String },
    /// A file whose contents are overwritten and removed.
    File { path: String },
}

} // verus!
