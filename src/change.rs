use vstd::prelude::*;

verus! {

/// How a path changed between two revisions of the corpus.
#[derive(Clone, Copy, Debug, PartialEq, Eq, Structural)]
pub enum ChangeKind {
    Added,
    Modified,
    Deleted,
    Renamed,
}

/// One changed path, as reported by the revision source. The path is the
/// document's key in the index.
#[derive(Debug)]
pub struct ChangeRecord {
    pub kind: ChangeKind,
    pub path: String,
}

impl ChangeRecord {
    pub fn new(kind: ChangeKind, path: &str) -> (r: ChangeRecord)
        ensures
            r.kind == kind,
            r.path@ == path@,
    {
        ChangeRecord { kind, path: path.to_owned() }
    }
}

/// Why a sync call failed.
#[derive(Debug)]
pub enum SyncError {
    /// The corpus has no committed revision yet.
    NoHeadRevision,
    /// A revision id (the stored checkpoint, say) names no revision.
    UnresolvableRevision(String),
    /// Any other failure of the revision source, with its message.
    RevisionSourceError(String),
    /// The diff reported a rename of this path, which the change contract
    /// cannot express (it carries the new path only).
    RenameNotSupported(String),
    /// The content of this changed path could not be read.
    ContentReadError(String),
    /// The batch could not be applied and committed.
    IndexCommitError(String),
    /// The committed batch could not be made visible to readers.
    IndexReloadError(String),
    /// The checkpoint could not be written.
    CheckpointIOError(String),
    /// An event arrived that the sync call was not waiting for.
    OutOfOrder,
}

} // verus!
