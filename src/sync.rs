use vstd::prelude::*;
use vstd::utf8::*;

use crate::change::{ChangeKind, ChangeRecord, SyncError};
use crate::checkpoint::{decode_checkpoint, encode_checkpoint};
use crate::index::{IndexOperation, Note};

verus! {

/// Where one sync call stands. Each call starts at `Idle` and ends at `Done`.
#[derive(Debug)]
pub enum SyncState {
    Idle,
    LoadingCheckpoint,
    ResolvingHead { from: Option<String> },
    ComputingDiff { from: Option<String>, to: String },
    ReadingContent { to: String, changes: Vec<ChangeRecord> },
    ApplyingBatch { to: String },
    Reloading { to: String },
    SavingCheckpoint { to: String },
    Done,
}

/// What the outside world reports back to a sync call.
#[derive(Debug)]
pub enum SyncEvent {
    Start,
    /// The checkpoint store's answer: the stored bytes, if any, or a read failure.
    CheckpointLoaded(Result<Option<Vec<u8>>, String>),
    HeadResolved(Result<String, SyncError>),
    DiffComputed(Result<Vec<ChangeRecord>, SyncError>),
    /// One entry per requested read, in order: the content, or `None` if it
    /// could not be read (or was not requested).
    ContentRead(Vec<Option<String>>),
    BatchCommitted(Result<u64, String>),
    Reloaded(Result<(), String>),
    CheckpointSaved(Result<(), String>),
}

/// What a sync call asks the outside world to do next.
#[derive(Debug)]
pub enum SyncAction {
    LoadCheckpoint,
    ResolveHead,
    /// Diff `from` (`None`: the empty tree) against `to`.
    ComputeDiff { from: Option<String>, to: String },
    /// Read the working-tree content of each given path; `None` asks for nothing.
    ReadContent(Vec<Option<String>>),
    /// Apply the batch in order and commit it durably, as one unit.
    CommitBatch(Vec<IndexOperation>),
    /// Make the committed batch visible to queries.
    Reload,
    /// Durably replace the stored checkpoint by these bytes.
    SaveCheckpoint(Vec<u8>),
    /// The call is over.
    Finish(Result<SyncOutcome, SyncError>),
}

/// How a successful sync call ended.
#[derive(Debug)]
pub enum SyncOutcome {
    /// The corpus has no committed revision: nothing to index.
    NothingToSync,
    /// The index holds this revision and the checkpoint records it.
    Synced(String),
}

pub open spec fn opt_view(o: Option<String>) -> Option<Seq<char>> {
    match o {
        Some(s) => Some(s@),
        None => None,
    }
}

/// The revision that the checkpoint store's answer records.
pub open spec fn stored_revision(stored: Result<Option<Vec<u8>>, String>) -> Option<Seq<char>> {
    match stored {
        Ok(Some(b)) => if valid_utf8(b@) {
            Some(decode_utf8(b@))
        } else {
            None
        },
        _ => None,
    }
}

pub open spec fn needs_content(kind: ChangeKind) -> bool {
    kind == ChangeKind::Added || kind == ChangeKind::Modified
}

/// The read that a change calls for: its path where the document is (re)built.
pub open spec fn read_request(c: ChangeRecord) -> Option<Seq<char>> {
    if needs_content(c.kind) {
        Some(c.path@)
    } else {
        None
    }
}

pub open spec fn requests_for(changes: Seq<ChangeRecord>, reqs: Seq<Option<String>>) -> bool {
    &&& reqs.len() == changes.len()
    &&& forall|i: int| 0 <= i < changes.len() ==> opt_view(#[trigger] reqs[i]) == read_request(changes[i])
}

pub open spec fn has_rename(changes: Seq<ChangeRecord>) -> bool {
    exists|i: int| 0 <= i < changes.len() && (#[trigger] changes[i]).kind == ChangeKind::Renamed
}

pub open spec fn is_first_rename(changes: Seq<ChangeRecord>, i: int) -> bool {
    &&& 0 <= i < changes.len()
    &&& changes[i].kind == ChangeKind::Renamed
    &&& forall|j: int| 0 <= j < i ==> (#[trigger] changes[j]).kind != ChangeKind::Renamed
}

pub open spec fn missing(c: ChangeRecord, content: Option<String>) -> bool {
    needs_content(c.kind) && content is None
}

pub open spec fn has_missing(changes: Seq<ChangeRecord>, contents: Seq<Option<String>>) -> bool {
    exists|i: int| 0 <= i < changes.len() && missing(#[trigger] changes[i], contents[i])
}

pub open spec fn is_first_missing(
    changes: Seq<ChangeRecord>,
    contents: Seq<Option<String>>,
    i: int,
) -> bool {
    &&& 0 <= i < changes.len()
    &&& missing(changes[i], contents[i])
    &&& forall|j: int| 0 <= j < i ==> !missing(#[trigger] changes[j], contents[j])
}

/// The operation that a change becomes: an upsert of the read content for an
/// added or modified path, a delete for a deleted one.
pub open spec fn op_for(c: ChangeRecord, content: Option<String>, op: IndexOperation) -> bool {
    match op {
        IndexOperation::Upsert(n) => {
            &&& needs_content(c.kind)
            &&& n.path@ == c.path@
            &&& content is Some
            &&& n.body is Some
            &&& n.body.unwrap()@ == content.unwrap()@
        },
        IndexOperation::Delete(p) => c.kind == ChangeKind::Deleted && p@ == c.path@,
    }
}

/// `ops` is the batch for `changes`: one operation per change, in order.
pub open spec fn batch_for(
    changes: Seq<ChangeRecord>,
    contents: Seq<Option<String>>,
    ops: Seq<IndexOperation>,
) -> bool {
    &&& ops.len() == changes.len()
    &&& contents.len() == changes.len()
    &&& forall|i: int| 0 <= i < changes.len() ==> op_for(changes[i], contents[i], #[trigger] ops[i])
}

/// The outcome of turning changes and their contents into a batch.
pub open spec fn plan_spec(
    changes: Seq<ChangeRecord>,
    contents: Seq<Option<String>>,
    r: Result<Vec<IndexOperation>, SyncError>,
) -> bool {
    if contents.len() != changes.len() {
        r == Err::<Vec<IndexOperation>, SyncError>(SyncError::OutOfOrder)
    } else if has_rename(changes) {
        exists|i: int|
            is_first_rename(changes, i) && (r matches Err(SyncError::RenameNotSupported(p)) && p@
                == changes[i].path@)
    } else if has_missing(changes, contents) {
        exists|i: int|
            is_first_missing(changes, contents, i) && (r matches Err(
                SyncError::ContentReadError(p),
            ) && p@ == changes[i].path@)
    } else {
        r matches Ok(ops) && batch_for(changes, contents, ops@)
    }
}

/// One transition of a sync call: from state `s`, on event `e`, to state `s2`
/// with action `a`. An event that the state does not wait for ends the call.
pub open spec fn step_spec(s: SyncState, e: SyncEvent, s2: SyncState, a: SyncAction) -> bool {
    match (s, e) {
        (SyncState::Idle, SyncEvent::Start) => s2 is LoadingCheckpoint && a is LoadCheckpoint,
        (SyncState::LoadingCheckpoint, SyncEvent::CheckpointLoaded(stored)) => {
            &&& (s2 matches SyncState::ResolvingHead { from } && opt_view(from) == stored_revision(
                stored,
            ))
            &&& a is ResolveHead
        },
        (SyncState::ResolvingHead { from }, SyncEvent::HeadResolved(Ok(to))) => {
            &&& (s2 matches SyncState::ComputingDiff { from: f2, to: t2 } && opt_view(f2) == opt_view(
                from,
            ) && t2@ == to@)
            &&& (a matches SyncAction::ComputeDiff { from: f3, to: t3 } && opt_view(f3) == opt_view(
                from,
            ) && t3@ == to@)
        },
        (SyncState::ResolvingHead { .. }, SyncEvent::HeadResolved(Err(err))) => {
            &&& s2 is Done
            &&& if err is NoHeadRevision {
                a == SyncAction::Finish(Ok(SyncOutcome::NothingToSync))
            } else {
                a == SyncAction::Finish(Err(err))
            }
        },
        (SyncState::ComputingDiff { to, .. }, SyncEvent::DiffComputed(Ok(changes))) => {
            if has_rename(changes@) {
                &&& s2 is Done
                &&& exists|i: int|
                    is_first_rename(changes@, i) && (a matches SyncAction::Finish(
                        Err(SyncError::RenameNotSupported(p)),
                    ) && p@ == changes@[i].path@)
            } else {
                &&& (s2 matches SyncState::ReadingContent { to: t2, changes: c2 } && t2@ == to@
                    && c2 == changes)
                &&& (a matches SyncAction::ReadContent(reqs) && requests_for(changes@, reqs@))
            }
        },
        (SyncState::ComputingDiff { .. }, SyncEvent::DiffComputed(Err(err))) => {
            s2 is Done && a == SyncAction::Finish(Err(err))
        },
        (SyncState::ReadingContent { to, changes }, SyncEvent::ContentRead(contents)) => {
            ||| {
                &&& (s2 matches SyncState::ApplyingBatch { to: t2 } && t2@ == to@)
                &&& (a matches SyncAction::CommitBatch(ops) && plan_spec(
                    changes@,
                    contents@,
                    Ok(ops),
                ))
            }
            ||| {
                &&& s2 is Done
                &&& (a matches SyncAction::Finish(Err(err)) && plan_spec(
                    changes@,
                    contents@,
                    Err(err),
                ))
            }
        },
        (SyncState::ApplyingBatch { to }, SyncEvent::BatchCommitted(Ok(_))) => {
            (s2 matches SyncState::Reloading { to: t2 } && t2@ == to@) && a is Reload
        },
        (SyncState::ApplyingBatch { .. }, SyncEvent::BatchCommitted(Err(m))) => {
            s2 is Done && a == SyncAction::Finish(Err(SyncError::IndexCommitError(m)))
        },
        (SyncState::Reloading { to }, SyncEvent::Reloaded(Ok(_))) => {
            &&& (s2 matches SyncState::SavingCheckpoint { to: t2 } && t2@ == to@)
            &&& (a matches SyncAction::SaveCheckpoint(b) && b@ == encode_utf8(to@))
        },
        (SyncState::Reloading { .. }, SyncEvent::Reloaded(Err(m))) => {
            s2 is Done && a == SyncAction::Finish(Err(SyncError::IndexReloadError(m)))
        },
        (SyncState::SavingCheckpoint { to }, SyncEvent::CheckpointSaved(Ok(_))) => {
            &&& s2 is Done
            &&& (a matches SyncAction::Finish(Ok(SyncOutcome::Synced(r))) && r@ == to@)
        },
        (SyncState::SavingCheckpoint { .. }, SyncEvent::CheckpointSaved(Err(m))) => {
            s2 is Done && a == SyncAction::Finish(Err(SyncError::CheckpointIOError(m)))
        },
        _ => s2 is Done && a == SyncAction::Finish(Err(SyncError::OutOfOrder)),
    }
}

fn clone_opt(o: &Option<String>) -> (r: Option<String>)
    ensures
        opt_view(r) == opt_view(*o),
{
    match o {
        Some(s) => Some(s.clone()),
        None => None,
    }
}

/// The reads that a batch for `changes` needs, one entry per change.
pub fn read_requests(changes: &Vec<ChangeRecord>) -> (r: Vec<Option<String>>)
    ensures
        requests_for(changes@, r@),
{
    let mut r: Vec<Option<String>> = Vec::new();
    let mut i: usize = 0;
    while i < changes.len()
        invariant
            i <= changes@.len(),
            r@.len() == i,
            forall|j: int| 0 <= j < i ==> opt_view(#[trigger] r@[j]) == read_request(changes@[j]),
        decreases changes@.len() - i,
    {
        let c = &changes[i];
        match c.kind {
            ChangeKind::Added | ChangeKind::Modified => r.push(Some(c.path.clone())),
            _ => r.push(None),
        }
        i = i + 1;
    }
    r
}

/// The position of the first renamed path, if any.
fn first_rename(changes: &Vec<ChangeRecord>) -> (r: Option<usize>)
    ensures
        r is None <==> !has_rename(changes@),
        r matches Some(i) ==> is_first_rename(changes@, i as int),
{
    let mut i: usize = 0;
    while i < changes.len()
        invariant
            i <= changes@.len(),
            forall|j: int| 0 <= j < i ==> (#[trigger] changes@[j]).kind != ChangeKind::Renamed,
        decreases changes@.len() - i,
    {
        if changes[i].kind == ChangeKind::Renamed {
            return Some(i);
        }
        i = i + 1;
    }
    None
}

/// The position of the first change whose needed content is missing, if any.
fn first_missing(changes: &Vec<ChangeRecord>, contents: &Vec<Option<String>>) -> (r: Option<
    usize,
>)
    requires
        contents@.len() == changes@.len(),
    ensures
        r is None <==> !has_missing(changes@, contents@),
        r matches Some(i) ==> is_first_missing(changes@, contents@, i as int),
{
    let mut i: usize = 0;
    while i < changes.len()
        invariant
            i <= changes@.len(),
            contents@.len() == changes@.len(),
            forall|j: int| 0 <= j < i ==> !missing(#[trigger] changes@[j], contents@[j]),
        decreases changes@.len() - i,
    {
        let needs = match changes[i].kind {
            ChangeKind::Added | ChangeKind::Modified => true,
            _ => false,
        };
        if needs && contents[i].is_none() {
            return Some(i);
        }
        i = i + 1;
    }
    None
}

fn build_batch(changes: &Vec<ChangeRecord>, contents: &Vec<Option<String>>) -> (r: Vec<
    IndexOperation,
>)
    requires
        contents@.len() == changes@.len(),
        !has_rename(changes@),
        !has_missing(changes@, contents@),
    ensures
        batch_for(changes@, contents@, r@),
{
    let mut r: Vec<IndexOperation> = Vec::new();
    let mut i: usize = 0;
    while i < changes.len()
        invariant
            i <= changes@.len(),
            contents@.len() == changes@.len(),
            !has_rename(changes@),
            !has_missing(changes@, contents@),
            r@.len() == i,
            forall|j: int| 0 <= j < i ==> op_for(changes@[j], contents@[j], #[trigger] r@[j]),
        decreases changes@.len() - i,
    {
        let c = &changes[i];
        assert(c.kind != ChangeKind::Renamed);
        assert(!missing(changes@[i as int], contents@[i as int]));
        match &contents[i] {
            Some(t) if c.kind != ChangeKind::Deleted => {
                r.push(IndexOperation::Upsert(Note { path: c.path.clone(), body: Some(t.clone()) }));
            },
            _ => {
                r.push(IndexOperation::Delete(c.path.clone()));
            },
        }
        i = i + 1;
    }
    r
}

/// Turns the changes between two revisions, with the content read for
/// each, into one index batch. A rename cannot be expressed: the change
/// carries the new path only.
pub fn plan_batch(changes: &Vec<ChangeRecord>, contents: &Vec<Option<String>>) -> (r: Result<
    Vec<IndexOperation>,
    SyncError,
>)
    ensures
        plan_spec(changes@, contents@, r),
{
    if contents.len() != changes.len() {
        return Err(SyncError::OutOfOrder);
    }
    match first_rename(changes) {
        Some(i) => {
            return Err(SyncError::RenameNotSupported(changes[i].path.clone()));
        },
        None => {},
    }
    match first_missing(changes, contents) {
        Some(i) => {
            return Err(SyncError::ContentReadError(changes[i].path.clone()));
        },
        None => {},
    }
    Ok(build_batch(changes, contents))
}

impl SyncState {
    /// A fresh sync call.
    pub fn new() -> (r: SyncState)
        ensures
            r is Idle,
    {
        SyncState::Idle
    }

    pub fn is_done(&self) -> (r: bool)
        ensures
            r == self is Done,
    {
        match self {
            SyncState::Done => true,
            _ => false,
        }
    }

    /// Advances the call by one event: the next state and what to do next.
    pub fn step(self, event: SyncEvent) -> (r: (SyncState, SyncAction))
        ensures
            step_spec(self, event, r.0, r.1),
    {
        let out_of_order = (SyncState::Done, SyncAction::Finish(Err(SyncError::OutOfOrder)));
        match self {
            SyncState::Idle => match event {
                SyncEvent::Start => (SyncState::LoadingCheckpoint, SyncAction::LoadCheckpoint),
                _ => out_of_order,
            },
            SyncState::LoadingCheckpoint => match event {
                SyncEvent::CheckpointLoaded(stored) => {
                    let from = decode_checkpoint(&stored);
                    (SyncState::ResolvingHead { from }, SyncAction::ResolveHead)
                },
                _ => out_of_order,
            },
            SyncState::ResolvingHead { from } => match event {
                SyncEvent::HeadResolved(Ok(to)) => {
                    let action = SyncAction::ComputeDiff { from: clone_opt(&from), to: to.clone() };
                    (SyncState::ComputingDiff { from, to }, action)
                },
                SyncEvent::HeadResolved(Err(SyncError::NoHeadRevision)) => {
                    (SyncState::Done, SyncAction::Finish(Ok(SyncOutcome::NothingToSync)))
                },
                SyncEvent::HeadResolved(Err(err)) => (SyncState::Done, SyncAction::Finish(Err(err))),
                _ => out_of_order,
            },
            SyncState::ComputingDiff { from: _, to } => match event {
                SyncEvent::DiffComputed(Ok(changes)) => {
                    match first_rename(&changes) {
                        Some(i) => {
                            let path = changes[i].path.clone();
                            (SyncState::Done, SyncAction::Finish(Err(SyncError::RenameNotSupported(path))))
                        },
                        None => {
                            let reqs = read_requests(&changes);
                            (SyncState::ReadingContent { to, changes }, SyncAction::ReadContent(reqs))
                        },
                    }
                },
                SyncEvent::DiffComputed(Err(err)) => (SyncState::Done, SyncAction::Finish(Err(err))),
                _ => out_of_order,
            },
            SyncState::ReadingContent { to, changes } => match event {
                SyncEvent::ContentRead(contents) => match plan_batch(&changes, &contents) {
                    Ok(ops) => (SyncState::ApplyingBatch { to }, SyncAction::CommitBatch(ops)),
                    Err(err) => (SyncState::Done, SyncAction::Finish(Err(err))),
                },
                _ => out_of_order,
            },
            SyncState::ApplyingBatch { to } => match event {
                SyncEvent::BatchCommitted(Ok(_)) => (SyncState::Reloading { to }, SyncAction::Reload),
                SyncEvent::BatchCommitted(Err(m)) => {
                    (SyncState::Done, SyncAction::Finish(Err(SyncError::IndexCommitError(m))))
                },
                _ => out_of_order,
            },
            SyncState::Reloading { to } => match event {
                SyncEvent::Reloaded(Ok(_)) => {
                    let bytes = encode_checkpoint(&to);
                    (SyncState::SavingCheckpoint { to }, SyncAction::SaveCheckpoint(bytes))
                },
                SyncEvent::Reloaded(Err(m)) => {
                    (SyncState::Done, SyncAction::Finish(Err(SyncError::IndexReloadError(m))))
                },
                _ => out_of_order,
            },
            SyncState::SavingCheckpoint { to } => match event {
                SyncEvent::CheckpointSaved(Ok(_)) => {
                    (SyncState::Done, SyncAction::Finish(Ok(SyncOutcome::Synced(to))))
                },
                SyncEvent::CheckpointSaved(Err(m)) => {
                    (SyncState::Done, SyncAction::Finish(Err(SyncError::CheckpointIOError(m))))
                },
                _ => out_of_order,
            },
            SyncState::Done => out_of_order,
        }
    }
}

} // verus!
