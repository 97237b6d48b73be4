use nb::{
    apply_batch, encode_checkpoint, ChangeKind, ChangeRecord, IndexOperation, Note, SyncAction,
    SyncError, SyncEvent, SyncOutcome, SyncState,
};

fn start_call(stored: Result<Option<Vec<u8>>, String>) -> SyncState {
    let (s, a) = SyncState::new().step(SyncEvent::Start);
    assert!(matches!(a, SyncAction::LoadCheckpoint));
    let (s, a) = s.step(SyncEvent::CheckpointLoaded(stored));
    assert!(matches!(a, SyncAction::ResolveHead));
    s
}

fn added(path: &str) -> ChangeRecord {
    ChangeRecord::new(ChangeKind::Added, path)
}

fn commit_ops(a: SyncAction) -> Vec<IndexOperation> {
    match a {
        SyncAction::CommitBatch(ops) => ops,
        other => panic!("expected a batch, got {:?}", other),
    }
}

/// Runs a call from `stored` with head `head`, the given diff and contents, up
/// to the batch commit; returns the state and the batch.
fn run_to_commit(
    stored: Result<Option<Vec<u8>>, String>,
    head: &str,
    expected_from: Option<&str>,
    changes: Vec<ChangeRecord>,
    contents: Vec<Option<String>>,
) -> (SyncState, Vec<IndexOperation>) {
    let s = start_call(stored);
    let (s, a) = s.step(SyncEvent::HeadResolved(Ok(head.to_string())));
    match a {
        SyncAction::ComputeDiff { from, to } => {
            assert_eq!(from.as_deref(), expected_from);
            assert_eq!(to, head);
        }
        other => panic!("expected a diff request, got {:?}", other),
    }
    let (s, a) = s.step(SyncEvent::DiffComputed(Ok(changes)));
    assert!(matches!(a, SyncAction::ReadContent(_)));
    let (s, a) = s.step(SyncEvent::ContentRead(contents));
    (s, commit_ops(a))
}

fn finish_call(s: SyncState) -> (Vec<u8>, SyncAction) {
    let (s, a) = s.step(SyncEvent::BatchCommitted(Ok(1)));
    assert!(matches!(a, SyncAction::Reload));
    let (s, a) = s.step(SyncEvent::Reloaded(Ok(())));
    let bytes = match a {
        SyncAction::SaveCheckpoint(b) => b,
        other => panic!("expected a checkpoint write, got {:?}", other),
    };
    let (s, a) = s.step(SyncEvent::CheckpointSaved(Ok(())));
    assert!(s.is_done());
    (bytes, a)
}

#[test]
fn first_sync_indexes_every_file() {
    let s = start_call(Ok(None));
    let (s, a) = s.step(SyncEvent::HeadResolved(Ok("c1".to_string())));
    match a {
        SyncAction::ComputeDiff { from, to } => {
            assert!(from.is_none());
            assert_eq!(to, "c1");
        }
        other => panic!("unexpected {:?}", other),
    }
    let (s, a) = s.step(SyncEvent::DiffComputed(Ok(vec![added("a.md"), added("b.md")])));
    match a {
        SyncAction::ReadContent(reqs) => {
            assert_eq!(reqs, vec![Some("a.md".to_string()), Some("b.md".to_string())]);
        }
        other => panic!("unexpected {:?}", other),
    }
    let contents = vec![Some("alpha notes".to_string()), Some("beta notes".to_string())];
    let (s, a) = s.step(SyncEvent::ContentRead(contents));
    let ops = commit_ops(a);
    assert_eq!(ops.len(), 2);
    let mut docs: Vec<Note> = Vec::new();
    apply_batch(&mut docs, ops);
    assert_eq!(docs.len(), 2);
    assert_eq!(docs[0].path, "a.md");
    assert_eq!(docs[0].body.as_deref(), Some("alpha notes"));
    assert_eq!(docs[1].path, "b.md");
    assert_eq!(docs[1].body.as_deref(), Some("beta notes"));
    let (bytes, a) = finish_call(s);
    assert_eq!(bytes, b"c1".to_vec());
    assert!(matches!(a, SyncAction::Finish(Ok(SyncOutcome::Synced(ref r))) if r == "c1"));
}

#[test]
fn second_sync_without_changes_is_a_no_op() {
    let (s, ops) = run_to_commit(
        Ok(None),
        "c1",
        None,
        vec![added("a.md")],
        vec![Some("alpha".to_string())],
    );
    assert_eq!(ops.len(), 1);
    let (saved, _) = finish_call(s);

    let (s, ops) = run_to_commit(Ok(Some(saved.clone())), "c1", Some("c1"), vec![], vec![]);
    assert_eq!(ops.len(), 0);
    let (saved_again, a) = finish_call(s);
    assert_eq!(saved_again, saved);
    assert!(matches!(a, SyncAction::Finish(Ok(SyncOutcome::Synced(ref r))) if r == "c1"));
}

#[test]
fn failed_commit_does_not_write_the_checkpoint() {
    let (s, _) = run_to_commit(
        Ok(Some(b"c1".to_vec())),
        "c2",
        Some("c1"),
        vec![added("a.md")],
        vec![Some("alpha".to_string())],
    );
    let (s, a) = s.step(SyncEvent::BatchCommitted(Err("disk full".to_string())));
    assert!(s.is_done());
    assert!(matches!(a, SyncAction::Finish(Err(SyncError::IndexCommitError(ref m))) if m == "disk full"));
    let (s, a) = s.step(SyncEvent::Reloaded(Ok(())));
    assert!(s.is_done());
    assert!(matches!(a, SyncAction::Finish(Err(SyncError::OutOfOrder))));
}

#[test]
fn failed_checkpoint_write_then_retry_reapplies_the_same_batch() {
    let changes = || vec![added("a.md"), ChangeRecord::new(ChangeKind::Deleted, "old.md")];
    let contents = || vec![Some("alpha".to_string()), None];
    let (s, ops) = run_to_commit(Ok(Some(b"c1".to_vec())), "c2", Some("c1"), changes(), contents());
    let mut docs: Vec<Note> = Vec::new();
    docs.push(Note { path: "old.md".to_string(), body: Some("gone".to_string()) });
    docs.push(Note { path: "a.md".to_string(), body: Some("stale".to_string()) });
    apply_batch(&mut docs, ops);
    let (s, _) = s.step(SyncEvent::BatchCommitted(Ok(1)));
    let (s, _) = s.step(SyncEvent::Reloaded(Ok(())));
    let (s, a) = s.step(SyncEvent::CheckpointSaved(Err("read-only".to_string())));
    assert!(s.is_done());
    assert!(matches!(a, SyncAction::Finish(Err(SyncError::CheckpointIOError(_)))));

    // The stored checkpoint still names c1: the next call asks for the same delta.
    let (_, ops) = run_to_commit(Ok(Some(b"c1".to_vec())), "c2", Some("c1"), changes(), contents());
    apply_batch(&mut docs, ops);
    assert_eq!(docs.len(), 1);
    assert_eq!(docs[0].path, "a.md");
    assert_eq!(docs[0].body.as_deref(), Some("alpha"));
}

#[test]
fn missing_head_is_nothing_to_sync() {
    let s = start_call(Ok(None));
    let (s, a) = s.step(SyncEvent::HeadResolved(Err(SyncError::NoHeadRevision)));
    assert!(s.is_done());
    assert!(matches!(a, SyncAction::Finish(Ok(SyncOutcome::NothingToSync))));
}

#[test]
fn unresolvable_checkpoint_is_reported() {
    let s = start_call(Ok(Some(b"gone".to_vec())));
    let (s, a) = s.step(SyncEvent::HeadResolved(Ok("c2".to_string())));
    assert!(matches!(a, SyncAction::ComputeDiff { from: Some(ref f), .. } if f == "gone"));
    let (s, a) = s.step(SyncEvent::DiffComputed(Err(SyncError::UnresolvableRevision(
        "gone".to_string(),
    ))));
    assert!(s.is_done());
    assert!(matches!(a, SyncAction::Finish(Err(SyncError::UnresolvableRevision(ref r))) if r == "gone"));
}

#[test]
fn head_failure_is_reported() {
    let s = start_call(Ok(None));
    let (_, a) = s.step(SyncEvent::HeadResolved(Err(SyncError::RevisionSourceError(
        "corrupt".to_string(),
    ))));
    assert!(matches!(a, SyncAction::Finish(Err(SyncError::RevisionSourceError(_)))));
}

#[test]
fn rename_is_reported_before_any_read() {
    let s = start_call(Ok(None));
    let (s, _) = s.step(SyncEvent::HeadResolved(Ok("c1".to_string())));
    let changes = vec![
        added("a.md"),
        ChangeRecord::new(ChangeKind::Renamed, "moved.md"),
        ChangeRecord::new(ChangeKind::Renamed, "other.md"),
    ];
    let (s, a) = s.step(SyncEvent::DiffComputed(Ok(changes)));
    assert!(s.is_done());
    assert!(matches!(a, SyncAction::Finish(Err(SyncError::RenameNotSupported(ref p))) if p == "moved.md"));
}

#[test]
fn unreadable_content_aborts_the_batch() {
    let s = start_call(Ok(None));
    let (s, _) = s.step(SyncEvent::HeadResolved(Ok("c1".to_string())));
    let (s, _) = s.step(SyncEvent::DiffComputed(Ok(vec![added("a.md"), added("b.md")])));
    let (s, a) = s.step(SyncEvent::ContentRead(vec![Some("alpha".to_string()), None]));
    assert!(s.is_done());
    assert!(matches!(a, SyncAction::Finish(Err(SyncError::ContentReadError(ref p))) if p == "b.md"));
}

#[test]
fn reload_failure_is_reported() {
    let (s, _) = run_to_commit(Ok(None), "c1", None, vec![], vec![]);
    let (s, _) = s.step(SyncEvent::BatchCommitted(Ok(3)));
    let (s, a) = s.step(SyncEvent::Reloaded(Err("busy".to_string())));
    assert!(s.is_done());
    assert!(matches!(a, SyncAction::Finish(Err(SyncError::IndexReloadError(_)))));
}

#[test]
fn unreadable_or_corrupt_checkpoint_means_never_synced() {
    let s = start_call(Err("io".to_string()));
    let (_, a) = s.step(SyncEvent::HeadResolved(Ok("c1".to_string())));
    assert!(matches!(a, SyncAction::ComputeDiff { from: None, .. }));
    let s = start_call(Ok(Some(vec![0xff, 0xfe])));
    let (_, a) = s.step(SyncEvent::HeadResolved(Ok("c1".to_string())));
    assert!(matches!(a, SyncAction::ComputeDiff { from: None, .. }));
}

#[test]
fn event_out_of_order_ends_the_call() {
    let (s, a) = SyncState::new().step(SyncEvent::Reloaded(Ok(())));
    assert!(s.is_done());
    assert!(matches!(a, SyncAction::Finish(Err(SyncError::OutOfOrder))));
    let s = start_call(Ok(None));
    let (s, a) = s.step(SyncEvent::Start);
    assert!(s.is_done());
    assert!(matches!(a, SyncAction::Finish(Err(SyncError::OutOfOrder))));
}

#[test]
fn checkpoint_bytes_are_the_revision_in_utf8() {
    assert_eq!(encode_checkpoint(&"c1é".to_string()), "c1é".as_bytes().to_vec());
}

#[test]
fn it_works() {
    assert_eq!(2 + 2, 4);
}
