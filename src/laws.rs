use vstd::prelude::*;
use vstd::utf8::*;

use crate::change::{ChangeKind, ChangeRecord};
use crate::checkpoint::lemma_checkpoint_round_trip;
use crate::index::{
    apply_ops, docs_at, keys_unique, last_op_at, lemma_apply_ops_unique, lemma_docs_at_apply_ops,
    IndexOperation, Note,
};
use crate::sync::{
    batch_for, op_for, opt_view, step_spec, stored_revision, SyncAction, SyncEvent, SyncState,
};

verus! {

/// `states`, `events` and `actions` are consecutive steps of one sync call.
pub open spec fn is_run(
    states: Seq<SyncState>,
    events: Seq<SyncEvent>,
    actions: Seq<SyncAction>,
) -> bool {
    &&& states.len() == events.len() + 1
    &&& actions.len() == events.len()
    &&& forall|i: int|
        #![trigger events[i]]
        0 <= i < events.len() ==> step_spec(states[i], events[i], states[i + 1], actions[i])
}

/// How far a call has come; steps never go back.
pub open spec fn phase(s: SyncState) -> nat {
    match s {
        SyncState::Idle => 0,
        SyncState::LoadingCheckpoint => 1,
        SyncState::ResolvingHead { .. } => 2,
        SyncState::ComputingDiff { .. } => 3,
        SyncState::ReadingContent { .. } => 4,
        SyncState::ApplyingBatch { .. } => 5,
        SyncState::Reloading { .. } => 6,
        SyncState::SavingCheckpoint { .. } => 7,
        SyncState::Done => 8,
    }
}

pub proof fn lemma_step_phase(s: SyncState, e: SyncEvent, s2: SyncState, a: SyncAction)
    requires
        step_spec(s, e, s2, a),
    ensures
        phase(s) <= phase(s2),
        a is SaveCheckpoint ==> s is Reloading,
        s is Done ==> s2 is Done && a is Finish,
{
}

pub proof fn lemma_run_phase(
    states: Seq<SyncState>,
    events: Seq<SyncEvent>,
    actions: Seq<SyncAction>,
    j: int,
    k: int,
)
    requires
        is_run(states, events, actions),
        0 <= j <= k < states.len(),
    ensures
        phase(states[j]) <= phase(states[k]),
    decreases k - j,
{
    if j < k {
        assert(step_spec(states[k - 1], events[k - 1], states[k], actions[k - 1]));
        lemma_step_phase(states[k - 1], events[k - 1], states[k], actions[k - 1]);
        lemma_run_phase(states, events, actions, j, k - 1);
    }
}

/// If the commit of a call's batch fails, the call never writes the
/// checkpoint: the stored checkpoint after the call is the one before it.
pub proof fn law_failed_commit_keeps_checkpoint(
    states: Seq<SyncState>,
    events: Seq<SyncEvent>,
    actions: Seq<SyncAction>,
    i: int,
)
    requires
        is_run(states, events, actions),
        0 <= i < events.len(),
        states[i] is ApplyingBatch,
        events[i] matches SyncEvent::BatchCommitted(Err(_)),
    ensures
        forall|k: int| 0 <= k < actions.len() ==> !(#[trigger] actions[k] is SaveCheckpoint),
{
    assert(step_spec(states[i], events[i], states[i + 1], actions[i]));
    assert forall|k: int| 0 <= k < actions.len() implies !(#[trigger] actions[k] is SaveCheckpoint) by {
        assert(step_spec(states[k], events[k], states[k + 1], actions[k]));
        lemma_step_phase(states[k], events[k], states[k + 1], actions[k]);
        if k < i {
            lemma_run_phase(states, events, actions, k, i);
        } else if k > i {
            lemma_run_phase(states, events, actions, i + 1, k);
        }
    }
}

/// A call writes the checkpoint only right after its batch was durably
/// committed and then made visible: never before the commit, never without it.
pub proof fn law_checkpoint_written_after_commit(
    states: Seq<SyncState>,
    events: Seq<SyncEvent>,
    actions: Seq<SyncAction>,
    k: int,
)
    requires
        is_run(states, events, actions),
        states[0] is Idle,
        0 <= k < actions.len(),
        actions[k] is SaveCheckpoint,
    ensures
        k >= 2,
        states[k - 1] is ApplyingBatch,
        events[k - 1] matches SyncEvent::BatchCommitted(Ok(_)),
        states[k] is Reloading,
        events[k] matches SyncEvent::Reloaded(Ok(_)),
{
    assert(step_spec(states[k], events[k], states[k + 1], actions[k]));
    lemma_step_phase(states[k], events[k], states[k + 1], actions[k]);
    let j = k - 1;
    assert(step_spec(states[j], events[j], states[j + 1], actions[j]));
}

/// Two calls that find the same stored checkpoint and the same head ask for
/// the same diff: a call retried after a failed checkpoint write recomputes
/// the delta that was already applied.
pub proof fn law_same_checkpoint_same_delta(
    states1: Seq<SyncState>,
    events1: Seq<SyncEvent>,
    actions1: Seq<SyncAction>,
    states2: Seq<SyncState>,
    events2: Seq<SyncEvent>,
    actions2: Seq<SyncAction>,
)
    requires
        is_run(states1, events1, actions1),
        is_run(states2, events2, actions2),
        events1.len() >= 3,
        events2.len() >= 3,
        states1[0] is Idle,
        states2[0] is Idle,
        events1[0] is Start,
        events2[0] is Start,
        events1[1] matches SyncEvent::CheckpointLoaded(r1) && events2[1] matches SyncEvent::CheckpointLoaded(r2)
            && stored_revision(r1) == stored_revision(r2),
        events1[2] matches SyncEvent::HeadResolved(Ok(h1)) && events2[2] matches SyncEvent::HeadResolved(Ok(h2))
            && h1@ == h2@,
    ensures
        actions1[2] matches SyncAction::ComputeDiff { from: f1, to: t1 } && actions2[2] matches SyncAction::ComputeDiff {
            from: f2,
            to: t2,
        } && opt_view(f1) == opt_view(f2) && t1@ == t2@,
{
    assert(step_spec(states1[0], events1[0], states1[1], actions1[0]));
    assert(step_spec(states1[1], events1[1], states1[2], actions1[1]));
    assert(step_spec(states1[2], events1[2], states1[3], actions1[2]));
    assert(step_spec(states2[0], events2[0], states2[1], actions2[0]));
    assert(step_spec(states2[1], events2[1], states2[2], actions2[1]));
    assert(step_spec(states2[2], events2[2], states2[3], actions2[2]));
}

/// A call that finds the checkpoint that an earlier successful call stored for
/// head `h`, the head still at `h`, and no change between `h` and itself, asks
/// for the diff of `h` against `h`, commits an empty batch and stores the same
/// checkpoint bytes again.
pub proof fn law_unchanged_corpus_is_noop(
    states: Seq<SyncState>,
    events: Seq<SyncEvent>,
    actions: Seq<SyncAction>,
    h: Seq<char>,
)
    requires
        is_run(states, events, actions),
        events.len() >= 7,
        states[0] is Idle,
        events[0] is Start,
        events[1] matches SyncEvent::CheckpointLoaded(Ok(Some(b))) && b@ == encode_utf8(h),
        events[2] matches SyncEvent::HeadResolved(Ok(t)) && t@ == h,
        events[3] matches SyncEvent::DiffComputed(Ok(c)) && c@.len() == 0,
        events[4] matches SyncEvent::ContentRead(v) && v@.len() == 0,
        events[5] matches SyncEvent::BatchCommitted(Ok(_)),
        events[6] matches SyncEvent::Reloaded(Ok(_)),
    ensures
        actions[2] matches SyncAction::ComputeDiff { from, to } && from is Some && from.unwrap()@
            == h && to@ == h,
        actions[4] matches SyncAction::CommitBatch(ops) && ops@.len() == 0,
        actions[6] matches SyncAction::SaveCheckpoint(saved) && events[1] matches SyncEvent::CheckpointLoaded(
            Ok(Some(b)),
        ) && saved@ == b@,
{
    lemma_checkpoint_round_trip(h);
    assert(step_spec(states[0], events[0], states[1], actions[0]));
    assert(step_spec(states[1], events[1], states[2], actions[1]));
    assert(step_spec(states[2], events[2], states[3], actions[2]));
    assert(step_spec(states[3], events[3], states[4], actions[3]));
    assert(step_spec(states[4], events[4], states[5], actions[4]));
    assert(step_spec(states[5], events[5], states[6], actions[5]));
    assert(step_spec(states[6], events[6], states[7], actions[6]));
}

/// Every operation of a batch is keyed by the path of its change.
pub proof fn lemma_batch_keys(
    changes: Seq<ChangeRecord>,
    contents: Seq<Option<String>>,
    ops: Seq<IndexOperation>,
)
    requires
        batch_for(changes, contents, ops),
    ensures
        forall|k: int| 0 <= k < ops.len() ==> (#[trigger] ops[k]).key() == changes[k].path@,
{
    assert forall|k: int| 0 <= k < ops.len() implies (#[trigger] ops[k]).key() == changes[k].path@ by {
        assert(op_for(changes[k], contents[k], ops[k]));
    }
}

/// The last operation on `p` is the one at `j` when none after it is on `p`.
pub proof fn lemma_last_op_at(ops: Seq<IndexOperation>, p: Seq<char>, j: int)
    requires
        0 <= j < ops.len(),
        ops[j].key() == p,
        forall|k: int| j < k < ops.len() ==> (#[trigger] ops[k]).key() != p,
    ensures
        last_op_at(ops, p) == Some(ops[j]),
    decreases ops.len(),
{
    if j < ops.len() - 1 {
        let init = ops.drop_last();
        assert(ops.last() == ops[ops.len() - 1]);
        assert forall|k: int| j < k < init.len() implies (#[trigger] init[k]).key() != p by {
            assert(init[k] == ops[k]);
        }
        lemma_last_op_at(init, p, j);
    }
}

/// A path with no document in `docs_at` has no live document at all.
pub proof fn lemma_docs_at_empty(docs: Seq<Note>, p: Seq<char>)
    requires
        docs_at(docs, p).len() == 0,
    ensures
        forall|i: int| 0 <= i < docs.len() ==> (#[trigger] docs[i]).path@ != p,
    decreases docs.len(),
{
    if docs.len() > 0 {
        let init = docs.drop_last();
        lemma_docs_at_empty(init, p);
        assert forall|i: int| 0 <= i < docs.len() implies (#[trigger] docs[i]).path@ != p by {
            if i < init.len() {
                assert(docs[i] == init[i]);
            }
        }
    }
}

/// After a batch that adds path `p` and a later batch that modifies it (its last
/// change of `p`), exactly one live document has key `p`.
pub proof fn law_upsert_unique(
    docs: Seq<Note>,
    changes1: Seq<ChangeRecord>,
    contents1: Seq<Option<String>>,
    ops1: Seq<IndexOperation>,
    changes2: Seq<ChangeRecord>,
    contents2: Seq<Option<String>>,
    ops2: Seq<IndexOperation>,
    p: Seq<char>,
    i: int,
    j: int,
)
    requires
        batch_for(changes1, contents1, ops1),
        batch_for(changes2, contents2, ops2),
        0 <= i < changes1.len(),
        changes1[i].kind == ChangeKind::Added,
        changes1[i].path@ == p,
        0 <= j < changes2.len(),
        changes2[j].kind == ChangeKind::Modified,
        changes2[j].path@ == p,
        forall|k: int| j < k < changes2.len() ==> (#[trigger] changes2[k]).path@ != p,
    ensures
        docs_at(apply_ops(apply_ops(docs, ops1), ops2), p).len() == 1,
{
    lemma_batch_keys(changes2, contents2, ops2);
    assert(op_for(changes2[j], contents2[j], ops2[j]));
    assert forall|k: int| j < k < ops2.len() implies (#[trigger] ops2[k]).key() != p by {
        assert(changes2[k].path@ != p);
    }
    lemma_last_op_at(ops2, p, j);
    lemma_docs_at_apply_ops(apply_ops(docs, ops1), ops2, p);
}

/// After a batch whose last change of `p` deletes it, no live document has key
/// `p`, so no query answer drawn from the live documents holds `p`.
pub proof fn law_delete_complete(
    docs: Seq<Note>,
    changes: Seq<ChangeRecord>,
    contents: Seq<Option<String>>,
    ops: Seq<IndexOperation>,
    p: Seq<char>,
    j: int,
    answer: Seq<Note>,
)
    requires
        batch_for(changes, contents, ops),
        0 <= j < changes.len(),
        changes[j].kind == ChangeKind::Deleted,
        changes[j].path@ == p,
        forall|k: int| j < k < changes.len() ==> (#[trigger] changes[k]).path@ != p,
        forall|x: Note| answer.contains(x) ==> apply_ops(docs, ops).contains(x),
    ensures
        docs_at(apply_ops(docs, ops), p).len() == 0,
        forall|k: int| 0 <= k < answer.len() ==> (#[trigger] answer[k]).path@ != p,
{
    lemma_batch_keys(changes, contents, ops);
    assert(op_for(changes[j], contents[j], ops[j]));
    assert forall|k: int| j < k < ops.len() implies (#[trigger] ops[k]).key() != p by {
        assert(changes[k].path@ != p);
    }
    lemma_last_op_at(ops, p, j);
    let live = apply_ops(docs, ops);
    lemma_docs_at_apply_ops(docs, ops, p);
    lemma_docs_at_empty(live, p);
    assert forall|k: int| 0 <= k < answer.len() implies (#[trigger] answer[k]).path@ != p by {
        assert(answer.contains(answer[k]));
        let m = choose|m: int| 0 <= m < live.len() && live[m] == answer[k];
        assert(live[m].path@ != p);
    }
}

/// Applying a committed batch again, as the call after a failed checkpoint
/// write does, leaves the same documents under every path and keeps paths
/// unique.
pub proof fn law_reapply_idempotent(docs: Seq<Note>, ops: Seq<IndexOperation>, p: Seq<char>)
    ensures
        docs_at(apply_ops(apply_ops(docs, ops), ops), p) == docs_at(apply_ops(docs, ops), p),
        keys_unique(docs) ==> keys_unique(apply_ops(apply_ops(docs, ops), ops)),
{
    lemma_docs_at_apply_ops(docs, ops, p);
    lemma_docs_at_apply_ops(apply_ops(docs, ops), ops, p);
    if keys_unique(docs) {
        lemma_apply_ops_unique(docs, ops);
        lemma_apply_ops_unique(apply_ops(docs, ops), ops);
    }
}

} // verus!
