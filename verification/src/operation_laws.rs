//! What is said of operations on intents: what their states tell, what the stream proves of the
//! files they changed, how they end, and how they are settled where they did not.

use vstd::prelude::*;

use crate::batch_evidence::{
    applied_operations, batch_outcome, batch_snapshot, commits_within, effect_paths, ends_batch,
    has_evidence, is_file_evidence, latest_snapshot, named_snapshot, reconciles_within,
    settled_operation, settled_operations, starts_batch, tells_applied_mutation,
    tells_conflicted_mutation,
};
use crate::drop_execution::{
    applied_in, conflicted_events, drop_after, drop_next, drop_request_verdict, drop_start,
    run_is_sound, settled_execution, DropActionV1View, DropEventV1View, DropStageV1,
    IntentDropRunV1View, IntentDropStartV1View,
};
use crate::intent::{
    IntentEventV1View, IntentOperationErrorCode, IntentOperationPreviewV1View,
    IntentOperationResolution, IntentVersionRefView,
};
use crate::intent_drop::ResolvedDropView;
use crate::intent_impact::{lemma_pushed_members, lemma_selected_members};
use crate::intent_operation::{
    dropped_by, is_active_for, law_no_operation_is_lost, lemma_with_new_members, operations_of,
    ref_order, replay_of, was_resolved, IntentOperationAuthorityV1View,
    IntentOperationProjectionV1View, OperationReplayView,
};
use crate::intent_stack::IntentStackProjectionV1View;
use crate::intent_state::{
    BatchOutcomeView, IntentDropRequestV1View, IntentLayerProjectionV1View, IntentOperationStateV1,
    IntentOperationSummaryV1View, OperationRecord, OperationRecordView, PreparedOperationView,
    ResolvedOperationView,
};
use crate::operation_recovery::{
    cancellation, mutations_within, prepared_batches, recovery_after, recovery_of,
    OperationRecoveryV1View,
};
use crate::order::{lemma_ordered_items, text_order};
use crate::records::{
    MutationBatchStatus, MutationObservedState, MutationResolution, RecordBodyView,
    SessionStreamRecordView,
};
use crate::search::{any_where, first_where, lemma_first_where, selected};
use crate::value::{find_key, lemma_find_key, Keyed};

verus! {

// States.

/// A record of a stream tells that a file was prepared, committed or reconciled in a batch.
pub open spec fn touches_files(records: Seq<SessionStreamRecordView>, batch_id: Seq<char>) -> bool {
    exists|k: int|
        0 <= k < records.len() && match (#[trigger] records[k]).body {
            RecordBodyView::MutationPrepared(m) => m.batch_id == Some(batch_id),
            RecordBodyView::MutationCommitted(m) => m.batch_id == Some(batch_id),
            RecordBodyView::MutationReconciled(m) => m.batch_id == Some(batch_id),
            _ => false,
        }
}

proof fn lemma_touches_files(records: Seq<SessionStreamRecordView>, batch_id: Seq<char>)
    ensures
        has_evidence(records, batch_id) == touches_files(records, batch_id),
{
    let p = is_file_evidence(batch_id);
    assert forall|k: int| 0 <= k < records.len() implies p(#[trigger] records[k])
        == match records[k].body {
        RecordBodyView::MutationPrepared(m) => m.batch_id == Some(batch_id),
        RecordBodyView::MutationCommitted(m) => m.batch_id == Some(batch_id),
        RecordBodyView::MutationReconciled(m) => m.batch_id == Some(batch_id),
        _ => false,
    } by {}
    if any_where(records, p) {
        let k = choose|k: int| 0 <= k < records.len() && p(#[trigger] records[k]);
        assert(p(records[k]));
    }
}

/// What is shown of an operation is what is known of it: it has a state of its own for each way in
/// which it was resolved, and other states while it was not, by whether it was prepared and whether
/// a file of its batch was touched.
pub open spec fn is_shown_as_it_is(
    records: Seq<SessionStreamRecordView>,
    op: OperationRecordView,
    o: IntentOperationSummaryV1View,
) -> bool {
    let ended = |x: IntentOperationResolution|
        op.resolved matches Some(end) && end.resolution == x;
    &&& o.operation_id == op.preview.operation_id
    &&& o.operation_kind == op.preview.operation_kind
    &&& o.target_intents == op.preview.target_intents
    &&& o.state == IntentOperationStateV1::Committed <==> ended(IntentOperationResolution::Committed)
    &&& o.state == IntentOperationStateV1::Rejected <==> ended(IntentOperationResolution::Rejected)
    &&& o.state == IntentOperationStateV1::Cancelled <==> ended(IntentOperationResolution::Cancelled)
    &&& o.state == IntentOperationStateV1::Conflicted <==> ended(
        IntentOperationResolution::Conflicted,
    )
    &&& o.state == IntentOperationStateV1::PartiallyApplied <==> ended(
        IntentOperationResolution::PartiallyApplied,
    )
    &&& o.state == IntentOperationStateV1::Interrupted <==> ended(
        IntentOperationResolution::Interrupted,
    )
    &&& o.state == IntentOperationStateV1::Requested <==> op.resolved is None && op.prepared is None
    &&& o.state == IntentOperationStateV1::Applying <==> op.resolved is None && (op.prepared matches
        Some(p) && touches_files(records, p.mutation_batch_id))
    &&& o.state == IntentOperationStateV1::Prepared <==> op.resolved is None && (op.prepared matches
        Some(p) && !touches_files(records, p.mutation_batch_id))
    &&& op.resolved is None ==> o.result_snapshot_id is None && o.error_code is None
    &&& op.resolved matches Some(end) ==> o.result_snapshot_id == end.result_snapshot_id
        && o.error_code == end.error_code
    &&& o.mutation_batch_id is None <==> op.prepared is None && !(op.resolved matches Some(end)
        && end.mutation_batch_id is Some)
    &&& op.resolved matches Some(end) ==> (end.mutation_batch_id is Some ==> o.mutation_batch_id
        == end.mutation_batch_id)
    &&& op.prepared matches Some(p) ==> (!(op.resolved matches Some(end) && end.mutation_batch_id
        is Some) ==> o.mutation_batch_id == Some(p.mutation_batch_id))
}

/// The state of an operation tells how it was resolved, and that it was not where it was not; and
/// an intent is dropped exactly if an operation on it is shown as committed.
pub proof fn law_states_tell_resolutions(
    records: Seq<SessionStreamRecordView>,
    admission: IntentStackProjectionV1View,
    layers: IntentLayerProjectionV1View,
    s: OperationReplayView,
    p: IntentOperationProjectionV1View,
)
    requires
        replay_of(records, admission, layers) == Ok::<_, Seq<char>>(s),
        operations_of(records, admission, layers) == Ok::<_, Seq<char>>(p),
    ensures
        p.operations.len() == s.operations.len(),
        forall|i: int|
            0 <= i < s.operations.len() ==> is_shown_as_it_is(
                records,
                s.operations[i],
                #[trigger] p.operations[i],
            ),
        p.conflicts == s.conflicts,
        forall|x: IntentVersionRefView| #[trigger]
            p.dropped_intents.contains(x) <==> exists|i: int|
                0 <= i < p.operations.len() && (#[trigger] p.operations[i]).state
                    == IntentOperationStateV1::Committed && p.operations[i].target_intents.contains(x),
        forall|x: IntentVersionRefView| #[trigger]
            any_where(p.operations, is_active_for(x)) <==> exists|i: int|
                0 <= i < s.operations.len() && (#[trigger] s.operations[i]).resolved is None
                    && s.operations[i].preview.target_intents.contains(x),
{
    assert forall|i: int| 0 <= i < s.operations.len() implies is_shown_as_it_is(
        records,
        s.operations[i],
        #[trigger] p.operations[i],
    ) by {
        if let Some(x) = s.operations[i].prepared {
            lemma_touches_files(records, x.mutation_batch_id);
        }
    }
    assert forall|x: IntentVersionRefView| #[trigger] p.dropped_intents.contains(x) <==> exists|
        i: int,
    |
        0 <= i < p.operations.len() && (#[trigger] p.operations[i]).state
            == IntentOperationStateV1::Committed && p.operations[i].target_intents.contains(x) by {
        lemma_ordered_items(dropped_by(s.operations), ref_order());
        lemma_dropped(s.operations, x);
        assert(p.dropped_intents.contains(x) == dropped_by(s.operations).contains(x));
        if dropped_by(s.operations).contains(x) {
            let i = choose|i: int|
                0 <= i < s.operations.len() && is_committed_on(#[trigger] s.operations[i], x);
            assert(is_shown_as_it_is(records, s.operations[i], p.operations[i]));
        }
        if exists|i: int|
            0 <= i < p.operations.len() && (#[trigger] p.operations[i]).state
                == IntentOperationStateV1::Committed && p.operations[i].target_intents.contains(x) {
            let i = choose|i: int|
                0 <= i < p.operations.len() && (#[trigger] p.operations[i]).state
                    == IntentOperationStateV1::Committed && p.operations[i].target_intents.contains(x);
            assert(is_shown_as_it_is(records, s.operations[i], p.operations[i]));
            assert(is_committed_on(s.operations[i], x));
        }
    }
    assert forall|x: IntentVersionRefView| #[trigger]
        any_where(p.operations, is_active_for(x)) <==> exists|i: int|
            0 <= i < s.operations.len() && (#[trigger] s.operations[i]).resolved is None
                && s.operations[i].preview.target_intents.contains(x) by {
        let f = is_active_for(x);
        if any_where(p.operations, f) {
            let i = choose|i: int| 0 <= i < p.operations.len() && f(#[trigger] p.operations[i]);
            assert(is_shown_as_it_is(records, s.operations[i], p.operations[i]));
            assert(s.operations[i].resolved is None);
        }
        if exists|i: int|
            0 <= i < s.operations.len() && (#[trigger] s.operations[i]).resolved is None
                && s.operations[i].preview.target_intents.contains(x) {
            let i = choose|i: int|
                0 <= i < s.operations.len() && (#[trigger] s.operations[i]).resolved is None
                    && s.operations[i].preview.target_intents.contains(x);
            assert(is_shown_as_it_is(records, s.operations[i], p.operations[i]));
            assert(f(p.operations[i]));
        }
    }
}

spec fn is_committed_on(op: OperationRecordView, x: IntentVersionRefView) -> bool {
    op.preview.target_intents.contains(x) && (op.resolved matches Some(end) && end.resolution
        == IntentOperationResolution::Committed)
}

proof fn lemma_dropped(ops: Seq<OperationRecordView>, x: IntentVersionRefView)
    ensures
        dropped_by(ops).contains(x) == (exists|i: int|
            0 <= i < ops.len() && is_committed_on(#[trigger] ops[i], x)),
    decreases ops.len(),
{
    if ops.len() > 0 {
        let rest = ops.drop_last();
        let last = ops.last();
        let before = dropped_by(rest);
        lemma_dropped(rest, x);
        lemma_with_new_members(before, last.preview.target_intents, x);
        if exists|i: int| 0 <= i < rest.len() && is_committed_on(#[trigger] rest[i], x) {
            let i = choose|i: int| 0 <= i < rest.len() && is_committed_on(#[trigger] rest[i], x);
            assert(is_committed_on(ops[i], x));
        }
        if is_committed_on(last, x) {
            assert(ops[ops.len() - 1] == last);
        }
        if exists|i: int| 0 <= i < ops.len() && is_committed_on(#[trigger] ops[i], x) {
            let i = choose|i: int| 0 <= i < ops.len() && is_committed_on(#[trigger] ops[i], x);
            if i < rest.len() {
                assert(is_committed_on(rest[i], x));
            }
        }
    }
}

/// The state that a resolution is shown as: each as itself.
pub open spec fn is_state_of(state: IntentOperationStateV1, x: IntentOperationResolution) -> bool {
    match state {
        IntentOperationStateV1::Committed => x == IntentOperationResolution::Committed,
        IntentOperationStateV1::Rejected => x == IntentOperationResolution::Rejected,
        IntentOperationStateV1::Cancelled => x == IntentOperationResolution::Cancelled,
        IntentOperationStateV1::Conflicted => x == IntentOperationResolution::Conflicted,
        IntentOperationStateV1::PartiallyApplied => x
            == IntentOperationResolution::PartiallyApplied,
        IntentOperationStateV1::Interrupted => x == IntentOperationResolution::Interrupted,
        _ => false,
    }
}

/// How the stream says that an operation ended is how it is shown.
pub proof fn law_recorded_ends_are_shown(
    records: Seq<SessionStreamRecordView>,
    admission: IntentStackProjectionV1View,
    layers: IntentLayerProjectionV1View,
    p: IntentOperationProjectionV1View,
    k: int,
)
    requires
        operations_of(records, admission, layers) == Ok::<_, Seq<char>>(p),
        0 <= k < records.len(),
    ensures
        records[k].body matches RecordBodyView::Intent(
            IntentEventV1View::OperationResolved { operation_id, resolution, error_code, .. },
        ) ==> exists|i: int|
            0 <= i < p.operations.len() && (#[trigger] p.operations[i]).operation_id == operation_id
                && is_state_of(p.operations[i].state, resolution) && p.operations[i].error_code
                == error_code,
{
    let s = replay_of(records, admission, layers)->Ok_0;
    law_states_tell_resolutions(records, admission, layers, s, p);
    law_no_operation_is_lost(records, admission, layers, s, k);
    if let RecordBodyView::Intent(
        IntentEventV1View::OperationResolved {
            operation_id,
            resolution,
            mutation_batch_id,
            result_snapshot_id,
            error_code,
            ..
        },
    ) = records[k].body {
        let q = was_resolved(
            operation_id,
            ResolvedOperationView { resolution, mutation_batch_id, result_snapshot_id, error_code },
            records[k].stream_sequence,
        );
        let i = choose|i: int| 0 <= i < s.operations.len() && q(#[trigger] s.operations[i]);
        assert(is_shown_as_it_is(records, s.operations[i], p.operations[i]));
        assert(is_state_of(p.operations[i].state, resolution));
    }
}

// Batches.

/// A record tells that a mutation of a batch was applied: it was committed, or found as intended
/// and marked as committed.
pub open spec fn tells_applied(
    record: SessionStreamRecordView,
    batch_id: Seq<char>,
    operation_id: Seq<char>,
) -> bool {
    match record.body {
        RecordBodyView::MutationCommitted(m) => m.batch_id == Some(batch_id) && m.operation_id
            == operation_id,
        RecordBodyView::MutationReconciled(m) => m.batch_id == Some(batch_id) && m.operation_id
            == operation_id && m.observed_state == MutationObservedState::AppliedAsIntended
            && m.resolution == MutationResolution::MarkCommitted,
        _ => false,
    }
}

/// A record tells that a mutation of a batch is in conflict: something else was found, or what was
/// found is not known.
pub open spec fn tells_conflict(record: SessionStreamRecordView, batch_id: Seq<char>) -> bool {
    match record.body {
        RecordBodyView::MutationReconciled(m) => m.batch_id == Some(batch_id) && ((m.observed_state
            == MutationObservedState::AppliedDifferently && m.resolution
            == MutationResolution::MarkConflict) || (m.observed_state
            == MutationObservedState::Unknown && m.resolution
            == MutationResolution::MarkUnknownDirty)),
        _ => false,
    }
}

proof fn lemma_settled(records: Seq<SessionStreamRecordView>, id: Seq<char>)
    ensures
        settled_operations(records).contains(id) == (exists|k: int|
            0 <= k < records.len() && settled_operation(#[trigger] records[k]) == id),
{
    let all = settled_operations(records);
    if all.contains(id) {
        let k = choose|k: int| 0 <= k < all.len() && all[k] == id;
        assert(settled_operation(records[k]) == id);
    }
    if exists|k: int| 0 <= k < records.len() && settled_operation(#[trigger] records[k]) == id {
        let k = choose|k: int| 0 <= k < records.len() && settled_operation(#[trigger] records[k]) == id;
        assert(all[k] == id);
    }
}

proof fn lemma_applied(records: Seq<SessionStreamRecordView>, batch_id: Seq<char>, id: Seq<char>)
    ensures
        applied_operations(
            selected(records, commits_within(batch_id)),
            selected(records, reconciles_within(batch_id)),
        ).contains(id) == (exists|k: int|
            0 <= k < records.len() && tells_applied(#[trigger] records[k], batch_id, id)),
{
    let p = commits_within(batch_id);
    let q = reconciles_within(batch_id);
    let t = tells_applied_mutation();
    let commits = selected(records, p);
    let reconciles = selected(records, q);
    let good = selected(reconciles, t);
    let a = crate::intent_lineage::with_new(Seq::empty(), settled_operations(commits));
    let all = crate::intent_lineage::with_new(a, settled_operations(good));
    lemma_ordered_items(all, text_order());
    lemma_with_new_members(Seq::empty(), settled_operations(commits), id);
    lemma_with_new_members(a, settled_operations(good), id);
    lemma_settled(commits, id);
    lemma_settled(good, id);
    assert(applied_operations(commits, reconciles).contains(id) == all.contains(id));
    if settled_operations(commits).contains(id) {
        let k = choose|k: int| 0 <= k < commits.len() && settled_operation(#[trigger] commits[k]) == id;
        assert(commits.contains(commits[k]));
        lemma_selected_members(records, p, commits[k]);
        let j = choose|j: int| 0 <= j < records.len() && records[j] == commits[k];
        assert(tells_applied(records[j], batch_id, id));
    }
    if settled_operations(good).contains(id) {
        let k = choose|k: int| 0 <= k < good.len() && settled_operation(#[trigger] good[k]) == id;
        assert(good.contains(good[k]));
        lemma_selected_members(reconciles, t, good[k]);
        lemma_selected_members(records, q, good[k]);
        let j = choose|j: int| 0 <= j < records.len() && records[j] == good[k];
        assert(tells_applied(records[j], batch_id, id));
    }
    if exists|k: int| 0 <= k < records.len() && tells_applied(#[trigger] records[k], batch_id, id) {
        let k = choose|k: int|
            0 <= k < records.len() && tells_applied(#[trigger] records[k], batch_id, id);
        let r = records[k];
        assert(records.contains(r));
        if r.body is MutationCommitted {
            lemma_selected_members(records, p, r);
            let j = choose|j: int| 0 <= j < commits.len() && commits[j] == r;
            assert(settled_operation(commits[j]) == id);
        } else {
            lemma_selected_members(records, q, r);
            lemma_selected_members(reconciles, t, r);
            let j = choose|j: int| 0 <= j < good.len() && good[j] == r;
            assert(settled_operation(good[j]) == id);
        }
    }
}

proof fn lemma_conflicts(records: Seq<SessionStreamRecordView>, batch_id: Seq<char>)
    ensures
        any_where(selected(records, reconciles_within(batch_id)), tells_conflicted_mutation()) == (
        exists|k: int| 0 <= k < records.len() && tells_conflict(#[trigger] records[k], batch_id)),
{
    let q = reconciles_within(batch_id);
    let t = tells_conflicted_mutation();
    let reconciles = selected(records, q);
    if any_where(reconciles, t) {
        let k = choose|k: int| 0 <= k < reconciles.len() && t(#[trigger] reconciles[k]);
        assert(reconciles.contains(reconciles[k]));
        lemma_selected_members(records, q, reconciles[k]);
        let j = choose|j: int| 0 <= j < records.len() && records[j] == reconciles[k];
        assert(tells_conflict(records[j], batch_id));
    }
    if exists|k: int| 0 <= k < records.len() && tells_conflict(#[trigger] records[k], batch_id) {
        let k = choose|k: int|
            0 <= k < records.len() && tells_conflict(#[trigger] records[k], batch_id);
        assert(records.contains(records[k]));
        lemma_selected_members(records, q, records[k]);
        let j = choose|j: int| 0 <= j < reconciles.len() && reconciles[j] == records[k];
        assert(t(reconciles[j]));
    }
}

/// The snapshot that an outcome names.
pub open spec fn snapshot_in(o: BatchOutcomeView) -> Option<Seq<char>> {
    match o {
        BatchOutcomeView::Applied { result_snapshot_id, .. } => Some(result_snapshot_id),
        BatchOutcomeView::FullyAppliedUnfinished { result_snapshot_id, .. } => Some(
            result_snapshot_id,
        ),
        BatchOutcomeView::Partial { result_snapshot_id, .. } => result_snapshot_id,
        BatchOutcomeView::Conflicted { result_snapshot_id, .. } => result_snapshot_id,
        BatchOutcomeView::Interrupted { result_snapshot_id } => result_snapshot_id,
        BatchOutcomeView::NoBatch => None,
    }
}

/// What the stream proves of a batch that began is told as it is. The mutations that were applied
/// are told, and no others. The batch is in conflict exactly if one of its mutations is. Otherwise
/// it changed all of the files that the operation is to change, or some, or none; and all of them
/// only if there are as many mutations as files, with an end that says so or without an end.
pub proof fn law_batches_are_told_as_they_are(
    records: Seq<SessionStreamRecordView>,
    op: OperationRecordView,
    prepared: PreparedOperationView,
    o: BatchOutcomeView,
)
    requires
        batch_outcome(records, op, prepared) == Ok::<_, Seq<char>>(o),
    ensures
        ({
            let id = prepared.mutation_batch_id;
            let applied = applied_in(o);
            let files = effect_paths(op.preview.file_effects).len();
            let conflict = exists|k: int|
                0 <= k < records.len() && tells_conflict(#[trigger] records[k], id);
            &&& o is NoBatch <==> forall|k: int|
                0 <= k < records.len() ==> !((
                #[trigger] records[k]).body matches RecordBodyView::MutationBatchStarted(b)
                    && b.batch_id == id)
            &&& !(o is NoBatch) ==> {
                &&& forall|m: Seq<char>| #[trigger]
                    applied.contains(m) <==> exists|k: int|
                        0 <= k < records.len() && tells_applied(#[trigger] records[k], id, m)
                &&& o is Conflicted <==> conflict
                &&& o is Interrupted ==> applied.len() == 0
                &&& o is Partial ==> applied.len() > 0
                &&& o is Applied || o is FullyAppliedUnfinished ==> applied.len() == files
                &&& o is Applied ==> exists|k: int|
                    0 <= k < records.len() && ((
                    #[trigger] records[k]).body matches RecordBodyView::MutationBatchFinished(b)
                        && b.batch_id == id && b.status == MutationBatchStatus::Applied
                        && b.failed_operations.len() == 0)
                &&& o is FullyAppliedUnfinished ==> forall|k: int|
                    0 <= k < records.len() ==> !((
                    #[trigger] records[k]).body matches RecordBodyView::MutationBatchFinished(b)
                        && b.batch_id == id)
            }
        }),
{
    reveal(batch_outcome);
    let id = prepared.mutation_batch_id;
    let starts = starts_batch(id);
    let ends = ends_batch(id);
    lemma_first_where(records, starts);
    lemma_first_where(records, ends);
    let commits = selected(records, commits_within(id));
    let reconciles = selected(records, reconciles_within(id));
    let all = applied_operations(commits, reconciles);
    assert forall|k: int| 0 <= k < records.len() implies starts(#[trigger] records[k]) == (
    records[k].body matches RecordBodyView::MutationBatchStarted(b) && b.batch_id == id) by {}
    assert forall|k: int| 0 <= k < records.len() implies ends(#[trigger] records[k]) == (
    records[k].body matches RecordBodyView::MutationBatchFinished(b) && b.batch_id == id) by {}
    lemma_conflicts(records, id);
    if let Some(n) = first_where(records, starts) {
        assert(starts(records[n]));
        assert forall|m: Seq<char>| #[trigger] applied_in(o).contains(m) <==> exists|k: int|
            0 <= k < records.len() && tells_applied(#[trigger] records[k], id, m) by {
            lemma_applied(records, id, m);
            assert(applied_in(o).contains(m) == all.contains(m));
        }
        if let Some(e) = first_where(records, ends) {
            assert(ends(records[e]));
        }
    } else {
        assert forall|k: int| 0 <= k < records.len() implies !((
        #[trigger] records[k]).body matches RecordBodyView::MutationBatchStarted(b) && b.batch_id
            == id) by {
            assert(!starts(records[k]));
        }
    }
}

/// A record names a snapshot of the workspace after a mutation of a batch was applied.
pub open spec fn names_snapshot(
    record: SessionStreamRecordView,
    batch_id: Seq<char>,
    snapshot: Seq<char>,
) -> bool {
    match record.body {
        RecordBodyView::MutationCommitted(m) => m.batch_id == Some(batch_id)
            && m.workspace_snapshot_id == snapshot,
        RecordBodyView::MutationReconciled(m) => m.batch_id == Some(batch_id)
            && m.workspace_snapshot_id == Some(snapshot) && m.observed_state
            == MutationObservedState::AppliedAsIntended && m.resolution
            == MutationResolution::MarkCommitted,
        _ => false,
    }
}

proof fn lemma_latest_snapshot(
    records: Seq<SessionStreamRecordView>,
    found: Option<(u64, Seq<char>)>,
)
    ensures
        ({
            let last = latest_snapshot(records, found);
            &&& last is None <==> found is None && forall|k: int|
                0 <= k < records.len() ==> named_snapshot(#[trigger] records[k]) is None
            &&& last matches Some(s) ==> found == Some(s) || exists|k: int|
                0 <= k < records.len() && named_snapshot(#[trigger] records[k]) == Some(s.1)
                    && records[k].stream_sequence == s.0
            &&& last matches Some(s) ==> (found matches Some(f) ==> f.0 <= s.0)
            &&& last matches Some(s) ==> forall|k: int|
                0 <= k < records.len() && named_snapshot(#[trigger] records[k]) is Some
                    ==> records[k].stream_sequence <= s.0
        }),
    decreases records.len(),
{
    if records.len() > 0 {
        let rest = records.drop_last();
        lemma_latest_snapshot(rest, found);
        assert forall|k: int| 0 <= k < rest.len() implies rest[k] == #[trigger] records[k] by {}
        assert(records[records.len() - 1] == records.last());
    }
}

/// The snapshot that is told of a batch that began is the last that one of its applied mutations
/// names, and none exactly if none names one.
pub proof fn law_batches_name_their_last_snapshot(
    records: Seq<SessionStreamRecordView>,
    op: OperationRecordView,
    prepared: PreparedOperationView,
    o: BatchOutcomeView,
)
    requires
        batch_outcome(records, op, prepared) == Ok::<_, Seq<char>>(o),
        !(o is NoBatch),
    ensures
        ({
            let id = prepared.mutation_batch_id;
            match snapshot_in(o) {
                None => forall|k: int, s: Seq<char>|
                    0 <= k < records.len() ==> !#[trigger] names_snapshot(records[k], id, s),
                Some(s) => exists|k: int|
                    #![trigger records[k]]
                    0 <= k < records.len() && names_snapshot(records[k], id, s) && forall|
                        j: int,
                        x: Seq<char>,
                    |
                        0 <= j < records.len() && #[trigger] names_snapshot(records[j], id, x)
                            ==> records[j].stream_sequence <= records[k].stream_sequence,
            }
        }),
{
    reveal(batch_outcome);
    let id = prepared.mutation_batch_id;
    let p = commits_within(id);
    let q = reconciles_within(id);
    let commits = selected(records, p);
    let reconciles = selected(records, q);
    let first = latest_snapshot(commits, None);
    let last = latest_snapshot(reconciles, first);
    lemma_latest_snapshot(commits, None);
    lemma_latest_snapshot(reconciles, first);
    assert(snapshot_in(o) == batch_snapshot(commits, reconciles));
    assert forall|j: int, x: Seq<char>|
        0 <= j < records.len() && #[trigger] names_snapshot(records[j], id, x) implies (exists|k: int|
        0 <= k < commits.len() && #[trigger] commits[k] == records[j] && named_snapshot(commits[k])
            is Some) || (exists|k: int|
        0 <= k < reconciles.len() && #[trigger] reconciles[k] == records[j] && named_snapshot(
            reconciles[k],
        ) is Some) by {
        let r = records[j];
        assert(records.contains(r));
        lemma_selected_members(records, p, r);
        lemma_selected_members(records, q, r);
        if r.body is MutationCommitted {
            assert(p(r));
            let k = choose|k: int| 0 <= k < commits.len() && commits[k] == r;
            assert(commits[k] == records[j]);
        } else {
            assert(q(r));
            let k = choose|k: int| 0 <= k < reconciles.len() && reconciles[k] == r;
            assert(reconciles[k] == records[j]);
        }
    }
    if let Some(s) = last {
        if first == Some(s) {
            let k = choose|k: int|
                0 <= k < commits.len() && named_snapshot(#[trigger] commits[k]) == Some(s.1)
                    && commits[k].stream_sequence == s.0;
            assert(commits.contains(commits[k]));
            lemma_selected_members(records, p, commits[k]);
            let j = choose|j: int| 0 <= j < records.len() && records[j] == commits[k];
            assert(names_snapshot(records[j], id, s.1));
        } else {
            let k = choose|k: int|
                0 <= k < reconciles.len() && named_snapshot(#[trigger] reconciles[k]) == Some(s.1)
                    && reconciles[k].stream_sequence == s.0;
            assert(reconciles.contains(reconciles[k]));
            lemma_selected_members(records, q, reconciles[k]);
            let j = choose|j: int| 0 <= j < records.len() && records[j] == reconciles[k];
            assert(names_snapshot(records[j], id, s.1));
        }
    }
}

// Recovery.

/// How an operation that has no end is settled tells what was done. It is committed exactly if all
/// files were changed, interrupted exactly if none was or the batch never began, and else partially
/// applied; it has no error exactly if it is committed, and a partial application is told apart
/// from what must be reconciled. The batch gets an end exactly if it began and has none, which
/// tells the same.
pub proof fn law_recovered_operations_tell_what_was_done(
    records: Seq<SessionStreamRecordView>,
    op: OperationRecordView,
    p: PreparedOperationView,
    o: BatchOutcomeView,
)
    ensures
        ({
            let r = recovery_of(records, op, p, o);
            let all = o is Applied || o is FullyAppliedUnfinished;
            let none = o is NoBatch || o is Interrupted;
            &&& r.operation_id == op.preview.operation_id
            &&& r.resolved matches IntentEventV1View::OperationResolved {
                operation_id,
                resolution,
                mutation_batch_id,
                result_snapshot_id,
                error_code,
                ..
            }
            &&& operation_id == op.preview.operation_id
            &&& mutation_batch_id == Some(p.mutation_batch_id)
            &&& result_snapshot_id == snapshot_in(o)
            &&& resolution == IntentOperationResolution::Committed <==> all
            &&& resolution == IntentOperationResolution::Interrupted <==> none
            &&& resolution == IntentOperationResolution::PartiallyApplied <==> !all && !none
            &&& error_code is None <==> all
            &&& error_code == Some(IntentOperationErrorCode::PartialApplication) <==> o is Partial
            &&& error_code == Some(IntentOperationErrorCode::ReconciliationRequired) <==> none
                || o is Conflicted
            &&& r.batch_end is Some <==> (exists|k: int|
                0 <= k < records.len() && ((
                #[trigger] records[k]).body matches RecordBodyView::MutationBatchStarted(b)
                    && b.batch_id == p.mutation_batch_id)) && !exists|k: int|
                0 <= k < records.len() && ((
                #[trigger] records[k]).body matches RecordBodyView::MutationBatchFinished(b)
                    && b.batch_id == p.mutation_batch_id)
            &&& r.batch_end matches Some(b) ==> {
                &&& b.batch_id == p.mutation_batch_id
                &&& b.status == MutationBatchStatus::Applied <==> all
                &&& b.status == MutationBatchStatus::Failed <==> none
                &&& b.status == MutationBatchStatus::PartiallyApplied <==> !all && !none
                &&& b.committed_operations == applied_in(o)
                &&& b.failed_operations.len() == 0
                &&& b.prepared_digest == Some(p.preview_digest)
                &&& b.approval_identity == Some(p.approval_authority_id)
                &&& b.policy_fingerprint == Some(p.permission_policy_digest)
            }
        }),
{
    let starts = starts_batch(p.mutation_batch_id);
    let ends = ends_batch(p.mutation_batch_id);
    lemma_first_where(records, starts);
    lemma_first_where(records, ends);
    assert forall|k: int| 0 <= k < records.len() implies starts(#[trigger] records[k]) == (
    records[k].body matches RecordBodyView::MutationBatchStarted(b) && b.batch_id
        == p.mutation_batch_id) by {}
    assert forall|k: int| 0 <= k < records.len() implies ends(#[trigger] records[k]) == (
    records[k].body matches RecordBodyView::MutationBatchFinished(b) && b.batch_id
        == p.mutation_batch_id) by {}
    if let Some(k) = first_where(records, starts) {
        assert(starts(records[k]));
    }
    if let Some(k) = first_where(records, ends) {
        assert(ends(records[k]));
    }
}

/// Operations are settled exactly if they were prepared and have no end.
pub proof fn law_all_interrupted_operations_are_settled(
    records: Seq<SessionStreamRecordView>,
    ops: Seq<OperationRecordView>,
    n: int,
    x: OperationRecoveryV1View,
)
    requires
        0 <= n <= ops.len(),
        recovery_after(records, ops, n).failure is None,
    ensures
        recovery_after(records, ops, n).steps.contains(x) <==> exists|i: int|
            0 <= i < n && (#[trigger] ops[i]).resolved is None && (ops[i].prepared matches Some(p)
                && (batch_outcome(records, ops[i], p) matches Ok(o) && x == recovery_of(
                records,
                ops[i],
                p,
                o,
            ))),
    decreases n,
{
    if n > 0 {
        law_all_interrupted_operations_are_settled(records, ops, n - 1, x);
        let before = recovery_after(records, ops, n - 1);
        let op = ops[n - 1];
        if op.resolved is None {
            if let Some(p) = op.prepared {
                if let Ok(o) = batch_outcome(records, op, p) {
                    lemma_pushed_members(before.steps, recovery_of(records, op, p, o), x);
                }
            }
        }
    }
}

/// An operation is cancelled exactly if it is known, has no end, and no file of its batch was
/// touched; it is left as it is exactly if it has its end; and what cancels it says that it is
/// cancelled, with its batch where it has one, and nothing else.
pub proof fn law_cancellations_are_exact(
    records: Seq<SessionStreamRecordView>,
    s: OperationReplayView,
    operation_id: Seq<char>,
    k: int,
)
    requires
        0 <= k < s.operations.len(),
        s.operations[k].preview.operation_id == operation_id,
        forall|i: int, j: int|
            0 <= i < j < s.operations.len() ==> (#[trigger] s.operations[i]).preview.operation_id != (
            #[trigger] s.operations[j]).preview.operation_id,
    ensures
        ({
            let op = s.operations[k];
            let touched = op.prepared matches Some(p) && touches_files(records, p.mutation_batch_id);
            let r = cancellation(records, s, operation_id);
            &&& r is Err <==> op.resolved is None && touched
            &&& r == Ok::<Option<IntentEventV1View>, Seq<char>>(None) <==> op.resolved is Some
            &&& op.resolved is None && !touched ==> (r matches Ok(Some(e)) && (e matches
                IntentEventV1View::OperationResolved {
                operation_id: id,
                resolution,
                mutation_batch_id,
                result_snapshot_id,
                error_code,
                ..
            } && id == operation_id && resolution == IntentOperationResolution::Cancelled
                && result_snapshot_id is None && error_code is None && (mutation_batch_id is None
                <==> op.prepared is None) && (op.prepared matches Some(p) ==> mutation_batch_id
                == Some(p.mutation_batch_id))))
        }),
{
    lemma_find_key::<OperationRecord>(s.operations, operation_id);
    let found = find_key::<OperationRecord>(s.operations, operation_id);
    assert(OperationRecord::key(s.operations[k]) == operation_id);
    assert(found is Some);
    let m = found->0;
    if m != k {
        assert(s.operations[m].preview.operation_id == operation_id);
        if m < k {
            assert(s.operations[m].preview.operation_id != s.operations[k].preview.operation_id);
        } else {
            assert(s.operations[k].preview.operation_id != s.operations[m].preview.operation_id);
        }
    }
    if let Some(p) = s.operations[k].prepared {
        lemma_touches_files(records, p.mutation_batch_id);
    }
}

/// An operation that is not known cannot be cancelled.
pub proof fn law_unknown_operations_are_not_cancelled(
    records: Seq<SessionStreamRecordView>,
    s: OperationReplayView,
    operation_id: Seq<char>,
)
    requires
        forall|i: int|
            0 <= i < s.operations.len() ==> (#[trigger] s.operations[i]).preview.operation_id
                != operation_id,
    ensures
        cancellation(records, s, operation_id) is Err,
{
    lemma_find_key::<OperationRecord>(s.operations, operation_id);
    if let Some(k) = find_key::<OperationRecord>(s.operations, operation_id) {
        assert(s.operations[k].preview.operation_id != operation_id);
    }
}

// Mutations that belong to operations.

proof fn lemma_prepared_batches(records: Seq<SessionStreamRecordView>, id: Seq<char>)
    ensures
        prepared_batches(records).contains(id) == is_prepared_batch(records, id),
    decreases records.len(),
{
    if records.len() > 0 {
        let rest = records.drop_last();
        lemma_prepared_batches(rest, id);
        let before = prepared_batches(rest);
        if let RecordBodyView::Intent(
            IntentEventV1View::OperationPrepared { mutation_batch_id, .. },
        ) = records.last().body {
            lemma_pushed_members(before, mutation_batch_id, id);
        }
        if is_prepared_batch(rest, id) {
            let k = choose|k: int|
                0 <= k < rest.len() && ((
                #[trigger] rest[k]).body matches RecordBodyView::Intent(
                    IntentEventV1View::OperationPrepared { mutation_batch_id, .. },
                ) && mutation_batch_id == id);
            assert(records[k] == rest[k]);
        }
        if is_prepared_batch(records, id) {
            let k = choose|k: int|
                0 <= k < records.len() && ((
                #[trigger] records[k]).body matches RecordBodyView::Intent(
                    IntentEventV1View::OperationPrepared { mutation_batch_id, .. },
                ) && mutation_batch_id == id);
            if k < rest.len() {
                assert(rest[k] == records[k]);
            }
        }
        assert(records[records.len() - 1] == records.last());
    }
}

/// An operation of a stream was prepared for a batch.
pub open spec fn is_prepared_batch(records: Seq<SessionStreamRecordView>, id: Seq<char>) -> bool {
    exists|k: int|
        0 <= k < records.len() && ((#[trigger] records[k]).body matches RecordBodyView::Intent(
            IntentEventV1View::OperationPrepared { mutation_batch_id, .. },
        ) && mutation_batch_id == id)
}

/// The mutations that belong to operations on intents are those that were prepared in a batch that
/// an operation was prepared for, and no others.
pub proof fn law_mutations_of_operations_are_exact(
    records: Seq<SessionStreamRecordView>,
    id: Seq<char>,
)
    ensures
        mutations_within(records, prepared_batches(records)).contains(id) == (exists|k: int|
            0 <= k < records.len() && ((
            #[trigger] records[k]).body matches RecordBodyView::MutationPrepared(m) && m.operation_id
                == id && (m.batch_id matches Some(b) && is_prepared_batch(records, b)))),
{
    let batches = prepared_batches(records);
    assert forall|b: Seq<char>| #[trigger] batches.contains(b) == is_prepared_batch(records, b) by {
        lemma_prepared_batches(records, b);
    }
    lemma_mutations_within(records, batches, id);
    if exists|k: int| 0 <= k < records.len() && is_mutation_in(#[trigger] records[k], batches, id) {
        let k = choose|k: int| 0 <= k < records.len() && is_mutation_in(#[trigger] records[k], batches, id);
        assert(is_mutation_in(records[k], batches, id));
        let b = records[k].body->MutationPrepared_0.batch_id->0;
        assert(batches.contains(b));
    }
    if exists|k: int|
        0 <= k < records.len() && ((
        #[trigger] records[k]).body matches RecordBodyView::MutationPrepared(m) && m.operation_id
            == id && (m.batch_id matches Some(b) && is_prepared_batch(records, b))) {
        let k = choose|k: int|
            0 <= k < records.len() && ((
            #[trigger] records[k]).body matches RecordBodyView::MutationPrepared(m) && m.operation_id
                == id && (m.batch_id matches Some(b) && is_prepared_batch(records, b)));
        let b = records[k].body->MutationPrepared_0.batch_id->0;
        assert(batches.contains(b));
        assert(is_mutation_in(records[k], batches, id));
    }
}

spec fn is_mutation_in(
    record: SessionStreamRecordView,
    batches: Seq<Seq<char>>,
    id: Seq<char>,
) -> bool {
    record.body matches RecordBodyView::MutationPrepared(m) && m.operation_id == id && (
    m.batch_id matches Some(b) && batches.contains(b))
}

proof fn lemma_mutations_within(
    records: Seq<SessionStreamRecordView>,
    batches: Seq<Seq<char>>,
    id: Seq<char>,
)
    ensures
        mutations_within(records, batches).contains(id) == (exists|k: int|
            0 <= k < records.len() && is_mutation_in(#[trigger] records[k], batches, id)),
    decreases records.len(),
{
    if records.len() > 0 {
        let rest = records.drop_last();
        lemma_mutations_within(rest, batches, id);
        let before = mutations_within(rest, batches);
        if let RecordBodyView::MutationPrepared(m) = records.last().body {
            lemma_pushed_members(before, m.operation_id, id);
        }
        if exists|k: int| 0 <= k < rest.len() && is_mutation_in(#[trigger] rest[k], batches, id) {
            let k = choose|k: int| 0 <= k < rest.len() && is_mutation_in(#[trigger] rest[k], batches, id);
            assert(records[k] == rest[k]);
        }
        if exists|k: int| 0 <= k < records.len() && is_mutation_in(#[trigger] records[k], batches, id) {
            let k = choose|k: int|
                0 <= k < records.len() && is_mutation_in(#[trigger] records[k], batches, id);
            if k < rest.len() {
                assert(rest[k] == records[k]);
            }
        }
        assert(records[records.len() - 1] == records.last());
    }
}

// The run of a drop.

/// A drop begins exactly if nothing stands in its way and its authority has not run out. Where
/// something stands in its way it ends as conflicted, whatever the authority; where the authority
/// alone has run out it ends as rejected, for want of permission. Either way nothing is done.
pub proof fn law_drops_begin_under_authority(
    batch_id: Seq<char>,
    resolved: ResolvedDropView,
    authority: IntentOperationAuthorityV1View,
    now_ms: u64,
    safe_reason: Seq<char>,
)
    ensures
        ({
            let start = drop_start(batch_id, resolved, authority, now_ms, safe_reason);
            let expired = authority.expires_at_ms matches Some(end) && end < now_ms;
            let blocked = resolved.preview.conflicts.len() > 0;
            &&& start is Apply <==> !blocked && !expired
            &&& start is Refused <==> blocked || expired
            &&& start matches IntentDropStartV1View::Refused { execution, events, requested, .. } ==> {
                &&& requested == (IntentEventV1View::OperationRequested {
                    schema_version: 1,
                    preview: resolved.preview,
                    safe_reason,
                })
                &&& execution.preview == resolved.preview
                &&& execution.resolution == IntentOperationResolution::Conflicted <==> blocked
                &&& execution.resolution == IntentOperationResolution::Rejected <==> !blocked
                &&& execution.error_code == Some(
                    if blocked {
                        IntentOperationErrorCode::IntentStateConflict
                    } else {
                        IntentOperationErrorCode::PermissionDenied
                    },
                )
                &&& execution.mutation_batch_id is None
                &&& execution.committed_operation_ids.len() == 0
                &&& execution.result_snapshot_id is None
                &&& events.len() > 0
                &&& events.last() matches IntentEventV1View::OperationResolved {
                    operation_id,
                    resolution,
                    mutation_batch_id,
                    result_snapshot_id,
                    error_code,
                    ..
                }
                &&& operation_id == resolved.preview.operation_id
                &&& resolution == execution.resolution
                &&& error_code == execution.error_code
                &&& mutation_batch_id is None
                &&& result_snapshot_id is None
                &&& blocked ==> events.len() == resolved.preview.conflicts.len() + 1 && forall|i: int|
                    0 <= i < resolved.preview.conflicts.len() ==> (#[trigger] events[i] matches
                    IntentEventV1View::ConflictRecorded { conflict, .. } && conflict
                        == resolved.preview.conflicts[i])
                &&& !blocked ==> events.len() == 1
            }
            &&& start matches IntentDropStartV1View::Apply { run, prepared, batch_start, requested, .. }
                ==> {
                &&& requested == (IntentEventV1View::OperationRequested {
                    schema_version: 1,
                    preview: resolved.preview,
                    safe_reason,
                })
                &&& run.preview == resolved.preview
                &&& run.files == resolved.files
                &&& run.batch_id == batch_id
                &&& run.prepared.len() == 0 && run.committed.len() == 0 && run.failed.len() == 0
                &&& run.result_snapshot_id is None
                &&& batch_start.batch_id == batch_id
                &&& batch_start.operation_id == resolved.preview.operation_id
                &&& batch_start.approval_identity == Some(authority.approval_authority_id)
                &&& batch_start.policy_fingerprint == Some(authority.permission_policy_digest)
                &&& batch_start.prepared_digest == Some(resolved.preview.preview_digest)
                &&& batch_start.expected_subjects.len() == resolved.files.len()
                &&& prepared matches IntentEventV1View::OperationPrepared {
                    operation_id,
                    mutation_batch_id,
                    approval_authority_id,
                    permission_policy_digest,
                    preview_digest,
                    ..
                }
                &&& operation_id == resolved.preview.operation_id
                &&& mutation_batch_id == batch_id
                &&& approval_authority_id == authority.approval_authority_id
                &&& permission_policy_digest == authority.permission_policy_digest
                &&& preview_digest == resolved.preview.preview_digest
            }
        }),
{
    assert(conflicted_events(resolved.preview).len() == resolved.preview.conflicts.len() + 1);
}

/// A request is answered only if it asks for what is previewed now: for the same operation, under
/// the same version of the stack, with the same digest.
pub proof fn law_stale_requests_are_refused(
    request: IntentDropRequestV1View,
    preview: IntentOperationPreviewV1View,
)
    ensures
        drop_request_verdict(request, preview) is Ok <==> request.operation_id
            == preview.operation_id && request.stack_version == preview.stack_version
            && request.preview_digest == preview.preview_digest,
{
}

/// A drop that ended before is reported as the stream tells it: with its own end, and with the
/// mutations that were applied.
pub proof fn law_settled_drops_are_reported(
    records: Seq<SessionStreamRecordView>,
    op: OperationRecordView,
    end: ResolvedOperationView,
)
    ensures
        settled_execution(records, op, end) matches Ok(x) ==> {
            &&& x.preview == op.preview
            &&& x.resolution == end.resolution
            &&& x.mutation_batch_id == end.mutation_batch_id
            &&& x.result_snapshot_id == end.result_snapshot_id
            &&& x.error_code == end.error_code
            &&& op.prepared is None ==> x.committed_operation_ids.len() == 0
            &&& op.prepared matches Some(p) ==> (batch_outcome(records, op, p) matches Ok(o)
                && x.committed_operation_ids == applied_in(o))
        },
        settled_execution(records, op, end) is Err <==> (op.prepared matches Some(p)
            && batch_outcome(records, op, p) is Err),
{
}

/// What is to be done next is to be done to the first file that it was not done to yet: files are
/// prepared one after the other until all are, and then committed one after the other.
pub proof fn law_files_come_one_after_the_other(p: IntentDropRunV1View)
    requires
        run_is_sound(p),
        p.files.len() <= usize::MAX,
    ensures
        match drop_next(p) {
            Ok(DropActionV1View::PrepareFile(i)) => i == p.prepared.len() && i < p.files.len()
                && p.committed.len() == 0,
            Ok(DropActionV1View::CommitFile(i)) => i == p.committed.len() && i < p.files.len()
                && p.prepared.len() == p.files.len(),
            Ok(DropActionV1View::ReconcileFile(i)) => i == p.committed.len() && i < p.files.len()
                && p.prepared.len() == p.files.len(),
            _ => true,
        },
{
}

/// How a drop ends tells what was done. Committed with all files, no error and the snapshot after
/// the last; partially applied where some were committed and one failed; interrupted where none
/// was. The end of the batch, the event and the report tell the same.
pub proof fn law_ends_of_drops_tell_what_was_done(p: IntentDropRunV1View)
    requires
        run_is_sound(p),
    ensures
        drop_next(p) matches Ok(DropActionV1View::Finish(end)) ==> {
            let x = end.execution;
            let applied = p.stage == DropStageV1::Applied;
            &&& applied || p.stage == DropStageV1::Failed
            &&& x.preview == p.preview
            &&& x.mutation_batch_id == Some(p.batch_id)
            &&& x.committed_operation_ids == p.committed
            &&& x.result_snapshot_id == p.result_snapshot_id
            &&& x.resolution == IntentOperationResolution::Committed <==> applied
            &&& x.resolution == IntentOperationResolution::PartiallyApplied <==> !applied
                && p.committed.len() > 0
            &&& x.resolution == IntentOperationResolution::Interrupted <==> !applied
                && p.committed.len() == 0
            &&& x.error_code is None <==> applied
            &&& x.error_code == Some(IntentOperationErrorCode::PartialApplication) <==> !applied
                && p.committed.len() > 0
            &&& x.error_code == Some(IntentOperationErrorCode::ReconciliationRequired) <==> !applied
                && p.committed.len() == 0
            &&& end.batch_end.batch_id == p.batch_id
            &&& end.batch_end.committed_operations == p.committed
            &&& end.batch_end.failed_operations == p.failed
            &&& end.batch_end.status == MutationBatchStatus::Applied <==> applied
            &&& end.batch_end.status == MutationBatchStatus::PartiallyApplied <==> !applied
                && p.committed.len() > 0
            &&& end.batch_end.status == MutationBatchStatus::Failed <==> !applied
                && p.committed.len() == 0
            &&& end.batch_end.approval_identity == Some(p.approval_authority_id)
            &&& end.batch_end.policy_fingerprint == Some(p.permission_policy_digest)
            &&& end.batch_end.prepared_digest == Some(p.preview.preview_digest)
            &&& end.resolved matches IntentEventV1View::OperationResolved {
                operation_id,
                resolution,
                mutation_batch_id,
                result_snapshot_id,
                error_code,
                ..
            }
            &&& operation_id == p.preview.operation_id
            &&& resolution == x.resolution
            &&& mutation_batch_id == x.mutation_batch_id
            &&& result_snapshot_id == x.result_snapshot_id
            &&& error_code == x.error_code
        },
{
}

/// What comes of a step is kept: a file that was prepared or committed is added to those that were,
/// a failure stops the drop once it is known what became of the file, and nothing that was done is
/// taken back. What a drop is about does not change.
pub proof fn law_steps_are_kept(p: IntentDropRunV1View, e: DropEventV1View)
    requires
        run_is_sound(p),
    ensures
        ({
            let q = drop_after(p, e);
            &&& q.preview == p.preview && q.files == p.files && q.batch_id == p.batch_id
            &&& q.permission_policy_digest == p.permission_policy_digest
            &&& q.approval_authority_id == p.approval_authority_id
            &&& p.prepared.is_prefix_of(q.prepared) && p.committed.is_prefix_of(q.committed)
            &&& p.stage == DropStageV1::Failed || p.stage == DropStageV1::Applied ==> q == p
            &&& p.stage == DropStageV1::Preparing ==> match e {
                DropEventV1View::Prepared { operation_id } => q.prepared == p.prepared.push(
                    operation_id,
                ) && (q.stage == DropStageV1::Committing <==> q.prepared.len() == p.files.len())
                    && (q.stage == DropStageV1::Preparing <==> q.prepared.len() < p.files.len()),
                DropEventV1View::PrepareFailed => q.stage == DropStageV1::Failed && q.failed
                    == p.prepared && q.committed.len() == 0,
                _ => q == p,
            }
            &&& p.stage == DropStageV1::Committing ==> match e {
                DropEventV1View::Committed { operation_id, workspace_snapshot_id } => q.committed
                    == p.committed.push(operation_id) && q.result_snapshot_id == Some(
                    workspace_snapshot_id,
                ) && (q.stage == DropStageV1::Applied <==> q.committed.len() == p.files.len()) && (
                q.stage == DropStageV1::Committing <==> q.committed.len() < p.files.len()),
                DropEventV1View::CommitFailed => q.stage == DropStageV1::Reconciling && q.committed
                    == p.committed,
                _ => q == p,
            }
            &&& p.stage == DropStageV1::Reconciling ==> match e {
                DropEventV1View::Reconciled { resolution, workspace_snapshot_id } => {
                    let own = p.prepared[p.committed.len() as int];
                    &&& q.stage == DropStageV1::Failed
                    &&& q.failed == seq![own]
                    &&& resolution == MutationResolution::MarkCommitted ==> q.committed
                        == p.committed.push(own) && q.result_snapshot_id == workspace_snapshot_id
                    &&& resolution != MutationResolution::MarkCommitted ==> q.committed == p.committed
                        && q.result_snapshot_id == p.result_snapshot_id
                },
                _ => q == p,
            }
        }),
{
}

} // verus!
