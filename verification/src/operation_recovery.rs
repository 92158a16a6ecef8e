//! What becomes of operations that did not run to their end: cancellation, recovery, and what other
//! parts of the kernel must leave alone meanwhile.

use vstd::prelude::*;

use crate::batch_evidence::{
    batch_end, batch_outcome, ends_batch, find_batch_end, find_batch_outcome, find_batch_start,
    has_evidence, has_file_evidence, starts_batch,
};
use crate::drop_execution::{applied_in, make_resolved_event, resolved_event};
use crate::intent::{
    IntentEventV1, IntentEventV1View, IntentOperationErrorCode, IntentOperationFileSummaryV1,
    IntentOperationId, IntentOperationResolution, IntentVersionRef, IntentVersionRefView,
};
use crate::intent_event_contract::{event_payload_verdict, event_verdict};
use crate::intent_layer::{artifact_path, artifact_path_of, layers_of};
use crate::intent_lineage::{lineage_of, IntentLineageProjectionV1};
use crate::intent_operation::{
    after_result, is_file_hunk, operation_order, operation_projection_of, operations_after,
    paths_in_effects, public_projection, replay_of, replay_operations, terminal_verdict,
    OperationReplay, OperationReplayView,
};
use crate::intent_stack::{
    after_record, latest_accepted, no_task_plan_message, stack_of, IntentStackProjectionV1,
    IntentStackProjectionV1View,
};
use crate::intent_state::{
    BatchOutcome, BatchOutcomeView, EffectiveIntentArtifactV1, EffectiveIntentArtifactV1View,
    IntentLayerProjectionV1, IntentLayerProjectionV1View, IntentLayerStateV1,
    IntentLayerStateV1View, OperationRecord,
    OperationRecordView, PreparedOperation, PreparedOperationView,
};
use crate::operation_replay::{
    law_accepted_operation_events_are_read_back, law_operation_events_change_no_layer,
    lemma_operations_stay,
};
use crate::order::{items_in_order, lemma_ordered_items};
use crate::records::{
    MutationBatchFinished, MutationBatchFinishedView, MutationBatchStatus, RecordBodyView, Session,
    SessionStreamRecord, SessionStreamRecordView, SessionView, TaskStateProjection,
    TaskStateProjectionView,
};
use crate::search::first_where;
use crate::stream::{intent_event_in, intent_event_of, prepared_in, prepared_of};
use crate::text::{ascending_of, ascending_texts, lemma_ascending_of, same_text};
use crate::value::{
    find_key, holds, lemma_all_pass, lemma_find_key, lemma_find_key_is, lemma_push_view, outcome,
    position_by_key, KernelError, Keyed, Value,
};

verus! {

/// How an interrupted operation is settled: the end of its batch where that is missing, and its
/// result.
#[derive(Debug, Clone, PartialEq, Eq)]
pub struct OperationRecoveryV1 {
    pub operation_id: IntentOperationId,
    pub batch_end: Option<MutationBatchFinished>,
    pub resolved: IntentEventV1,
}

/// What a [`OperationRecoveryV1`] holds.
#[verifier::ext_equal]
pub struct OperationRecoveryV1View {
    pub operation_id: Seq<char>,
    pub batch_end: Option<MutationBatchFinishedView>,
    pub resolved: IntentEventV1View,
}

impl DeepView for OperationRecoveryV1 {
    type V = OperationRecoveryV1View;

    open spec fn deep_view(&self) -> OperationRecoveryV1View {
        OperationRecoveryV1View {
            operation_id: self.operation_id.deep_view(),
            batch_end: self.batch_end.deep_view(),
            resolved: self.resolved.deep_view(),
        }
    }
}

impl Value for OperationRecoveryV1 {
    fn same(&self, other: &Self) -> (r: bool) {
        self.operation_id.same(&other.operation_id)
            && self.batch_end.same(&other.batch_end)
            && self.resolved.same(&other.resolved)
    }

    fn duplicate(&self) -> (r: Self) {
        OperationRecoveryV1 {
            operation_id: self.operation_id.duplicate(),
            batch_end: self.batch_end.duplicate(),
            resolved: self.resolved.duplicate(),
        }
    }
}

/// How interrupted operations are settled, and the failure that stopped the recovery, where there
/// is one.
#[derive(Debug, Clone, PartialEq, Eq)]
pub struct IntentRecoveryV1 {
    pub steps: Vec<OperationRecoveryV1>,
    pub failure: Option<String>,
}

/// What a [`IntentRecoveryV1`] holds.
#[verifier::ext_equal]
pub struct IntentRecoveryV1View {
    pub steps: Seq<OperationRecoveryV1View>,
    pub failure: Option<Seq<char>>,
}

impl DeepView for IntentRecoveryV1 {
    type V = IntentRecoveryV1View;

    open spec fn deep_view(&self) -> IntentRecoveryV1View {
        IntentRecoveryV1View {
            steps: self.steps.deep_view(),
            failure: self.failure.deep_view(),
        }
    }
}

impl Value for IntentRecoveryV1 {
    fn same(&self, other: &Self) -> (r: bool) {
        self.steps.same(&other.steps)
            && self.failure.same(&other.failure)
    }

    fn duplicate(&self) -> (r: Self) {
        IntentRecoveryV1 {
            steps: self.steps.duplicate(),
            failure: self.failure.duplicate(),
        }
    }
}

/// The replay of a stream with its own layers, whatever of their artifacts can be read.
pub open spec fn bare_replay(records: Seq<SessionStreamRecordView>, tasks: TaskStateProjectionView) -> Result<
    OperationReplayView,
    Seq<char>,
> {
    match stack_of(records) {
        Err(m) => Err(m),
        Ok(admission) => match lineage_of(records, admission, tasks) {
            Err(m) => Err(m),
            Ok(lineage) => match layers_of(records, admission, lineage) {
                Err(m) => Err(m),
                Ok(layers) => replay_of(records, admission, layers),
            },
        },
    }
}

fn replay_bare(records: &Vec<SessionStreamRecord>, tasks: &TaskStateProjection) -> (r: Result<
    OperationReplay,
    KernelError,
>)
    ensures
        outcome(r) == bare_replay(records.deep_view(), tasks.deep_view()),
{
    let admission = IntentStackProjectionV1::from_records(records)?;
    let lineage = IntentLineageProjectionV1::from_records(records, &admission, tasks)?;
    let layers = IntentLayerProjectionV1::from_records(records, &admission, &lineage)?;
    replay_operations(records, &admission, &layers)
}

// Cancellation.

/// The event that cancels an operation, or none where it has its result already.
pub open spec fn cancellation(
    records: Seq<SessionStreamRecordView>,
    s: OperationReplayView,
    operation_id: Seq<char>,
) -> Result<Option<IntentEventV1View>, Seq<char>> {
    match find_key::<OperationRecord>(s.operations, operation_id) {
        None => Err("cannot cancel an unknown Intent operation"@),
        Some(k) => {
            let op = s.operations[k];
            let batch = match op.prepared {
                Some(p) => Some(p.mutation_batch_id),
                None => None,
            };
            if op.resolved is Some {
                Ok(None)
            } else if batch matches Some(id) && has_evidence(records, id) {
                Err("cannot cancel an Intent operation after file preparation began"@)
            } else {
                Ok(
                    Some(
                        resolved_event(
                            operation_id,
                            IntentOperationResolution::Cancelled,
                            batch,
                            None,
                            None,
                        ),
                    ),
                )
            }
        },
    }
}

/// The event that cancels an operation of a session.
pub open spec fn session_cancellation(session: SessionView, operation_id: Seq<char>) -> Result<
    Option<IntentEventV1View>,
    Seq<char>,
> {
    match session.durable_records {
        None => Err("Intent operation cancellation requires a durable session"@),
        Some(records) => match bare_replay(records, session.tasks) {
            Err(m) => Err(m),
            Ok(s) => cancellation(records, s, operation_id),
        },
    }
}

/// The session with a further record at the end of its stream.
pub open spec fn with_record(session: SessionView, r: SessionStreamRecordView) -> SessionView {
    SessionView { durable_records: Some(session.durable_records->0.push(r)), ..session }
}

/// The record holds the event, and comes later than all that the stream of the session holds.
pub open spec fn is_appended(
    session: SessionView,
    e: IntentEventV1View,
    r: SessionStreamRecordView,
) -> bool {
    &&& r.body == RecordBodyView::Intent(e)
    &&& forall|i: int|
        0 <= i < session.durable_records->0.len() ==> (
        #[trigger] session.durable_records->0[i]).stream_sequence < r.stream_sequence
}

/// In the stream of the session an acceptance waits for its task plan.
pub open spec fn awaits_task_plan(session: SessionView) -> bool {
    stack_of(session.durable_records->0) matches Ok(
        admission,
    ) && admission.pending_task_acceptance is Some
}

proof fn lemma_cursor_is_last(records: Seq<SessionStreamRecordView>)
    ensures
        stack_of(records) matches Ok(p) ==> forall|i: int|
            0 <= i < records.len() ==> p.cursor is Some && (
            #[trigger] records[i]).stream_sequence <= p.cursor->0.stream_sequence,
    decreases records.len(),
{
    if records.len() > 0 {
        let rest = records.drop_last();
        lemma_cursor_is_last(rest);
        if let Ok(p) = stack_of(records) {
            let before = stack_of(rest)->Ok_0;
            assert(after_record(before, records.last()) == Ok::<_, Seq<char>>(p));
            assert forall|i: int| 0 <= i < records.len() implies p.cursor is Some && (
            #[trigger] records[i]).stream_sequence <= p.cursor->0.stream_sequence by {
                if i < rest.len() {
                    assert(rest[i] == records[i]);
                }
            }
        }
    }
}

proof fn lemma_cursor_is_read(records: Seq<SessionStreamRecordView>)
    ensures
        stack_of(records) matches Ok(p) ==> (p.cursor matches Some(c) ==> exists|i: int|
            0 <= i < records.len() && (#[trigger] records[i]).stream_sequence
                == c.stream_sequence),
    decreases records.len(),
{
    if records.len() > 0 {
        let rest = records.drop_last();
        lemma_cursor_is_read(rest);
        if let Ok(p) = stack_of(records) {
            let before = stack_of(rest)->Ok_0;
            assert(after_record(before, records.last()) == Ok::<_, Seq<char>>(p));
            if p.cursor == before.cursor {
                if let Some(c) = p.cursor {
                    let i = choose|i: int|
                        0 <= i < rest.len() && (#[trigger] rest[i]).stream_sequence
                            == c.stream_sequence;
                    assert(records[i].stream_sequence == c.stream_sequence);
                }
            } else {
                assert(records[records.len() - 1] == records.last());
            }
        }
    }
}

/// Operations have different identities, and each was requested in a record of the stream.
spec fn are_known(records: Seq<SessionStreamRecordView>, ops: Seq<OperationRecordView>) -> bool {
    &&& forall|i: int, j: int|
        0 <= i < j < ops.len() ==> (#[trigger] ops[i]).preview.operation_id != (
        #[trigger] ops[j]).preview.operation_id
    &&& forall|i: int|
        0 <= i < ops.len() ==> exists|j: int|
            0 <= j < records.len() && (#[trigger] records[j]).stream_sequence == (
            #[trigger] ops[i]).requested_sequence
}

proof fn lemma_operations_are_known(
    records: Seq<SessionStreamRecordView>,
    admission: IntentStackProjectionV1View,
    layers: IntentLayerProjectionV1View,
    n: int,
)
    requires
        0 <= n <= records.len(),
    ensures
        operations_after(records, admission, layers, n) matches Ok(s) ==> are_known(
            records,
            s.operations,
        ),
    decreases n,
{
    if n > 0 {
        lemma_operations_are_known(records, admission, layers, n - 1);
        if let Ok(t) = operations_after(records, admission, layers, n) {
            let s = operations_after(records, admission, layers, n - 1)->Ok_0;
            let key = match intent_event_in(records[n - 1]) {
                Some(IntentEventV1View::OperationRequested { preview, .. }) => preview.operation_id,
                Some(IntentEventV1View::OperationPrepared { operation_id, .. }) => operation_id,
                Some(IntentEventV1View::OperationResolved { operation_id, .. }) => operation_id,
                _ => Seq::empty(),
            };
            lemma_find_key::<OperationRecord>(s.operations, key);
            assert forall|i: int| 0 <= i < t.operations.len() implies exists|j: int|
                0 <= j < records.len() && (#[trigger] records[j]).stream_sequence == (
                #[trigger] t.operations[i]).requested_sequence by {
                if i < s.operations.len() {
                    assert(t.operations[i].requested_sequence
                        == s.operations[i].requested_sequence);
                } else {
                    assert(records[n - 1].stream_sequence == t.operations[i].requested_sequence);
                }
            }
            assert forall|i: int, j: int| 0 <= i < j < t.operations.len() implies (
            #[trigger] t.operations[i]).preview.operation_id != (
            #[trigger] t.operations[j]).preview.operation_id by {
                assert(t.operations[i].preview == s.operations[i].preview);
                if j < s.operations.len() {
                    assert(t.operations[j].preview == s.operations[j].preview);
                } else {
                    assert(OperationRecord::key(s.operations[i]) != key);
                }
            }
        }
    }
}

#[verifier::rlimit(40)]
proof fn lemma_cancelled_again(
    session: SessionView,
    operation_id: Seq<char>,
    e: IntentEventV1View,
    r: SessionStreamRecordView,
)
    requires
        session_cancellation(session, operation_id) == Ok::<_, Seq<char>>(Some(e)),
        is_appended(session, e, r),
        !awaits_task_plan(session),
    ensures
        session_cancellation(with_record(session, r), operation_id) == Ok::<
            Option<IntentEventV1View>,
            Seq<char>,
        >(None),
{
    let records = session.durable_records->0;
    let all = records.push(r);
    let n = records.len() as int;
    let admission = stack_of(records)->Ok_0;
    lemma_cursor_is_read(records);
    let lineage = lineage_of(records, admission, session.tasks)->Ok_0;
    let layers = layers_of(records, admission, lineage)->Ok_0;
    let s = replay_of(records, admission, layers)->Ok_0;
    lemma_find_key::<OperationRecord>(s.operations, operation_id);
    let k = find_key::<OperationRecord>(s.operations, operation_id)->0;
    let op = s.operations[k];
    let before = operations_after(records, admission, layers, n)->Ok_0;
    lemma_operations_are_known(records, admission, layers, n);
    lemma_ordered_items(before.operations, operation_order());
    assert(s.operations.contains(op));
    assert(before.operations.contains(op));
    let at = choose|at: int| 0 <= at < before.operations.len() && before.operations[at] == op;
    assert forall|j: int| 0 <= j < at implies OperationRecord::key(
        #[trigger] before.operations[j],
    ) != operation_id by {
        assert(before.operations[j].preview.operation_id
            != before.operations[at].preview.operation_id);
    }
    lemma_find_key_is::<OperationRecord>(before.operations, operation_id, at);
    lemma_cursor_is_last(records);
    let j = choose|j: int|
        0 <= j < records.len() && (#[trigger] records[j]).stream_sequence
            == before.operations[at].requested_sequence;
    assert(records[j].stream_sequence < r.stream_sequence);
    let t = after_result(before, r.stream_sequence, e)->Ok_0;
    assert(after_result(before, r.stream_sequence, e) is Ok);
    lemma_operations_stay(records, r, admission, admission, layers, n);
    assert(all[n] == r);
    assert(operations_after(all, admission, layers, n + 1) == Ok::<_, Seq<char>>(t));
    let old_checks = s.operations.map_values(terminal_verdict(records));
    lemma_all_pass(old_checks);
    assert forall|i: int| 0 <= i < t.operations.len() implies terminal_verdict(records)(
        #[trigger] t.operations[i],
    ) is Ok by {
        if i != at {
            assert(t.operations[i] == before.operations[i]);
            assert(before.operations.contains(before.operations[i]));
            assert(s.operations.contains(before.operations[i]));
            let m = choose|m: int|
                0 <= m < s.operations.len() && s.operations[m] == before.operations[i];
            assert(old_checks[m] == terminal_verdict(records)(s.operations[m]));
            assert(old_checks[m] is Ok);
        }
    }
    assert(event_verdict(e) is Ok) by {
        reveal(event_payload_verdict);
    }
    let accepted = latest_accepted(admission)->0;
    law_operation_events_change_no_layer(
        records,
        r,
        admission,
        session.tasks,
        accepted,
        lineage,
        layers,
        e,
    );
    law_accepted_operation_events_are_read_back(records, r, admission, layers, e, t);
    let ops = items_in_order(t.operations, operation_order());
    lemma_ordered_items(t.operations, operation_order());
    lemma_find_key::<OperationRecord>(ops, operation_id);
    assert(t.operations.contains(t.operations[at]));
    assert(ops.contains(t.operations[at]));
    let m = choose|m: int| 0 <= m < ops.len() && ops[m] == t.operations[at];
    assert(OperationRecord::key(ops[m]) == operation_id);
    let found = find_key::<OperationRecord>(ops, operation_id)->0;
    assert(ops.contains(ops[found]));
    assert(t.operations.contains(ops[found]));
    let x = choose|x: int| 0 <= x < t.operations.len() && t.operations[x] == ops[found];
    if x != at {
        assert(t.operations[x] == before.operations[x]);
        if x < at {
            assert(before.operations[x].preview.operation_id
                != before.operations[at].preview.operation_id);
        } else {
            assert(before.operations[at].preview.operation_id
                != before.operations[x].preview.operation_id);
        }
    }
}

/// A cancellation is final: once its event stands in the stream as a later record, cancelling the operation
/// again appends nothing. Only a stream in which an acceptance still waits for its task plan takes no such
/// record.
pub proof fn law_cancelling_again_appends_nothing(
    session: SessionView,
    operation_id: Seq<char>,
    e: IntentEventV1View,
    r: SessionStreamRecordView,
)
    requires
        session_cancellation(session, operation_id) == Ok::<_, Seq<char>>(Some(e)),
        is_appended(session, e, r),
    ensures
        session_cancellation(with_record(session, r), operation_id) == (if awaits_task_plan(session) {
            Err::<Option<IntentEventV1View>, Seq<char>>(no_task_plan_message())
        } else {
            Ok(None)
        }),
{
    if awaits_task_plan(session) {
        let records = session.durable_records->0;
        let all = records.push(r);
        lemma_cursor_is_read(records);
        assert(all.drop_last() =~= records);
        assert(all.last() == r);
        assert(after_record(stack_of(records)->Ok_0, r) is Err);
    } else {
        lemma_cancelled_again(session, operation_id, e, r);
    }
}

/// Cancels an operation, but only while no file of it was prepared: gives the event that is to be
/// appended, or none where the operation has its result already.
pub fn cancel_intent_operation(session: &Session, operation_id: &IntentOperationId) -> (r: Result<
    Option<IntentEventV1>,
    KernelError,
>)
    ensures
        outcome(r) == session_cancellation(session.deep_view(), operation_id.deep_view()),
        outcome(r) matches Ok(Some(e)) ==> forall|next: SessionStreamRecordView| #[trigger]
            is_appended(session.deep_view(), e, next) && !awaits_task_plan(session.deep_view())
                ==> session_cancellation(
                with_record(session.deep_view(), next),
                operation_id.deep_view(),
            ) == Ok::<Option<IntentEventV1View>, Seq<char>>(None),
{
    proof {
        let v = session.deep_view();
        let id = operation_id.deep_view();
        if let Ok(Some(e)) = session_cancellation(v, id) {
            assert forall|next: SessionStreamRecordView| #[trigger]
                is_appended(v, e, next) && !awaits_task_plan(v) implies session_cancellation(
                with_record(v, next),
                id,
            ) == Ok::<Option<IntentEventV1View>, Seq<char>>(None) by {
                law_cancelling_again_appends_nothing(v, id, e, next);
            }
        }
    }
    let records = match &session.durable_records {
        None => {
            return Err(
                KernelError::new("Intent operation cancellation requires a durable session"),
            );
        },
        Some(records) => records,
    };
    let s = replay_bare(records, &session.tasks)?;
    let k = match position_by_key(&s.operations, operation_id.as_str()) {
        None => {
            return Err(KernelError::new("cannot cancel an unknown Intent operation"));
        },
        Some(k) => k,
    };
    assert(s.operations.deep_view()[k as int] == s.operations@[k as int].deep_view());
    let op = &s.operations[k];
    if op.resolved.is_some() {
        return Ok(None);
    }
    let batch = match &op.prepared {
        Some(p) => {
            if has_file_evidence(records, p.mutation_batch_id.as_str()) {
                return Err(
                    KernelError::new(
                        "cannot cancel an Intent operation after file preparation began",
                    ),
                );
            }
            Some(p.mutation_batch_id.duplicate())
        },
        None => None,
    };
    Ok(
        Some(
            make_resolved_event(
                operation_id,
                IntentOperationResolution::Cancelled,
                batch,
                None,
                None,
            ),
        ),
    )
}

// Recovery.

/// The result of an operation whose batch came to an outcome.
pub open spec fn recovered_resolution(o: BatchOutcomeView) -> IntentOperationResolution {
    match o {
        BatchOutcomeView::Applied { .. } => IntentOperationResolution::Committed,
        BatchOutcomeView::FullyAppliedUnfinished { .. } => IntentOperationResolution::Committed,
        BatchOutcomeView::Partial { .. } => IntentOperationResolution::PartiallyApplied,
        BatchOutcomeView::Conflicted { .. } => IntentOperationResolution::PartiallyApplied,
        BatchOutcomeView::Interrupted { .. } => IntentOperationResolution::Interrupted,
        BatchOutcomeView::NoBatch => IntentOperationResolution::Interrupted,
    }
}

/// The error of an operation whose batch came to an outcome.
pub open spec fn recovered_error(o: BatchOutcomeView) -> Option<IntentOperationErrorCode> {
    match o {
        BatchOutcomeView::Applied { .. } => None,
        BatchOutcomeView::FullyAppliedUnfinished { .. } => None,
        BatchOutcomeView::Partial { .. } => Some(IntentOperationErrorCode::PartialApplication),
        _ => Some(IntentOperationErrorCode::ReconciliationRequired),
    }
}

/// The status of the batch itself.
pub open spec fn recovered_status(o: BatchOutcomeView) -> MutationBatchStatus {
    match o {
        BatchOutcomeView::Applied { .. } => MutationBatchStatus::Applied,
        BatchOutcomeView::FullyAppliedUnfinished { .. } => MutationBatchStatus::Applied,
        BatchOutcomeView::Partial { .. } => MutationBatchStatus::PartiallyApplied,
        BatchOutcomeView::Conflicted { .. } => MutationBatchStatus::PartiallyApplied,
        BatchOutcomeView::Interrupted { .. } => MutationBatchStatus::Failed,
        BatchOutcomeView::NoBatch => MutationBatchStatus::Failed,
    }
}

/// The snapshot after a batch.
pub open spec fn recovered_snapshot(o: BatchOutcomeView) -> Option<Seq<char>> {
    match o {
        BatchOutcomeView::Applied { result_snapshot_id, .. } => Some(result_snapshot_id),
        BatchOutcomeView::FullyAppliedUnfinished { result_snapshot_id, .. } => Some(
            result_snapshot_id,
        ),
        BatchOutcomeView::Partial { result_snapshot_id, .. } => result_snapshot_id,
        BatchOutcomeView::Conflicted { result_snapshot_id, .. } => result_snapshot_id,
        BatchOutcomeView::Interrupted { result_snapshot_id } => result_snapshot_id,
        BatchOutcomeView::NoBatch => None,
    }
}

/// The end of the batch of a recovered operation; none where the batch never began or has ended.
pub open spec fn recovered_batch_end(
    records: Seq<SessionStreamRecordView>,
    p: PreparedOperationView,
    o: BatchOutcomeView,
) -> Option<MutationBatchFinishedView> {
    if first_where(records, ends_batch(p.mutation_batch_id)) is None && first_where(
        records,
        starts_batch(p.mutation_batch_id),
    ) is Some {
        Some(
            MutationBatchFinishedView {
                batch_id: p.mutation_batch_id,
                status: recovered_status(o),
                committed_operations: applied_in(o),
                failed_operations: Seq::empty(),
                prepared_digest: Some(p.preview_digest),
                approval_identity: Some(p.approval_authority_id),
                policy_fingerprint: Some(p.permission_policy_digest),
            },
        )
    } else {
        None
    }
}

/// How a prepared operation without a result is settled. No file is written again.
pub open spec fn recovery_of(
    records: Seq<SessionStreamRecordView>,
    op: OperationRecordView,
    p: PreparedOperationView,
    o: BatchOutcomeView,
) -> OperationRecoveryV1View {
    OperationRecoveryV1View {
        operation_id: op.preview.operation_id,
        batch_end: recovered_batch_end(records, p, o),
        resolved: resolved_event(
            op.preview.operation_id,
            recovered_resolution(o),
            Some(p.mutation_batch_id),
            recovered_snapshot(o),
            recovered_error(o),
        ),
    }
}

/// How the first `n` operations are settled.
pub open spec fn recovery_after(
    records: Seq<SessionStreamRecordView>,
    ops: Seq<OperationRecordView>,
    n: int,
) -> IntentRecoveryV1View
    decreases n,
{
    if n <= 0 {
        IntentRecoveryV1View { steps: Seq::empty(), failure: None }
    } else {
        let before = recovery_after(records, ops, n - 1);
        let op = ops[n - 1];
        if before.failure is Some || op.resolved is Some {
            before
        } else {
            match op.prepared {
                None => before,
                Some(p) => match batch_outcome(records, op, p) {
                    Err(m) => IntentRecoveryV1View { failure: Some(m), ..before },
                    Ok(o) => IntentRecoveryV1View {
                        steps: before.steps.push(recovery_of(records, op, p, o)),
                        ..before
                    },
                },
            }
        }
    }
}

/// How the interrupted operations of a session are settled.
pub open spec fn session_recovery(
    session: SessionView,
    workspace_id: Seq<char>,
    has_mutation_evidence: bool,
) -> Result<IntentRecoveryV1View, Seq<char>> {
    match session.durable_records {
        None => Err("Intent operation recovery requires a durable session"@),
        Some(records) => if !has_mutation_evidence {
            Err("Intent operation recovery requires mutation evidence"@)
        } else {
            match stack_of(records) {
                Err(m) => Err(m),
                Ok(admission) => match latest_accepted(admission) {
                    None => Err("Intent operation recovery requires an accepted plan"@),
                    Some(accepted) => if workspace_id != accepted.plan.workspace_id {
                        Err("Intent operation recovery workspace does not match the accepted plan"@)
                    } else {
                        match bare_replay(records, session.tasks) {
                            Err(m) => Err(m),
                            Ok(s) => Ok(
                                recovery_after(records, s.operations, s.operations.len() as int),
                            ),
                        }
                    },
                },
            }
        },
    }
}

fn settle(
    records: &Vec<SessionStreamRecord>,
    op: &OperationRecord,
    p: &PreparedOperation,
    o: BatchOutcome,
) -> (r: OperationRecoveryV1)
    ensures
        r.deep_view() == recovery_of(
            records.deep_view(),
            op.deep_view(),
            p.deep_view(),
            o.deep_view(),
        ),
{
    let none: Vec<String> = Vec::new();
    assert(none.deep_view() =~= Seq::empty());
    let (resolution, error_code, applied, snapshot, status) = match o {
        BatchOutcome::Applied { operation_ids, result_snapshot_id } => (
            IntentOperationResolution::Committed,
            None,
            operation_ids,
            Some(result_snapshot_id),
            MutationBatchStatus::Applied,
        ),
        BatchOutcome::FullyAppliedUnfinished { operation_ids, result_snapshot_id } => (
            IntentOperationResolution::Committed,
            None,
            operation_ids,
            Some(result_snapshot_id),
            MutationBatchStatus::Applied,
        ),
        BatchOutcome::Partial { applied, result_snapshot_id } => (
            IntentOperationResolution::PartiallyApplied,
            Some(IntentOperationErrorCode::PartialApplication),
            applied,
            result_snapshot_id,
            MutationBatchStatus::PartiallyApplied,
        ),
        BatchOutcome::Conflicted { applied, result_snapshot_id } => (
            IntentOperationResolution::PartiallyApplied,
            Some(IntentOperationErrorCode::ReconciliationRequired),
            applied,
            result_snapshot_id,
            MutationBatchStatus::PartiallyApplied,
        ),
        BatchOutcome::Interrupted { result_snapshot_id } => (
            IntentOperationResolution::Interrupted,
            Some(IntentOperationErrorCode::ReconciliationRequired),
            none,
            result_snapshot_id,
            MutationBatchStatus::Failed,
        ),
        BatchOutcome::NoBatch => (
            IntentOperationResolution::Interrupted,
            Some(IntentOperationErrorCode::ReconciliationRequired),
            none,
            None,
            MutationBatchStatus::Failed,
        ),
    };
    let id = p.mutation_batch_id.as_str();
    let batch_end = if find_batch_end(records, id).is_none() && find_batch_start(
        records,
        id,
    ).is_some() {
        let failed: Vec<String> = Vec::new();
        assert(failed.deep_view() =~= Seq::empty());
        Some(
            MutationBatchFinished {
                batch_id: p.mutation_batch_id.duplicate(),
                status,
                committed_operations: applied,
                failed_operations: failed,
                prepared_digest: Some(p.preview_digest.as_str().to_owned()),
                approval_identity: Some(p.approval_authority_id.duplicate()),
                policy_fingerprint: Some(p.permission_policy_digest.as_str().to_owned()),
            },
        )
    } else {
        None
    };
    OperationRecoveryV1 {
        operation_id: op.preview.operation_id.duplicate(),
        batch_end,
        resolved: make_resolved_event(
            &op.preview.operation_id,
            resolution,
            Some(p.mutation_batch_id.duplicate()),
            snapshot,
            error_code,
        ),
    }
}

proof fn lemma_recovery_stops(
    records: Seq<SessionStreamRecordView>,
    ops: Seq<OperationRecordView>,
    n: int,
    end: int,
)
    requires
        0 <= n <= end,
        recovery_after(records, ops, n).failure is Some,
    ensures
        recovery_after(records, ops, end) == recovery_after(records, ops, n),
    decreases end - n,
{
    if n < end {
        lemma_recovery_stops(records, ops, n, end - 1);
    }
}

fn recover(records: &Vec<SessionStreamRecord>, ops: &Vec<OperationRecord>) -> (r: IntentRecoveryV1)
    ensures
        r.deep_view() == recovery_after(records.deep_view(), ops.deep_view(), ops.len() as int),
{
    let ghost rv = records.deep_view();
    let ghost ov = ops.deep_view();
    let mut steps: Vec<OperationRecoveryV1> = Vec::new();
    let mut i: usize = 0;
    assert(steps.deep_view() =~= Seq::empty());
    while i < ops.len()
        invariant
            i <= ops.len(),
            rv == records.deep_view(),
            ov == ops.deep_view(),
            recovery_after(rv, ov, i as int) == (IntentRecoveryV1View {
                steps: steps.deep_view(),
                failure: None,
            }),
        decreases ops.len() - i,
    {
        assert(ov[i as int] == ops@[i as int].deep_view());
        let op = &ops[i];
        if op.resolved.is_none() {
            if let Some(p) = &op.prepared {
                match find_batch_outcome(records, op, p) {
                    Err(e) => {
                        proof {
                            lemma_recovery_stops(rv, ov, i + 1, ov.len() as int);
                        }
                        return IntentRecoveryV1 { steps, failure: Some(e.message) };
                    },
                    Ok(o) => {
                        let item = settle(records, op, p, o);
                        let ghost had = steps;
                        steps.push(item);
                        proof {
                            lemma_push_view(had, item, steps);
                        }
                    },
                }
            }
        }
        i = i + 1;
    }
    IntentRecoveryV1 { steps, failure: None }
}

/// Settles interrupted operations by what the durable stream proves of their batches, in the order of
/// their identities, without writing any file again. What is prepared but has no end must have been
/// reconciled with the workspace before.
pub fn reconcile_intent_operations(
    session: &Session,
    workspace_id: &str,
    has_mutation_evidence: bool,
) -> (r: Result<IntentRecoveryV1, KernelError>)
    ensures
        outcome(r) == session_recovery(session.deep_view(), workspace_id@, has_mutation_evidence),
{
    let records = match &session.durable_records {
        None => {
            return Err(KernelError::new("Intent operation recovery requires a durable session"));
        },
        Some(records) => records,
    };
    if !has_mutation_evidence {
        return Err(KernelError::new("Intent operation recovery requires mutation evidence"));
    }
    let admission = IntentStackProjectionV1::from_records(records)?;
    let accepted = match admission.latest_accepted_plan() {
        None => {
            return Err(KernelError::new("Intent operation recovery requires an accepted plan"));
        },
        Some(accepted) => accepted,
    };
    if !same_text(workspace_id, accepted.plan.workspace_id.as_str()) {
        return Err(
            KernelError::new(
                "Intent operation recovery workspace does not match the accepted plan",
            ),
        );
    }
    let s = replay_bare(records, &session.tasks)?;
    Ok(recover(records, &s.operations))
}

// What checkpoints must leave alone.

/// The batches that operations were prepared for.
pub open spec fn prepared_batches(records: Seq<SessionStreamRecordView>) -> Seq<Seq<char>>
    decreases records.len(),
{
    if records.len() == 0 {
        Seq::empty()
    } else {
        let before = prepared_batches(records.drop_last());
        match intent_event_in(records.last()) {
            Some(IntentEventV1View::OperationPrepared { mutation_batch_id, .. }) => before.push(
                mutation_batch_id,
            ),
            _ => before,
        }
    }
}

/// The mutations that were prepared in some batches.
pub open spec fn mutations_within(
    records: Seq<SessionStreamRecordView>,
    batches: Seq<Seq<char>>,
) -> Seq<Seq<char>>
    decreases records.len(),
{
    if records.len() == 0 {
        Seq::empty()
    } else {
        let before = mutations_within(records.drop_last(), batches);
        match prepared_in(records.last()) {
            Some(p) => match p.batch_id {
                Some(id) => if batches.contains(id) {
                    before.push(p.operation_id)
                } else {
                    before
                },
                None => before,
            },
            None => before,
        }
    }
}

fn list_prepared_batches(records: &Vec<SessionStreamRecord>) -> (r: Vec<String>)
    ensures
        r.deep_view() == prepared_batches(records.deep_view()),
{
    let ghost v = records.deep_view();
    let mut r: Vec<String> = Vec::new();
    let mut i: usize = 0;
    assert(v.take(0) =~= Seq::empty());
    assert(r.deep_view() =~= Seq::empty());
    while i < records.len()
        invariant
            i <= records.len(),
            v == records.deep_view(),
            r.deep_view() == prepared_batches(v.take(i as int)),
        decreases records.len() - i,
    {
        proof {
            assert(v.take(i + 1).drop_last() =~= v.take(i as int));
            assert(v.take(i + 1).last() == records@[i as int].deep_view());
        }
        if let Some(IntentEventV1::OperationPrepared { mutation_batch_id, .. }) = intent_event_of(
            &records[i],
        ) {
            let item = mutation_batch_id.duplicate();
            let ghost had = r;
            r.push(item);
            proof {
                lemma_push_view(had, item, r);
            }
        }
        i = i + 1;
    }
    assert(v.take(i as int) =~= v);
    r
}

/// The mutations that belong to operations on intents, in ascending order.
pub fn intent_operation_mutation_operation_ids(records: &Vec<SessionStreamRecord>) -> (r: Vec<
    String,
>)
    ensures
        r.deep_view() == ascending_of(
            mutations_within(records.deep_view(), prepared_batches(records.deep_view())),
        ),
{
    let batches = list_prepared_batches(records);
    let ghost v = records.deep_view();
    let ghost b = batches.deep_view();
    let mut ids: Vec<String> = Vec::new();
    let mut i: usize = 0;
    assert(v.take(0) =~= Seq::empty());
    assert(ids.deep_view() =~= Seq::empty());
    while i < records.len()
        invariant
            i <= records.len(),
            v == records.deep_view(),
            b == batches.deep_view(),
            ids.deep_view() == mutations_within(v.take(i as int), b),
        decreases records.len() - i,
    {
        proof {
            assert(v.take(i + 1).drop_last() =~= v.take(i as int));
            assert(v.take(i + 1).last() == records@[i as int].deep_view());
        }
        if let Some(p) = prepared_of(&records[i]) {
            if let Some(id) = &p.batch_id {
                if holds(&batches, id) {
                    let item = p.operation_id.duplicate();
                    let ghost had = ids;
                    ids.push(item);
                    proof {
                        lemma_push_view(had, item, ids);
                    }
                }
            }
        }
        i = i + 1;
    }
    assert(v.take(i as int) =~= v);
    let r = ascending_texts(&ids);
    proof {
        lemma_ascending_of(r.deep_view(), ids.deep_view());
    }
    r
}

/// The paths of the files of artifacts.
pub open spec fn hunk_paths(artifacts: Seq<EffectiveIntentArtifactV1View>) -> Seq<Seq<char>>
    decreases artifacts.len(),
{
    if artifacts.len() == 0 {
        Seq::empty()
    } else {
        let before = hunk_paths(artifacts.drop_last());
        if artifacts.last().binding.subject is FileHunk {
            before.push(artifact_path_of(artifacts.last().binding))
        } else {
            before
        }
    }
}

/// The paths of the files of layers whose intents were not dropped.
pub open spec fn held_paths(
    layers: Seq<IntentLayerStateV1View>,
    dropped: Seq<IntentVersionRefView>,
) -> Seq<Seq<char>>
    decreases layers.len(),
{
    if layers.len() == 0 {
        Seq::empty()
    } else {
        let before = held_paths(layers.drop_last(), dropped);
        if dropped.contains(layers.last().layer_manifest.core.intent_ref) {
            before
        } else {
            before + hunk_paths(layers.last().artifacts)
        }
    }
}

/// An operation was requested, prepared or resolved behind a record.
pub open spec fn is_later_than(op: OperationRecordView, boundary: u64) -> bool {
    ||| op.requested_sequence > boundary
    ||| (op.prepared_sequence matches Some(s) && s > boundary)
    ||| (op.resolved_sequence matches Some(s) && s > boundary)
}

/// The paths of the files of later operations.
pub open spec fn later_paths(ops: Seq<OperationRecordView>, boundary: u64) -> Seq<Seq<char>>
    decreases ops.len(),
{
    if ops.len() == 0 {
        Seq::empty()
    } else {
        let before = later_paths(ops.drop_last(), boundary);
        if is_later_than(ops.last(), boundary) {
            before + paths_in_effects(ops.last().preview.file_effects)
        } else {
            before
        }
    }
}

/// The paths that a checkpoint must leave alone.
pub open spec fn conflict_paths(
    records: Seq<SessionStreamRecordView>,
    tasks: TaskStateProjectionView,
    boundary: u64,
) -> Result<Seq<Seq<char>>, Seq<char>> {
    match stack_of(records) {
        Err(m) => Err(m),
        Ok(admission) => if latest_accepted(admission) is None {
            Ok(Seq::empty())
        } else {
            match lineage_of(records, admission, tasks) {
                Err(m) => Err(m),
                Ok(lineage) => match layers_of(records, admission, lineage) {
                    Err(m) => Err(m),
                    Ok(layers) => match replay_of(records, admission, layers) {
                        Err(m) => Err(m),
                        Ok(s) => Ok(
                            ascending_of(
                                held_paths(
                                    layers.layers,
                                    operation_projection_of(records, s).dropped_intents,
                                ) + later_paths(s.operations, boundary),
                            ),
                        ),
                    },
                },
            }
        },
    }
}

fn add_hunk_paths(list: &mut Vec<String>, artifacts: &Vec<EffectiveIntentArtifactV1>)
    ensures
        final(list).deep_view() == old(list).deep_view() + hunk_paths(artifacts.deep_view()),
{
    let ghost v = artifacts.deep_view();
    let ghost start = list.deep_view();
    let mut i: usize = 0;
    assert(v.take(0) =~= Seq::empty());
    assert(start + hunk_paths(v.take(0)) =~= start);
    while i < artifacts.len()
        invariant
            i <= artifacts.len(),
            v == artifacts.deep_view(),
            list.deep_view() == start + hunk_paths(v.take(i as int)),
        decreases artifacts.len() - i,
    {
        proof {
            assert(v.take(i + 1).drop_last() =~= v.take(i as int));
            assert(v.take(i + 1).last() == artifacts@[i as int].deep_view());
        }
        if is_file_hunk(&artifacts[i]) {
            let item = artifact_path(&artifacts[i].binding);
            let ghost had = *list;
            list.push(item);
            proof {
                lemma_push_view(had, item, *list);
                assert(list.deep_view() =~= start + hunk_paths(v.take(i + 1)));
            }
        }
        i = i + 1;
    }
    assert(v.take(i as int) =~= v);
}

fn add_effect_paths(list: &mut Vec<String>, files: &Vec<IntentOperationFileSummaryV1>)
    ensures
        final(list).deep_view() == old(list).deep_view() + paths_in_effects(files.deep_view()),
{
    let ghost all = paths_in_effects(files.deep_view());
    let ghost start = list.deep_view();
    let mut i: usize = 0;
    assert(start + all.take(0) =~= start);
    while i < files.len()
        invariant
            i <= files.len(),
            all == paths_in_effects(files.deep_view()),
            list.deep_view() == start + all.take(i as int),
        decreases files.len() - i,
    {
        let item = files[i].normalized_relative_path.duplicate();
        assert(all[i as int] == item@);
        let ghost had = *list;
        list.push(item);
        proof {
            lemma_push_view(had, item, *list);
            assert(list.deep_view() =~= start + all.take(i + 1));
        }
        i = i + 1;
    }
    assert(all.take(i as int) =~= all);
}

fn list_held_paths(layers: &Vec<IntentLayerStateV1>, dropped: &Vec<IntentVersionRef>) -> (r: Vec<
    String,
>)
    ensures
        r.deep_view() == held_paths(layers.deep_view(), dropped.deep_view()),
{
    let ghost v = layers.deep_view();
    let mut r: Vec<String> = Vec::new();
    let mut i: usize = 0;
    assert(v.take(0) =~= Seq::empty());
    assert(r.deep_view() =~= Seq::empty());
    while i < layers.len()
        invariant
            i <= layers.len(),
            v == layers.deep_view(),
            r.deep_view() == held_paths(v.take(i as int), dropped.deep_view()),
        decreases layers.len() - i,
    {
        proof {
            assert(v.take(i + 1).drop_last() =~= v.take(i as int));
            assert(v.take(i + 1).last() == layers@[i as int].deep_view());
        }
        if !holds(dropped, &layers[i].layer_manifest.core.intent_ref) {
            add_hunk_paths(&mut r, &layers[i].artifacts);
        }
        i = i + 1;
    }
    assert(v.take(i as int) =~= v);
    r
}

fn later_than(op: &OperationRecord, boundary: u64) -> (r: bool)
    ensures
        r == is_later_than(op.deep_view(), boundary),
{
    let prepared = match op.prepared_sequence {
        Some(s) => s > boundary,
        None => false,
    };
    let resolved = match op.resolved_sequence {
        Some(s) => s > boundary,
        None => false,
    };
    op.requested_sequence > boundary || prepared || resolved
}

fn add_later_paths(list: &mut Vec<String>, ops: &Vec<OperationRecord>, boundary: u64)
    ensures
        final(list).deep_view() == old(list).deep_view() + later_paths(ops.deep_view(), boundary),
{
    let ghost v = ops.deep_view();
    let ghost start = list.deep_view();
    let mut i: usize = 0;
    assert(v.take(0) =~= Seq::empty());
    assert(start + later_paths(v.take(0), boundary) =~= start);
    while i < ops.len()
        invariant
            i <= ops.len(),
            v == ops.deep_view(),
            list.deep_view() == start + later_paths(v.take(i as int), boundary),
        decreases ops.len() - i,
    {
        proof {
            assert(v.take(i + 1).drop_last() =~= v.take(i as int));
            assert(v.take(i + 1).last() == ops@[i as int].deep_view());
        }
        if later_than(&ops[i], boundary) {
            let ghost had = list.deep_view();
            add_effect_paths(list, &ops[i].preview.file_effects);
            assert(list.deep_view() =~= start + later_paths(v.take(i + 1), boundary));
        }
        i = i + 1;
    }
    assert(v.take(i as int) =~= v);
}

/// The paths that a checkpoint must leave alone, in ascending order: the files of intents that were not
/// dropped, and the files of operations that are later than the checkpoint.
pub fn checkpoint_intent_conflict_paths(
    records: &Vec<SessionStreamRecord>,
    tasks: &TaskStateProjection,
    checkpoint_boundary_sequence: u64,
) -> (r: Result<Vec<String>, KernelError>)
    ensures
        outcome(r) == conflict_paths(
            records.deep_view(),
            tasks.deep_view(),
            checkpoint_boundary_sequence,
        ),
{
    let admission = IntentStackProjectionV1::from_records(records)?;
    if admission.latest_accepted_plan().is_none() {
        let none: Vec<String> = Vec::new();
        assert(none.deep_view() =~= Seq::empty());
        return Ok(none);
    }
    let lineage = IntentLineageProjectionV1::from_records(records, &admission, tasks)?;
    let layers = IntentLayerProjectionV1::from_records(records, &admission, &lineage)?;
    let s = replay_operations(records, &admission, &layers)?;
    let shown = public_projection(records, &s);
    let mut list = list_held_paths(&layers.layers, shown.dropped_intents());
    add_later_paths(&mut list, &s.operations, checkpoint_boundary_sequence);
    let r = ascending_texts(&list);
    proof {
        lemma_ascending_of(r.deep_view(), list.deep_view());
    }
    Ok(r)
}

// Laws.

/// An operation is cancelled only while nothing of its batch was done to a file.
pub proof fn law_only_untouched_operations_are_cancelled(
    records: Seq<SessionStreamRecordView>,
    s: OperationReplayView,
    operation_id: Seq<char>,
)
    requires
        cancellation(records, s, operation_id) matches Ok(Some(_)),
    ensures
        find_key::<OperationRecord>(s.operations, operation_id) matches Some(k)
            && s.operations[k].resolved is None && (s.operations[k].prepared matches Some(p)
            ==> !has_evidence(records, p.mutation_batch_id)),
{
}

/// A recovered operation counts as committed exactly where its batch changed every file; and where it
/// does, the end of the batch tells the same.
pub proof fn law_recovery_tells_what_was_done(
    records: Seq<SessionStreamRecordView>,
    op: OperationRecordView,
    p: PreparedOperationView,
    o: BatchOutcomeView,
)
    ensures
        (recovered_resolution(o) == IntentOperationResolution::Committed) == (o is Applied
            || o is FullyAppliedUnfinished),
        (recovered_resolution(o) == IntentOperationResolution::Committed) == (recovered_error(o)
            is None),
        recovered_batch_end(records, p, o) matches Some(b) ==> (b.status
            == MutationBatchStatus::Applied) == (recovered_resolution(o)
            == IntentOperationResolution::Committed) && b.committed_operations == applied_in(o),
{
}

} // verus!
