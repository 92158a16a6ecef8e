//! The execution of a drop, step by step: every file is prepared before the first is changed, and what
//! is recorded tells how far the drop came.

use vstd::prelude::*;

use crate::batch_evidence::{batch_outcome, find_batch_outcome};
use crate::intent::{
    IntentConflictV1View, IntentDefinitionV1, IntentDefinitionV1View, IntentDigest, IntentEventV1,
    IntentEventV1View, IntentOperationErrorCode, IntentOperationId, IntentOperationPreviewV1,
    IntentOperationPreviewV1View, IntentOperationResolution, IntentPlanV1View, IntentVersionRef,
    IntentVersionRefView, INTENT_CONTRACT_SCHEMA_VERSION, MAX_INTENT_REASON_BYTES,
};
use crate::intent_drop::{
    drop_from_parts, drop_of, frontier_of, frontier_sequence, is_complete_by,
    law_drops_without_conflicts_are_exact, law_previewed_drops_can_be_requested,
    lemma_drops_without_conflicts_have_files, readable_layers, resolve_drop_from_parts,
    DropTargetObservationV1, DropTargetObservationV1View, ResolvedDrop, ResolvedDropFile,
    ResolvedDropFileView, ResolvedDropView,
};
use crate::intent_event_contract::event_verdict;
use crate::intent_layer::{ArtifactContentV1, ArtifactContentV1View};
use crate::intent_lineage::{
    lineage_of, with_new, IntentLineageProjectionV1, IntentLineageProjectionV1View,
};
use crate::intent_operation::{
    after_prepare, after_request, after_result, authority_holds, drop_batch_id, drop_operation_id,
    intent_drop_batch_id, lemma_targets_stay_single, lemma_with_new_members,
    operation_id_for_preview_target, operation_order, operation_projection_of, operations_after,
    prepared_operation, public_projection, replay_of, replay_operations, single_targets,
    IntentOperationAuthorityV1, IntentOperationAuthorityV1View, OperationReplay,
    OperationReplayView,
};
use crate::intent_stack::{
    latest_accepted, lemma_latest_version, sound_stack, stack_of, IntentStackProjectionV1,
    IntentStackProjectionV1View,
};
use crate::intent_state::{
    BatchOutcome, BatchOutcomeView, IntentDropRequestV1, IntentDropRequestV1View,
    IntentLayerProjectionV1, IntentLayerProjectionV1View, IntentOperationExecutionV1,
    IntentOperationExecutionV1View, OperationRecord, OperationRecordView, PreparedOperationView,
    ResolvedOperation, ResolvedOperationView,
};
use crate::order::lemma_in_order;
use crate::records::{
    FileType, MutationBatchFinished, MutationBatchFinishedView, MutationBatchStarted,
    MutationBatchStartedView, MutationBatchStatus, MutationResolution, MutationSubject,
    MutationSubjectView, Session, SessionStreamRecord, SessionStreamRecordView, SessionView,
};
use crate::search::{all_where, any_where, find_first, first_where, has_any};
use crate::stream::{intent_event_in, intent_event_of};
use crate::text::{blank, byte_len, byte_length, is_blank};
use crate::value::{
    chain, check, find_key, holds, lemma_find_key, lemma_push_view, next_number, outcome,
    position_by_key, reject, verdict, yields, KernelError, Value, Verdict,
};

verus! {

/// How far a drop has come.
#[derive(Debug, Clone, Copy, PartialEq, Eq, Structural)]
pub enum DropStageV1 {
    Preparing,
    Committing,
    Reconciling,
    Failed,
    Applied,
}

impl DeepView for DropStageV1 {
    type V = DropStageV1;

    open spec fn deep_view(&self) -> DropStageV1 {
        *self
    }
}

impl Value for DropStageV1 {
    fn same(&self, other: &Self) -> (r: bool) {
        *self == *other
    }

    fn duplicate(&self) -> (r: Self) {
        *self
    }
}

/// A drop under way: its files, the mutations that were prepared and committed, and those that
/// failed.
#[derive(Debug, Clone, PartialEq, Eq)]
pub struct IntentDropRunV1 {
    pub preview: IntentOperationPreviewV1,
    pub files: Vec<ResolvedDropFile>,
    pub batch_id: String,
    pub permission_policy_digest: IntentDigest,
    pub approval_authority_id: String,
    pub stage: DropStageV1,
    pub prepared: Vec<String>,
    pub committed: Vec<String>,
    pub failed: Vec<String>,
    pub result_snapshot_id: Option<String>,
}

/// What a [`IntentDropRunV1`] holds.
#[verifier::ext_equal]
pub struct IntentDropRunV1View {
    pub preview: IntentOperationPreviewV1View,
    pub files: Seq<ResolvedDropFileView>,
    pub batch_id: Seq<char>,
    pub permission_policy_digest: Seq<char>,
    pub approval_authority_id: Seq<char>,
    pub stage: DropStageV1,
    pub prepared: Seq<Seq<char>>,
    pub committed: Seq<Seq<char>>,
    pub failed: Seq<Seq<char>>,
    pub result_snapshot_id: Option<Seq<char>>,
}

impl DeepView for IntentDropRunV1 {
    type V = IntentDropRunV1View;

    open spec fn deep_view(&self) -> IntentDropRunV1View {
        IntentDropRunV1View {
            preview: self.preview.deep_view(),
            files: self.files.deep_view(),
            batch_id: self.batch_id.deep_view(),
            permission_policy_digest: self.permission_policy_digest.deep_view(),
            approval_authority_id: self.approval_authority_id.deep_view(),
            stage: self.stage.deep_view(),
            prepared: self.prepared.deep_view(),
            committed: self.committed.deep_view(),
            failed: self.failed.deep_view(),
            result_snapshot_id: self.result_snapshot_id.deep_view(),
        }
    }
}

impl Value for IntentDropRunV1 {
    fn same(&self, other: &Self) -> (r: bool) {
        self.preview.same(&other.preview)
            && self.files.same(&other.files)
            && self.batch_id.same(&other.batch_id)
            && self.permission_policy_digest.same(&other.permission_policy_digest)
            && self.approval_authority_id.same(&other.approval_authority_id)
            && self.stage.same(&other.stage)
            && self.prepared.same(&other.prepared)
            && self.committed.same(&other.committed)
            && self.failed.same(&other.failed)
            && self.result_snapshot_id.same(&other.result_snapshot_id)
    }

    fn duplicate(&self) -> (r: Self) {
        IntentDropRunV1 {
            preview: self.preview.duplicate(),
            files: self.files.duplicate(),
            batch_id: self.batch_id.duplicate(),
            permission_policy_digest: self.permission_policy_digest.duplicate(),
            approval_authority_id: self.approval_authority_id.duplicate(),
            stage: self.stage.duplicate(),
            prepared: self.prepared.duplicate(),
            committed: self.committed.duplicate(),
            failed: self.failed.duplicate(),
            result_snapshot_id: self.result_snapshot_id.duplicate(),
        }
    }
}

/// What came of the last step of a drop.
#[derive(Debug, Clone, PartialEq, Eq)]
pub enum DropEventV1 {
    Prepared {
        operation_id: String,
    },
    PrepareFailed,
    Committed {
        operation_id: String,
        workspace_snapshot_id: String,
    },
    CommitFailed,
    Reconciled {
        resolution: MutationResolution,
        workspace_snapshot_id: Option<String>,
    },
}

/// What a [`DropEventV1`] holds.
#[verifier::ext_equal]
pub enum DropEventV1View {
    Prepared {
        operation_id: Seq<char>,
    },
    PrepareFailed,
    Committed {
        operation_id: Seq<char>,
        workspace_snapshot_id: Seq<char>,
    },
    CommitFailed,
    Reconciled {
        resolution: MutationResolution,
        workspace_snapshot_id: Option<Seq<char>>,
    },
}

impl DeepView for DropEventV1 {
    type V = DropEventV1View;

    open spec fn deep_view(&self) -> DropEventV1View {
        match self {
            DropEventV1::Prepared { operation_id } => DropEventV1View::Prepared {
                operation_id: operation_id.deep_view(),
            },
            DropEventV1::PrepareFailed => DropEventV1View::PrepareFailed,
            DropEventV1::Committed { operation_id, workspace_snapshot_id } => DropEventV1View::Committed {
                operation_id: operation_id.deep_view(),
                workspace_snapshot_id: workspace_snapshot_id.deep_view(),
            },
            DropEventV1::CommitFailed => DropEventV1View::CommitFailed,
            DropEventV1::Reconciled { resolution, workspace_snapshot_id } => DropEventV1View::Reconciled {
                resolution: resolution.deep_view(),
                workspace_snapshot_id: workspace_snapshot_id.deep_view(),
            },
        }
    }
}

impl Value for DropEventV1 {
    fn same(&self, other: &Self) -> (r: bool) {
        match (self, other) {
            (
                DropEventV1::Prepared { operation_id },
                DropEventV1::Prepared { operation_id: operation_id2 },
            ) => operation_id.same(operation_id2),
            (
                DropEventV1::PrepareFailed,
                DropEventV1::PrepareFailed,
            ) => true,
            (
                DropEventV1::Committed { operation_id, workspace_snapshot_id },
                DropEventV1::Committed { operation_id: operation_id2, workspace_snapshot_id: workspace_snapshot_id2 },
            ) => operation_id.same(operation_id2)
                && workspace_snapshot_id.same(workspace_snapshot_id2),
            (
                DropEventV1::CommitFailed,
                DropEventV1::CommitFailed,
            ) => true,
            (
                DropEventV1::Reconciled { resolution, workspace_snapshot_id },
                DropEventV1::Reconciled { resolution: resolution2, workspace_snapshot_id: workspace_snapshot_id2 },
            ) => resolution.same(resolution2)
                && workspace_snapshot_id.same(workspace_snapshot_id2),
            _ => false,
        }
    }

    fn duplicate(&self) -> (r: Self) {
        match self {
            DropEventV1::Prepared { operation_id } => DropEventV1::Prepared {
                operation_id: operation_id.duplicate(),
            },
            DropEventV1::PrepareFailed => DropEventV1::PrepareFailed,
            DropEventV1::Committed { operation_id, workspace_snapshot_id } => DropEventV1::Committed {
                operation_id: operation_id.duplicate(),
                workspace_snapshot_id: workspace_snapshot_id.duplicate(),
            },
            DropEventV1::CommitFailed => DropEventV1::CommitFailed,
            DropEventV1::Reconciled { resolution, workspace_snapshot_id } => DropEventV1::Reconciled {
                resolution: resolution.duplicate(),
                workspace_snapshot_id: workspace_snapshot_id.duplicate(),
            },
        }
    }
}

/// How a drop ends: the end of its batch, then the result that is recorded, then what is reported.
#[derive(Debug, Clone, PartialEq, Eq)]
pub struct IntentDropEndV1 {
    pub batch_end: MutationBatchFinished,
    pub resolved: IntentEventV1,
    pub execution: IntentOperationExecutionV1,
}

/// What a [`IntentDropEndV1`] holds.
#[verifier::ext_equal]
pub struct IntentDropEndV1View {
    pub batch_end: MutationBatchFinishedView,
    pub resolved: IntentEventV1View,
    pub execution: IntentOperationExecutionV1View,
}

impl DeepView for IntentDropEndV1 {
    type V = IntentDropEndV1View;

    open spec fn deep_view(&self) -> IntentDropEndV1View {
        IntentDropEndV1View {
            batch_end: self.batch_end.deep_view(),
            resolved: self.resolved.deep_view(),
            execution: self.execution.deep_view(),
        }
    }
}

impl Value for IntentDropEndV1 {
    fn same(&self, other: &Self) -> (r: bool) {
        self.batch_end.same(&other.batch_end)
            && self.resolved.same(&other.resolved)
            && self.execution.same(&other.execution)
    }

    fn duplicate(&self) -> (r: Self) {
        IntentDropEndV1 {
            batch_end: self.batch_end.duplicate(),
            resolved: self.resolved.duplicate(),
            execution: self.execution.duplicate(),
        }
    }
}

/// The next step of a drop: prepare, commit or reconcile the file at a place, or end the drop.
#[derive(Debug, Clone, PartialEq, Eq)]
pub enum DropActionV1 {
    PrepareFile(usize),
    CommitFile(usize),
    ReconcileFile(usize),
    Finish(IntentDropEndV1),
}

/// What a [`DropActionV1`] holds.
#[verifier::ext_equal]
pub enum DropActionV1View {
    PrepareFile(usize),
    CommitFile(usize),
    ReconcileFile(usize),
    Finish(IntentDropEndV1View),
}

impl DeepView for DropActionV1 {
    type V = DropActionV1View;

    open spec fn deep_view(&self) -> DropActionV1View {
        match self {
            DropActionV1::PrepareFile(x) => DropActionV1View::PrepareFile(x.deep_view()),
            DropActionV1::CommitFile(x) => DropActionV1View::CommitFile(x.deep_view()),
            DropActionV1::ReconcileFile(x) => DropActionV1View::ReconcileFile(x.deep_view()),
            DropActionV1::Finish(x) => DropActionV1View::Finish(x.deep_view()),
        }
    }
}

impl Value for DropActionV1 {
    fn same(&self, other: &Self) -> (r: bool) {
        match (self, other) {
            (
                DropActionV1::PrepareFile(x),
                DropActionV1::PrepareFile(x2),
            ) => x.same(x2),
            (
                DropActionV1::CommitFile(x),
                DropActionV1::CommitFile(x2),
            ) => x.same(x2),
            (
                DropActionV1::ReconcileFile(x),
                DropActionV1::ReconcileFile(x2),
            ) => x.same(x2),
            (
                DropActionV1::Finish(x),
                DropActionV1::Finish(x2),
            ) => x.same(x2),
            _ => false,
        }
    }

    fn duplicate(&self) -> (r: Self) {
        match self {
            DropActionV1::PrepareFile(x) => DropActionV1::PrepareFile(x.duplicate()),
            DropActionV1::CommitFile(x) => DropActionV1::CommitFile(x.duplicate()),
            DropActionV1::ReconcileFile(x) => DropActionV1::ReconcileFile(x.duplicate()),
            DropActionV1::Finish(x) => DropActionV1::Finish(x.duplicate()),
        }
    }
}

/// Where a requested drop stands. It was settled before; or it is refused, and its request, its
/// conflicts and its result are to be recorded; or it is to be applied, once its request, its
/// authority and the start of its batch are recorded.
#[derive(Debug, Clone, PartialEq, Eq)]
pub enum IntentDropStartV1 {
    Settled(IntentOperationExecutionV1),
    Refused {
        requested: IntentEventV1,
        source_frontier_sequence: u64,
        events: Vec<IntentEventV1>,
        execution: IntentOperationExecutionV1,
    },
    Apply {
        requested: IntentEventV1,
        source_frontier_sequence: u64,
        prepared: IntentEventV1,
        batch_start: MutationBatchStarted,
        run: IntentDropRunV1,
    },
}

/// What a [`IntentDropStartV1`] holds.
#[verifier::ext_equal]
pub enum IntentDropStartV1View {
    Settled(IntentOperationExecutionV1View),
    Refused {
        requested: IntentEventV1View,
        source_frontier_sequence: u64,
        events: Seq<IntentEventV1View>,
        execution: IntentOperationExecutionV1View,
    },
    Apply {
        requested: IntentEventV1View,
        source_frontier_sequence: u64,
        prepared: IntentEventV1View,
        batch_start: MutationBatchStartedView,
        run: IntentDropRunV1View,
    },
}

impl DeepView for IntentDropStartV1 {
    type V = IntentDropStartV1View;

    open spec fn deep_view(&self) -> IntentDropStartV1View {
        match self {
            IntentDropStartV1::Settled(x) => IntentDropStartV1View::Settled(x.deep_view()),
            IntentDropStartV1::Refused { requested, source_frontier_sequence, events, execution } => IntentDropStartV1View::Refused {
                requested: requested.deep_view(),
                source_frontier_sequence: source_frontier_sequence.deep_view(),
                events: events.deep_view(),
                execution: execution.deep_view(),
            },
            IntentDropStartV1::Apply { requested, source_frontier_sequence, prepared, batch_start, run } => IntentDropStartV1View::Apply {
                requested: requested.deep_view(),
                source_frontier_sequence: source_frontier_sequence.deep_view(),
                prepared: prepared.deep_view(),
                batch_start: batch_start.deep_view(),
                run: run.deep_view(),
            },
        }
    }
}

impl Value for IntentDropStartV1 {
    fn same(&self, other: &Self) -> (r: bool) {
        match (self, other) {
            (
                IntentDropStartV1::Settled(x),
                IntentDropStartV1::Settled(x2),
            ) => x.same(x2),
            (
                IntentDropStartV1::Refused { requested, source_frontier_sequence, events, execution },
                IntentDropStartV1::Refused { requested: requested2, source_frontier_sequence: source_frontier_sequence2, events: events2, execution: execution2 },
            ) => requested.same(requested2)
                && source_frontier_sequence.same(source_frontier_sequence2)
                && events.same(events2)
                && execution.same(execution2),
            (
                IntentDropStartV1::Apply { requested, source_frontier_sequence, prepared, batch_start, run },
                IntentDropStartV1::Apply { requested: requested2, source_frontier_sequence: source_frontier_sequence2, prepared: prepared2, batch_start: batch_start2, run: run2 },
            ) => requested.same(requested2)
                && source_frontier_sequence.same(source_frontier_sequence2)
                && prepared.same(prepared2)
                && batch_start.same(batch_start2)
                && run.same(run2),
            _ => false,
        }
    }

    fn duplicate(&self) -> (r: Self) {
        match self {
            IntentDropStartV1::Settled(x) => IntentDropStartV1::Settled(x.duplicate()),
            IntentDropStartV1::Refused { requested, source_frontier_sequence, events, execution } => IntentDropStartV1::Refused {
                requested: requested.duplicate(),
                source_frontier_sequence: source_frontier_sequence.duplicate(),
                events: events.duplicate(),
                execution: execution.duplicate(),
            },
            IntentDropStartV1::Apply { requested, source_frontier_sequence, prepared, batch_start, run } => IntentDropStartV1::Apply {
                requested: requested.duplicate(),
                source_frontier_sequence: source_frontier_sequence.duplicate(),
                prepared: prepared.duplicate(),
                batch_start: batch_start.duplicate(),
                run: run.duplicate(),
            },
        }
    }
}

// What is recorded.

/// The event that requests an operation.
pub open spec fn requested_event(preview: IntentOperationPreviewV1View, safe_reason: Seq<char>) -> IntentEventV1View {
    IntentEventV1View::OperationRequested {
        schema_version: INTENT_CONTRACT_SCHEMA_VERSION,
        preview,
        safe_reason,
    }
}

/// The event that resolves an operation.
pub open spec fn resolved_event(
    operation_id: Seq<char>,
    resolution: IntentOperationResolution,
    mutation_batch_id: Option<Seq<char>>,
    result_snapshot_id: Option<Seq<char>>,
    error_code: Option<IntentOperationErrorCode>,
) -> IntentEventV1View {
    IntentEventV1View::OperationResolved {
        schema_version: INTENT_CONTRACT_SCHEMA_VERSION,
        operation_id,
        resolution,
        mutation_batch_id,
        result_snapshot_id,
        error_code,
    }
}

/// Makes the event that resolves an operation.
pub(crate) fn make_resolved_event(
    operation_id: &IntentOperationId,
    resolution: IntentOperationResolution,
    mutation_batch_id: Option<String>,
    result_snapshot_id: Option<String>,
    error_code: Option<IntentOperationErrorCode>,
) -> (r: IntentEventV1)
    ensures
        r.deep_view() == resolved_event(
            operation_id.deep_view(),
            resolution,
            mutation_batch_id.deep_view(),
            result_snapshot_id.deep_view(),
            error_code,
        ),
{
    IntentEventV1::OperationResolved {
        schema_version: INTENT_CONTRACT_SCHEMA_VERSION,
        operation_id: operation_id.duplicate(),
        resolution,
        mutation_batch_id,
        result_snapshot_id,
        error_code,
    }
}

/// The operation that an event belongs to.
pub open spec fn operation_id_in(e: IntentEventV1View) -> Option<Seq<char>> {
    match e {
        IntentEventV1View::OperationRequested { preview, .. } => Some(preview.operation_id),
        IntentEventV1View::OperationPrepared { operation_id, .. } => Some(operation_id),
        IntentEventV1View::OperationResolved { operation_id, .. } => Some(operation_id),
        _ => None,
    }
}

/// Two events are of the same kind and belong to the same operation.
pub open spec fn same_step(a: IntentEventV1View, b: IntentEventV1View) -> bool {
    operation_id_in(a) is Some && operation_id_in(a) == operation_id_in(b) && (a is OperationRequested
        == b is OperationRequested) && (a is OperationPrepared == b is OperationPrepared)
}

/// The record holds an event of the same kind for the same operation.
pub open spec fn tells_step(e: IntentEventV1View) -> spec_fn(SessionStreamRecordView) -> bool {
    |r: SessionStreamRecordView|
        match intent_event_in(r) {
            Some(x) => same_step(x, e),
            None => false,
        }
}

fn operation_event_id(e: &IntentEventV1) -> (r: Option<&IntentOperationId>)
    ensures
        r.deep_view() == operation_id_in(e.deep_view()),
{
    match e {
        IntentEventV1::OperationRequested { preview, .. } => Some(&preview.operation_id),
        IntentEventV1::OperationPrepared { operation_id, .. } => Some(operation_id),
        IntentEventV1::OperationResolved { operation_id, .. } => Some(operation_id),
        _ => None,
    }
}

fn is_request(e: &IntentEventV1) -> (r: bool)
    ensures
        r == (e.deep_view() is OperationRequested),
{
    match e {
        IntentEventV1::OperationRequested { .. } => true,
        _ => false,
    }
}

fn is_prepare(e: &IntentEventV1) -> (r: bool)
    ensures
        r == (e.deep_view() is OperationPrepared),
{
    match e {
        IntentEventV1::OperationPrepared { .. } => true,
        _ => false,
    }
}

fn is_same_step(a: &IntentEventV1, b: &IntentEventV1) -> (r: bool)
    ensures
        r == same_step(a.deep_view(), b.deep_view()),
{
    let same = match (operation_event_id(a), operation_event_id(b)) {
        (Some(x), Some(y)) => x.same(y),
        _ => false,
    };
    same && is_request(a) == is_request(b) && is_prepare(a) == is_prepare(b)
}

/// Whether an event is still to be appended: an exact retry appends nothing, and another event in the
/// place of a recorded one is refused.
pub open spec fn retry_verdict(
    records: Seq<SessionStreamRecordView>,
    e: IntentEventV1View,
    message: Seq<char>,
) -> Result<bool, Seq<char>> {
    match first_where(records, tells_step(e)) {
        None => Ok(true),
        Some(k) => if intent_event_in(records[k]) == Some(e) {
            Ok(false)
        } else {
            Err(message)
        },
    }
}

fn decide_retry(records: &Vec<SessionStreamRecord>, e: &IntentEventV1, message: &str) -> (r: Result<
    bool,
    KernelError,
>)
    ensures
        outcome(r) == retry_verdict(records.deep_view(), e.deep_view(), message@),
{
    let ghost p = tells_step(e.deep_view());
    let found = find_first(
        records,
        |r: &SessionStreamRecord| -> (b: bool)
            ensures
                b == p(r.deep_view())
            {
                match intent_event_of(r) {
                    Some(x) => is_same_step(x, e),
                    None => false,
                }
            },
        Ghost(p),
    );
    match found {
        None => Ok(true),
        Some(k) => {
            assert(records.deep_view()[k as int] == records@[k as int].deep_view());
            let same = match intent_event_of(&records[k]) {
                Some(x) => x.same(e),
                None => false,
            };
            if same {
                Ok(false)
            } else {
                Err(KernelError::new(message))
            }
        },
    }
}

/// Whether the request of an operation is to be appended to a stream.
pub open spec fn request_append(
    records: Seq<SessionStreamRecordView>,
    e: IntentEventV1View,
    frontier: u64,
) -> Result<bool, Seq<char>> {
    match chain(
        event_verdict(e),
        check(
            frontier_of(records) == frontier,
            "Intent operation preview frontier changed before request"@,
        ),
    ) {
        Err(m) => Err(m),
        Ok(_) => retry_verdict(
            records,
            e,
            "Intent operation request identity is already bound to another payload"@,
        ),
    }
}

/// Decides whether the request of an operation is to be appended: only to the very stream that its
/// preview was made from, and only once.
pub fn append_operation_requested(
    records: &Vec<SessionStreamRecord>,
    event: &IntentEventV1,
    source_frontier_sequence: u64,
) -> (r: Result<bool, KernelError>)
    ensures
        outcome(r) == request_append(
            records.deep_view(),
            event.deep_view(),
            source_frontier_sequence,
        ),
{
    event.validate_contract()?;
    if frontier_sequence(records) != source_frontier_sequence {
        return Err(KernelError::new("Intent operation preview frontier changed before request"));
    }
    decide_retry(
        records,
        event,
        "Intent operation request identity is already bound to another payload",
    )
}

/// Whether a later event of an operation is to be appended to a stream.
pub open spec fn step_append(records: Seq<SessionStreamRecordView>, e: IntentEventV1View) -> Result<
    bool,
    Seq<char>,
> {
    match event_verdict(e) {
        Err(m) => Err(m),
        Ok(_) => retry_verdict(
            records,
            e,
            "Intent operation event identity is already bound to another payload"@,
        ),
    }
}

/// Decides whether a later event of an operation is to be appended: only once.
pub fn append_unique_operation_event(records: &Vec<SessionStreamRecord>, event: &IntentEventV1) -> (r:
    Result<bool, KernelError>)
    ensures
        outcome(r) == step_append(records.deep_view(), event.deep_view()),
{
    event.validate_contract()?;
    decide_retry(
        records,
        event,
        "Intent operation event identity is already bound to another payload",
    )
}

/// The conflicts of a preview as events.
pub open spec fn conflict_events(
    stack_id: Seq<char>,
    stack_version: u64,
    conflicts: Seq<IntentConflictV1View>,
) -> Seq<IntentEventV1View> {
    Seq::new(
        conflicts.len(),
        |i: int|
            IntentEventV1View::ConflictRecorded {
                schema_version: INTENT_CONTRACT_SCHEMA_VERSION,
                stack_id,
                stack_version,
                conflict: conflicts[i],
            },
    )
}

/// The result of an operation that is in conflict.
pub open spec fn conflicted_event(operation_id: Seq<char>) -> IntentEventV1View {
    resolved_event(
        operation_id,
        IntentOperationResolution::Conflicted,
        None,
        None,
        Some(IntentOperationErrorCode::IntentStateConflict),
    )
}

/// The events of an operation that is in conflict.
pub open spec fn conflicted_events(preview: IntentOperationPreviewV1View) -> Seq<IntentEventV1View> {
    conflict_events(preview.stack_id, preview.stack_version, preview.conflicts).push(
        conflicted_event(preview.operation_id),
    )
}

/// The record resolves an operation.
pub open spec fn resolves_operation(id: Seq<char>) -> spec_fn(SessionStreamRecordView) -> bool {
    |r: SessionStreamRecordView|
        match intent_event_in(r) {
            Some(IntentEventV1View::OperationResolved { operation_id, .. }) => operation_id == id,
            _ => false,
        }
}

/// Decides whether the events of an operation that is in conflict are to be appended: only where the
/// operation has no result.
pub fn append_conflicted_operation(
    records: &Vec<SessionStreamRecord>,
    operation_id: &IntentOperationId,
) -> (r: bool)
    ensures
        r == !any_where(records.deep_view(), resolves_operation(operation_id.deep_view())),
{
    let ghost p = resolves_operation(operation_id.deep_view());
    !has_any(
        records,
        |r: &SessionStreamRecord| -> (b: bool)
            ensures
                b == p(r.deep_view())
            {
                match intent_event_of(r) {
                    Some(IntentEventV1::OperationResolved { operation_id: id, .. }) => id.same(
                        operation_id,
                    ),
                    _ => false,
                }
            },
        Ghost(p),
    )
}

fn make_conflicted_events(preview: &IntentOperationPreviewV1) -> (r: Vec<IntentEventV1>)
    ensures
        r.deep_view() == conflicted_events(preview.deep_view()),
{
    let ghost all = conflict_events(
        preview.deep_view().stack_id,
        preview.deep_view().stack_version,
        preview.deep_view().conflicts,
    );
    let mut r: Vec<IntentEventV1> = Vec::new();
    let mut i: usize = 0;
    while i < preview.conflicts.len()
        invariant
            i <= preview.conflicts.len(),
            all == conflict_events(
                preview.deep_view().stack_id,
                preview.deep_view().stack_version,
                preview.deep_view().conflicts,
            ),
            r.deep_view() =~= all.take(i as int),
        decreases preview.conflicts.len() - i,
    {
        let item = IntentEventV1::ConflictRecorded {
            schema_version: INTENT_CONTRACT_SCHEMA_VERSION,
            stack_id: preview.stack_id.duplicate(),
            stack_version: preview.stack_version.duplicate(),
            conflict: preview.conflicts[i].duplicate(),
        };
        assert(all[i as int] == item.deep_view());
        let ghost had = r;
        r.push(item);
        proof {
            lemma_push_view(had, item, r);
        }
        i = i + 1;
    }
    assert(r.deep_view() =~= all);
    let ghost had = r;
    let item = make_resolved_event(
        &preview.operation_id,
        IntentOperationResolution::Conflicted,
        None,
        None,
        Some(IntentOperationErrorCode::IntentStateConflict),
    );
    r.push(item);
    proof {
        lemma_push_view(had, item, r);
    }
    r
}

// The start.

/// The check that a request asks for exactly what is previewed now.
pub open spec fn drop_request_verdict(
    request: IntentDropRequestV1View,
    preview: IntentOperationPreviewV1View,
) -> Verdict {
    chain(
        check(
            request.operation_id == preview.operation_id,
            "Intent drop operation id is stale"@,
        ),
        chain(
            check(
                request.stack_version == preview.stack_version,
                "Intent drop stack version is stale"@,
            ),
            check(
                request.preview_digest == preview.preview_digest,
                "Intent drop preview digest is stale"@,
            ),
        ),
    )
}

fn validate_drop_request(request: &IntentDropRequestV1, preview: &IntentOperationPreviewV1) -> (r:
    Result<(), KernelError>)
    ensures
        verdict(r) == drop_request_verdict(request.deep_view(), preview.deep_view()),
{
    if !request.operation_id.same(&preview.operation_id) {
        return reject("Intent drop operation id is stale");
    }
    if request.stack_version.get() != preview.stack_version.get() {
        return reject("Intent drop stack version is stale");
    }
    if !request.preview_digest.same(&preview.preview_digest) {
        return reject("Intent drop preview digest is stale");
    }
    Ok(())
}

/// The mutations that a batch has applied.
pub open spec fn applied_in(o: BatchOutcomeView) -> Seq<Seq<char>> {
    match o {
        BatchOutcomeView::Applied { operation_ids, .. } => operation_ids,
        BatchOutcomeView::FullyAppliedUnfinished { operation_ids, .. } => operation_ids,
        BatchOutcomeView::Partial { applied, .. } => applied,
        BatchOutcomeView::Conflicted { applied, .. } => applied,
        BatchOutcomeView::NoBatch => Seq::empty(),
        BatchOutcomeView::Interrupted { .. } => Seq::empty(),
    }
}

/// What is reported of an operation that was settled before.
pub open spec fn settled_execution(
    records: Seq<SessionStreamRecordView>,
    op: OperationRecordView,
    end: ResolvedOperationView,
) -> Result<IntentOperationExecutionV1View, Seq<char>> {
    let committed = match op.prepared {
        None => Ok(Seq::empty()),
        Some(p) => match batch_outcome(records, op, p) {
            Ok(o) => Ok(applied_in(o)),
            Err(m) => Err(m),
        },
    };
    match committed {
        Err(m) => Err(m),
        Ok(ids) => Ok(
            IntentOperationExecutionV1View {
                preview: op.preview,
                resolution: end.resolution,
                mutation_batch_id: end.mutation_batch_id,
                committed_operation_ids: ids,
                result_snapshot_id: end.result_snapshot_id,
                error_code: end.error_code,
            },
        ),
    }
}

fn execution_from_existing(
    records: &Vec<SessionStreamRecord>,
    op: &OperationRecord,
    end: &ResolvedOperation,
) -> (r: Result<IntentOperationExecutionV1, KernelError>)
    ensures
        outcome(r) == settled_execution(records.deep_view(), op.deep_view(), end.deep_view()),
{
    let ids = match &op.prepared {
        None => {
            let none: Vec<String> = Vec::new();
            assert(none.deep_view() =~= Seq::empty());
            none
        },
        Some(p) => match find_batch_outcome(records, op, p)? {
            BatchOutcome::Applied { operation_ids, .. } => operation_ids,
            BatchOutcome::FullyAppliedUnfinished { operation_ids, .. } => operation_ids,
            BatchOutcome::Partial { applied, .. } => applied,
            BatchOutcome::Conflicted { applied, .. } => applied,
            _ => {
                let none: Vec<String> = Vec::new();
                assert(none.deep_view() =~= Seq::empty());
                none
            },
        },
    };
    Ok(
        IntentOperationExecutionV1 {
            preview: op.preview.duplicate(),
            resolution: end.resolution,
            mutation_batch_id: end.mutation_batch_id.duplicate(),
            committed_operation_ids: ids,
            result_snapshot_id: end.result_snapshot_id.duplicate(),
            error_code: end.error_code,
        },
    )
}

/// The report of a refused operation.
pub open spec fn refusal(
    preview: IntentOperationPreviewV1View,
    resolution: IntentOperationResolution,
    error_code: IntentOperationErrorCode,
) -> IntentOperationExecutionV1View {
    IntentOperationExecutionV1View {
        preview,
        resolution,
        mutation_batch_id: None,
        committed_operation_ids: Seq::empty(),
        result_snapshot_id: None,
        error_code: Some(error_code),
    }
}

fn refuse(
    preview: IntentOperationPreviewV1,
    resolution: IntentOperationResolution,
    error_code: IntentOperationErrorCode,
) -> (r: IntentOperationExecutionV1)
    ensures
        r.deep_view() == refusal(preview.deep_view(), resolution, error_code),
{
    let none: Vec<String> = Vec::new();
    assert(none.deep_view() =~= Seq::empty());
    IntentOperationExecutionV1 {
        preview,
        resolution,
        mutation_batch_id: None,
        committed_operation_ids: none,
        result_snapshot_id: None,
        error_code: Some(error_code),
    }
}

/// The file as the subject of a mutation.
pub open spec fn drop_subject(path: Seq<char>) -> MutationSubjectView {
    MutationSubjectView::File {
        path,
        portable_path: Some(path),
        normalized: true,
        file_type: FileType::File,
    }
}

/// The files as subjects of mutations.
pub open spec fn drop_subjects(files: Seq<ResolvedDropFileView>) -> Seq<MutationSubjectView> {
    Seq::new(files.len(), |i: int| drop_subject(files[i].path))
}

/// The start of the batch of a drop.
pub open spec fn drop_batch_start(
    batch_id: Seq<char>,
    resolved: ResolvedDropView,
    authority: IntentOperationAuthorityV1View,
) -> MutationBatchStartedView {
    MutationBatchStartedView {
        batch_id,
        operation_id: resolved.preview.operation_id,
        expected_subjects: drop_subjects(resolved.files),
        prepared_digest: Some(resolved.preview.preview_digest),
        approval_identity: Some(authority.approval_authority_id),
        policy_fingerprint: Some(authority.permission_policy_digest),
    }
}

/// The event that prepares a drop.
pub open spec fn drop_prepared_event(
    batch_id: Seq<char>,
    resolved: ResolvedDropView,
    authority: IntentOperationAuthorityV1View,
) -> IntentEventV1View {
    IntentEventV1View::OperationPrepared {
        schema_version: INTENT_CONTRACT_SCHEMA_VERSION,
        operation_id: resolved.preview.operation_id,
        stack_id: resolved.preview.stack_id,
        stack_version: resolved.preview.stack_version,
        preview_digest: resolved.preview.preview_digest,
        artifact_manifest_digest: resolved.artifact_manifest_digest,
        workspace_revision: resolved.preview.workspace_revision,
        permission_policy_digest: authority.permission_policy_digest,
        approval_authority_id: authority.approval_authority_id,
        expires_at_ms: authority.expires_at_ms,
        mutation_batch_id: batch_id,
    }
}

/// A drop of which nothing was done yet.
pub open spec fn drop_run(
    batch_id: Seq<char>,
    resolved: ResolvedDropView,
    authority: IntentOperationAuthorityV1View,
) -> IntentDropRunV1View {
    IntentDropRunV1View {
        preview: resolved.preview,
        files: resolved.files,
        batch_id,
        permission_policy_digest: authority.permission_policy_digest,
        approval_authority_id: authority.approval_authority_id,
        stage: if resolved.files.len() == 0 {
            DropStageV1::Applied
        } else {
            DropStageV1::Preparing
        },
        prepared: Seq::empty(),
        committed: Seq::empty(),
        failed: Seq::empty(),
        result_snapshot_id: None,
    }
}

/// What becomes of a resolved drop: conflicts and an authority that has run out refuse it.
pub open spec fn drop_start(
    batch_id: Seq<char>,
    resolved: ResolvedDropView,
    authority: IntentOperationAuthorityV1View,
    now_ms: u64,
    safe_reason: Seq<char>,
) -> IntentDropStartV1View {
    let requested = requested_event(resolved.preview, safe_reason);
    let source_frontier_sequence = resolved.source_frontier_sequence;
    if resolved.preview.conflicts.len() > 0 {
        IntentDropStartV1View::Refused {
            requested,
            source_frontier_sequence,
            events: conflicted_events(resolved.preview),
            execution: refusal(
                resolved.preview,
                IntentOperationResolution::Conflicted,
                IntentOperationErrorCode::IntentStateConflict,
            ),
        }
    } else if !authority_holds(authority, now_ms) {
        IntentDropStartV1View::Refused {
            requested,
            source_frontier_sequence,
            events: seq![
                resolved_event(
                    resolved.preview.operation_id,
                    IntentOperationResolution::Rejected,
                    None,
                    None,
                    Some(IntentOperationErrorCode::PermissionDenied),
                ),
            ],
            execution: refusal(
                resolved.preview,
                IntentOperationResolution::Rejected,
                IntentOperationErrorCode::PermissionDenied,
            ),
        }
    } else {
        IntentDropStartV1View::Apply {
            requested,
            source_frontier_sequence,
            prepared: drop_prepared_event(batch_id, resolved, authority),
            batch_start: drop_batch_start(batch_id, resolved, authority),
            run: drop_run(batch_id, resolved, authority),
        }
    }
}

fn list_subjects(files: &Vec<ResolvedDropFile>) -> (r: Vec<MutationSubject>)
    ensures
        r.deep_view() == drop_subjects(files.deep_view()),
{
    let ghost all = drop_subjects(files.deep_view());
    let mut r: Vec<MutationSubject> = Vec::new();
    let mut i: usize = 0;
    while i < files.len()
        invariant
            i <= files.len(),
            all == drop_subjects(files.deep_view()),
            r.deep_view() =~= all.take(i as int),
        decreases files.len() - i,
    {
        let item = MutationSubject::File {
            path: files[i].path.duplicate(),
            portable_path: Some(files[i].path.duplicate()),
            normalized: true,
            file_type: FileType::File,
        };
        assert(all[i as int] == item.deep_view());
        let ghost had = r;
        r.push(item);
        proof {
            lemma_push_view(had, item, r);
        }
        i = i + 1;
    }
    assert(r.deep_view() =~= all);
    r
}

/// Decides what becomes of a resolved drop.
pub(crate) fn start_drop(
    batch_id: String,
    resolved: ResolvedDrop,
    authority: &IntentOperationAuthorityV1,
    now_ms: u64,
    safe_reason: String,
) -> (r: IntentDropStartV1)
    ensures
        r.deep_view() == drop_start(
            batch_id@,
            resolved.deep_view(),
            authority.deep_view(),
            now_ms,
            safe_reason@,
        ),
{
    let requested = IntentEventV1::OperationRequested {
        schema_version: INTENT_CONTRACT_SCHEMA_VERSION,
        preview: resolved.preview.duplicate(),
        safe_reason,
    };
    let source_frontier_sequence = resolved.source_frontier_sequence;
    if resolved.preview.conflicts.len() > 0 {
        let events = make_conflicted_events(&resolved.preview);
        return IntentDropStartV1::Refused {
            requested,
            source_frontier_sequence,
            events,
            execution: refuse(
                resolved.preview,
                IntentOperationResolution::Conflicted,
                IntentOperationErrorCode::IntentStateConflict,
            ),
        };
    }
    if !authority.is_current(now_ms) {
        let mut events: Vec<IntentEventV1> = Vec::new();
        let event = make_resolved_event(
            &resolved.preview.operation_id,
            IntentOperationResolution::Rejected,
            None,
            None,
            Some(IntentOperationErrorCode::PermissionDenied),
        );
        let ghost e = event.deep_view();
        events.push(event);
        assert(events.deep_view() =~= seq![e]);
        return IntentDropStartV1::Refused {
            requested,
            source_frontier_sequence,
            events,
            execution: refuse(
                resolved.preview,
                IntentOperationResolution::Rejected,
                IntentOperationErrorCode::PermissionDenied,
            ),
        };
    }
    let prepared = IntentEventV1::OperationPrepared {
        schema_version: INTENT_CONTRACT_SCHEMA_VERSION,
        operation_id: resolved.preview.operation_id.duplicate(),
        stack_id: resolved.preview.stack_id.duplicate(),
        stack_version: resolved.preview.stack_version.duplicate(),
        preview_digest: resolved.preview.preview_digest.duplicate(),
        artifact_manifest_digest: resolved.artifact_manifest_digest.duplicate(),
        workspace_revision: resolved.preview.workspace_revision,
        permission_policy_digest: authority.permission_policy_digest().duplicate(),
        approval_authority_id: authority.approval_authority_id().duplicate(),
        expires_at_ms: authority.expires_at_ms(),
        mutation_batch_id: batch_id.duplicate(),
    };
    let batch_start = MutationBatchStarted {
        batch_id: batch_id.duplicate(),
        operation_id: resolved.preview.operation_id.as_str().to_owned(),
        expected_subjects: list_subjects(&resolved.files),
        prepared_digest: Some(resolved.preview.preview_digest.as_str().to_owned()),
        approval_identity: Some(authority.approval_authority_id().duplicate()),
        policy_fingerprint: Some(authority.permission_policy_digest().as_str().to_owned()),
    };
    let none: Vec<String> = Vec::new();
    let nothing: Vec<String> = Vec::new();
    let no_failure: Vec<String> = Vec::new();
    assert(none.deep_view() =~= Seq::empty());
    assert(nothing.deep_view() =~= Seq::empty());
    assert(no_failure.deep_view() =~= Seq::empty());
    let stage = if resolved.files.len() == 0 {
        DropStageV1::Applied
    } else {
        DropStageV1::Preparing
    };
    let run = IntentDropRunV1 {
        preview: resolved.preview,
        files: resolved.files,
        batch_id,
        permission_policy_digest: authority.permission_policy_digest().duplicate(),
        approval_authority_id: authority.approval_authority_id().duplicate(),
        stage,
        prepared: none,
        committed: nothing,
        failed: no_failure,
        result_snapshot_id: None,
    };
    IntentDropStartV1::Apply { requested, source_frontier_sequence, prepared, batch_start, run }
}

/// The intent is one whose drop now has an identity.
pub open spec fn is_named_by(
    plan: IntentPlanV1View,
    layers: IntentLayerProjectionV1View,
    dropped: Seq<IntentVersionRefView>,
    workspace_revision: u64,
    frontier: u64,
    operation_id: Seq<char>,
) -> spec_fn(IntentDefinitionV1View) -> bool {
    |d: IntentDefinitionV1View|
        drop_operation_id(
            plan,
            layers,
            dropped.contains(d.intent_ref),
            d.intent_ref,
            workspace_revision,
            frontier,
        ) == operation_id
}

/// The intent that a request speaks of.
pub open spec fn requested_target(
    s: OperationReplayView,
    admission: IntentStackProjectionV1View,
    layers: IntentLayerProjectionV1View,
    dropped: Seq<IntentVersionRefView>,
    workspace_revision: u64,
    frontier: u64,
    operation_id: Seq<char>,
) -> Option<IntentVersionRefView> {
    match find_key::<OperationRecord>(s.operations, operation_id) {
        Some(k) => Some(s.operations[k].preview.target_intents[0]),
        None => match latest_accepted(admission) {
            None => None,
            Some(accepted) => match first_where(
                accepted.plan.intents,
                is_named_by(
                    accepted.plan,
                    layers,
                    dropped,
                    workspace_revision,
                    frontier,
                    operation_id,
                ),
            ) {
                Some(i) => Some(accepted.plan.intents[i].intent_ref),
                None => None,
            },
        },
    }
}

/// What a request meets that was made before: it is bound to its preview, it may be settled, and what
/// was prepared is never replayed.
pub open spec fn earlier_request(
    records: Seq<SessionStreamRecordView>,
    s: OperationReplayView,
    request: IntentDropRequestV1View,
) -> Result<Option<IntentOperationExecutionV1View>, Seq<char>> {
    match find_key::<OperationRecord>(s.operations, request.operation_id) {
        None => Ok(None),
        Some(k) => if s.operations[k].preview.preview_digest != request.preview_digest {
            Err("Intent operation id is already bound to another preview"@)
        } else {
            match s.operations[k].resolved {
                Some(end) => match settled_execution(records, s.operations[k], end) {
                    Ok(x) => Ok(Some(x)),
                    Err(m) => Err(m),
                },
                None => if s.operations[k].prepared is Some {
                    Err("prepared Intent operation requires reconciliation and will not be replayed"@)
                } else {
                    Ok(None)
                },
            }
        },
    }
}

/// The start of a requested drop, from what the durable stream says.
pub open spec fn drop_start_from(
    records: Seq<SessionStreamRecordView>,
    admission: IntentStackProjectionV1View,
    lineage: IntentLineageProjectionV1View,
    layers: IntentLayerProjectionV1View,
    s: OperationReplayView,
    workspace_id: Seq<char>,
    workspace_revision: u64,
    contents: Seq<ArtifactContentV1View>,
    observations: Seq<DropTargetObservationV1View>,
    request: IntentDropRequestV1View,
    authority: IntentOperationAuthorityV1View,
    now_ms: u64,
    safe_reason: Seq<char>,
) -> Result<IntentDropStartV1View, Seq<char>> {
    match earlier_request(records, s, request) {
        Err(m) => Err(m),
        Ok(Some(x)) => Ok(IntentDropStartV1View::Settled(x)),
        Ok(None) => {
            let dropped = operation_projection_of(records, s).dropped_intents;
            match requested_target(
                s,
                admission,
                layers,
                dropped,
                workspace_revision,
                frontier_of(records),
                request.operation_id,
            ) {
                None => Err("Intent drop request references an unknown operation"@),
                Some(target) => match drop_from_parts(
                    frontier_of(records),
                    workspace_id,
                    workspace_revision,
                    contents,
                    observations,
                    admission,
                    lineage,
                    layers,
                    dropped,
                    target,
                ) {
                    Err(m) => Err(m),
                    Ok(resolved) => yields(
                        drop_request_verdict(request, resolved.preview),
                        drop_start(
                            drop_batch_id(request.operation_id),
                            resolved,
                            authority,
                            now_ms,
                            safe_reason,
                        ),
                    ),
                },
            }
        },
    }
}

/// The start of a requested drop of a session.
pub open spec fn session_drop_start(
    session: SessionView,
    workspace_id: Seq<char>,
    workspace_revision: u64,
    contents: Option<Seq<ArtifactContentV1View>>,
    observations: Seq<DropTargetObservationV1View>,
    request: IntentDropRequestV1View,
    authority: IntentOperationAuthorityV1View,
    now_ms: u64,
    safe_reason: Seq<char>,
) -> Result<IntentDropStartV1View, Seq<char>> {
    if is_blank(safe_reason) || byte_len(safe_reason) > MAX_INTENT_REASON_BYTES {
        Err("intent drop reason is empty or too long"@)
    } else {
        match (session.durable_records, contents) {
            (None, _) => Err("Intent drop requires a durable session"@),
            (_, None) => Err("Intent drop requires mutation artifacts"@),
            (Some(records), Some(stored)) => match stack_of(records) {
                Err(m) => Err(m),
                Ok(admission) => match lineage_of(records, admission, session.tasks) {
                    Err(m) => Err(m),
                    Ok(lineage) => match readable_layers(records, admission, lineage, stored) {
                        Err(m) => Err(m),
                        Ok(layers) => match replay_of(records, admission, layers) {
                            Err(m) => Err(m),
                            Ok(s) => drop_start_from(
                                records,
                                admission,
                                lineage,
                                layers,
                                s,
                                workspace_id,
                                workspace_revision,
                                stored,
                                observations,
                                request,
                                authority,
                                now_ms,
                                safe_reason,
                            ),
                        },
                    },
                },
            },
        }
    }
}

fn find_target(
    s: &OperationReplay,
    admission: &IntentStackProjectionV1,
    layers: &IntentLayerProjectionV1,
    dropped: &Vec<IntentVersionRef>,
    workspace_revision: u64,
    frontier: u64,
    operation_id: &IntentOperationId,
) -> (r: Option<IntentVersionRef>)
    requires
        single_targets(s.deep_view().operations),
    ensures
        r.deep_view() == requested_target(
            s.deep_view(),
            admission.deep_view(),
            layers.deep_view(),
            dropped.deep_view(),
            workspace_revision,
            frontier,
            operation_id.deep_view(),
        ),
{
    if let Some(k) = position_by_key(&s.operations, operation_id.as_str()) {
        assert(s.operations.deep_view()[k as int] == s.operations@[k as int].deep_view());
        assert(s.deep_view().operations[k as int].preview.target_intents.len() == 1);
        let targets = &s.operations[k].preview.target_intents;
        assert(targets.deep_view()[0] == targets@[0].deep_view());
        return Some(targets[0].duplicate());
    }
    let accepted = match admission.latest_accepted_plan() {
        None => {
            return None;
        },
        Some(accepted) => accepted,
    };
    let ghost p = is_named_by(
        accepted.plan.deep_view(),
        layers.deep_view(),
        dropped.deep_view(),
        workspace_revision,
        frontier,
        operation_id.deep_view(),
    );
    let found = find_first(
        &accepted.plan.intents,
        |d: &IntentDefinitionV1| -> (b: bool)
            ensures
                b == p(d.deep_view())
            {
                let id = operation_id_for_preview_target(
                    &accepted.plan,
                    layers,
                    holds(dropped, &d.intent_ref),
                    &d.intent_ref,
                    workspace_revision,
                    frontier,
                );
                id.same(operation_id)
            },
        Ghost(p),
    );
    match found {
        Some(i) => {
            assert(accepted.plan.intents.deep_view()[i as int]
                == accepted.plan.intents@[i as int].deep_view());
            Some(accepted.plan.intents[i].intent_ref.duplicate())
        },
        None => None,
    }
}

fn find_earlier_request(
    records: &Vec<SessionStreamRecord>,
    s: &OperationReplay,
    request: &IntentDropRequestV1,
) -> (r: Result<Option<IntentOperationExecutionV1>, KernelError>)
    ensures
        outcome(r) == earlier_request(records.deep_view(), s.deep_view(), request.deep_view()),
{
    let k = match position_by_key(&s.operations, request.operation_id.as_str()) {
        None => {
            return Ok(None);
        },
        Some(k) => k,
    };
    assert(s.operations.deep_view()[k as int] == s.operations@[k as int].deep_view());
    let op = &s.operations[k];
    if !op.preview.preview_digest.same(&request.preview_digest) {
        return Err(KernelError::new("Intent operation id is already bound to another preview"));
    }
    match &op.resolved {
        Some(end) => {
            let x = execution_from_existing(records, op, end)?;
            Ok(Some(x))
        },
        None => {
            if op.prepared.is_some() {
                return Err(
                    KernelError::new(
                        "prepared Intent operation requires reconciliation and will not be replayed",
                    ),
                );
            }
            Ok(None)
        },
    }
}

/// Every replayed operation has one target.
pub(crate) proof fn lemma_replayed_targets_are_single(
    records: Seq<SessionStreamRecordView>,
    admission: IntentStackProjectionV1View,
    layers: IntentLayerProjectionV1View,
)
    ensures
        replay_of(records, admission, layers) matches Ok(s) ==> single_targets(s.operations),
{
    if let Ok(s) = replay_of(records, admission, layers) {
        if latest_accepted(admission) is Some {
            lemma_targets_stay_single(records, admission, layers, records.len() as int);
            let before = operations_after(
                records,
                admission,
                layers,
                records.len() as int,
            )->Ok_0.operations;
            lemma_in_order(before, operation_order());
            assert forall|i: int| 0 <= i < s.operations.len() implies (
            #[trigger] s.operations[i]).preview.target_intents.len() == 1 by {
                let op = s.operations[i];
                assert(s.operations.contains(op));
                vstd::seq_lib::to_multiset_contains(s.operations, op);
                vstd::seq_lib::to_multiset_contains(before, op);
                let k = choose|k: int| 0 <= k < before.len() && before[k] == op;
                assert(before[k].preview.target_intents.len() == 1);
            }
        }
    }
}

/// Decides how a requested drop starts. The observations tell what was found of the files while the
/// workspace was held.
pub fn execute_intent_drop(
    session: &Session,
    workspace_id: &str,
    workspace_revision: u64,
    contents: Option<&Vec<ArtifactContentV1>>,
    observations: &Vec<DropTargetObservationV1>,
    request: &IntentDropRequestV1,
    authority: &IntentOperationAuthorityV1,
    now_ms: u64,
    safe_reason: String,
) -> (r: Result<IntentDropStartV1, KernelError>)
    ensures
        outcome(r) == session_drop_start(
            session.deep_view(),
            workspace_id@,
            workspace_revision,
            contents.deep_view(),
            observations.deep_view(),
            request.deep_view(),
            authority.deep_view(),
            now_ms,
            safe_reason@,
        ),
{
    if blank(safe_reason.as_str()) || byte_length(safe_reason.as_str()) > MAX_INTENT_REASON_BYTES {
        return Err(KernelError::new("intent drop reason is empty or too long"));
    }
    let records = match &session.durable_records {
        None => {
            return Err(KernelError::new("Intent drop requires a durable session"));
        },
        Some(records) => records,
    };
    let stored = match contents {
        None => {
            return Err(KernelError::new("Intent drop requires mutation artifacts"));
        },
        Some(stored) => stored,
    };
    let admission = IntentStackProjectionV1::from_records(records)?;
    let lineage = IntentLineageProjectionV1::from_records(records, &admission, &session.tasks)?;
    let mut layers = IntentLayerProjectionV1::from_records(records, &admission, &lineage)?;
    layers.refresh_artifact_availability(stored);
    let s = replay_operations(records, &admission, &layers)?;
    proof {
        lemma_replayed_targets_are_single(
            records.deep_view(),
            admission.deep_view(),
            layers.deep_view(),
        );
    }
    if let Some(x) = find_earlier_request(records, &s, request)? {
        return Ok(IntentDropStartV1::Settled(x));
    }
    let shown = public_projection(records, &s);
    let frontier = frontier_sequence(records);
    let target = match find_target(
        &s,
        &admission,
        &layers,
        shown.dropped_intents(),
        workspace_revision,
        frontier,
        &request.operation_id,
    ) {
        None => {
            return Err(KernelError::new("Intent drop request references an unknown operation"));
        },
        Some(target) => target,
    };
    let resolved = resolve_drop_from_parts(
        frontier,
        workspace_id,
        workspace_revision,
        stored,
        observations,
        &admission,
        &lineage,
        &layers,
        shown.dropped_intents(),
        &target,
    )?;
    match validate_drop_request(request, &resolved.preview) {
        Ok(_) => Ok(
            start_drop(
                intent_drop_batch_id(&request.operation_id),
                resolved,
                authority,
                now_ms,
                safe_reason,
            ),
        ),
        Err(e) => Err(e),
    }
}

// The run.

/// The end of the batch of a drop.
pub open spec fn drop_batch_end(
    p: IntentDropRunV1View,
    status: MutationBatchStatus,
) -> MutationBatchFinishedView {
    MutationBatchFinishedView {
        batch_id: p.batch_id,
        status,
        committed_operations: p.committed,
        failed_operations: p.failed,
        prepared_digest: Some(p.preview.preview_digest),
        approval_identity: Some(p.approval_authority_id),
        policy_fingerprint: Some(p.permission_policy_digest),
    }
}

/// How a drop ends.
pub open spec fn drop_end(
    p: IntentDropRunV1View,
    status: MutationBatchStatus,
    resolution: IntentOperationResolution,
    error_code: Option<IntentOperationErrorCode>,
) -> IntentDropEndV1View {
    IntentDropEndV1View {
        batch_end: drop_batch_end(p, status),
        resolved: resolved_event(
            p.preview.operation_id,
            resolution,
            Some(p.batch_id),
            p.result_snapshot_id,
            error_code,
        ),
        execution: IntentOperationExecutionV1View {
            preview: p.preview,
            resolution,
            mutation_batch_id: Some(p.batch_id),
            committed_operation_ids: p.committed,
            result_snapshot_id: p.result_snapshot_id,
            error_code,
        },
    }
}

/// How a drop ends that failed: as interrupted where nothing was committed, else as partially applied.
pub open spec fn failed_drop_end(p: IntentDropRunV1View) -> IntentDropEndV1View {
    if p.committed.len() == 0 {
        drop_end(
            p,
            MutationBatchStatus::Failed,
            IntentOperationResolution::Interrupted,
            Some(IntentOperationErrorCode::ReconciliationRequired),
        )
    } else {
        drop_end(
            p,
            MutationBatchStatus::PartiallyApplied,
            IntentOperationResolution::PartiallyApplied,
            Some(IntentOperationErrorCode::PartialApplication),
        )
    }
}

/// The next step of a drop.
pub open spec fn drop_next(p: IntentDropRunV1View) -> Result<DropActionV1View, Seq<char>> {
    match p.stage {
        DropStageV1::Preparing => Ok(DropActionV1View::PrepareFile(p.prepared.len() as usize)),
        DropStageV1::Committing => Ok(DropActionV1View::CommitFile(p.committed.len() as usize)),
        DropStageV1::Reconciling => Ok(DropActionV1View::ReconcileFile(p.committed.len() as usize)),
        DropStageV1::Failed => Ok(DropActionV1View::Finish(failed_drop_end(p))),
        DropStageV1::Applied => if p.result_snapshot_id is None {
            Err("Intent drop completed without a result snapshot"@)
        } else {
            Ok(
                DropActionV1View::Finish(
                    drop_end(
                        p,
                        MutationBatchStatus::Applied,
                        IntentOperationResolution::Committed,
                        None,
                    ),
                ),
            )
        },
    }
}

/// The mutation of the file that is being committed.
pub open spec fn current_mutation(p: IntentDropRunV1View) -> Seq<char> {
    if p.committed.len() < p.prepared.len() {
        p.prepared[p.committed.len() as int]
    } else {
        Seq::empty()
    }
}

/// A drop after what came of its last step. What does not answer that step changes nothing.
pub open spec fn drop_after(p: IntentDropRunV1View, e: DropEventV1View) -> IntentDropRunV1View {
    match (p.stage, e) {
        (DropStageV1::Preparing, DropEventV1View::Prepared { operation_id }) => {
            IntentDropRunV1View {
                prepared: p.prepared.push(operation_id),
                stage: if p.prepared.len() + 1 >= p.files.len() {
                    DropStageV1::Committing
                } else {
                    DropStageV1::Preparing
                },
                ..p
            }
        },
        (DropStageV1::Preparing, DropEventV1View::PrepareFailed) => IntentDropRunV1View {
            failed: p.prepared,
            stage: DropStageV1::Failed,
            ..p
        },
        (
            DropStageV1::Committing,
            DropEventV1View::Committed { operation_id, workspace_snapshot_id },
        ) => IntentDropRunV1View {
            committed: p.committed.push(operation_id),
            result_snapshot_id: Some(workspace_snapshot_id),
            stage: if p.committed.len() + 1 >= p.files.len() {
                DropStageV1::Applied
            } else {
                DropStageV1::Committing
            },
            ..p
        },
        (DropStageV1::Committing, DropEventV1View::CommitFailed) => IntentDropRunV1View {
            stage: DropStageV1::Reconciling,
            ..p
        },
        (
            DropStageV1::Reconciling,
            DropEventV1View::Reconciled { resolution, workspace_snapshot_id },
        ) => {
            let own = current_mutation(p);
            if resolution == MutationResolution::MarkCommitted {
                IntentDropRunV1View {
                    committed: p.committed.push(own),
                    result_snapshot_id: workspace_snapshot_id,
                    failed: seq![own],
                    stage: DropStageV1::Failed,
                    ..p
                }
            } else {
                IntentDropRunV1View { failed: seq![own], stage: DropStageV1::Failed, ..p }
            }
        },
        _ => p,
    }
}

impl IntentDropRunV1 {
    fn end(
        &self,
        status: MutationBatchStatus,
        resolution: IntentOperationResolution,
        error_code: Option<IntentOperationErrorCode>,
    ) -> (r: IntentDropEndV1)
        ensures
            r.deep_view() == drop_end(self.deep_view(), status, resolution, error_code),
    {
        IntentDropEndV1 {
            batch_end: MutationBatchFinished {
                batch_id: self.batch_id.duplicate(),
                status,
                committed_operations: self.committed.duplicate(),
                failed_operations: self.failed.duplicate(),
                prepared_digest: Some(self.preview.preview_digest.as_str().to_owned()),
                approval_identity: Some(self.approval_authority_id.duplicate()),
                policy_fingerprint: Some(self.permission_policy_digest.as_str().to_owned()),
            },
            resolved: make_resolved_event(
                &self.preview.operation_id,
                resolution,
                Some(self.batch_id.duplicate()),
                self.result_snapshot_id.duplicate(),
                error_code,
            ),
            execution: IntentOperationExecutionV1 {
                preview: self.preview.duplicate(),
                resolution,
                mutation_batch_id: Some(self.batch_id.duplicate()),
                committed_operation_ids: self.committed.duplicate(),
                result_snapshot_id: self.result_snapshot_id.duplicate(),
                error_code,
            },
        }
    }

    /// The next step of the drop.
    pub fn next_action(&self) -> (r: Result<DropActionV1, KernelError>)
        ensures
            outcome(r) == drop_next(self.deep_view()),
    {
        match self.stage {
            DropStageV1::Preparing => Ok(DropActionV1::PrepareFile(self.prepared.len())),
            DropStageV1::Committing => Ok(DropActionV1::CommitFile(self.committed.len())),
            DropStageV1::Reconciling => Ok(DropActionV1::ReconcileFile(self.committed.len())),
            DropStageV1::Failed => {
                if self.committed.len() == 0 {
                    Ok(
                        DropActionV1::Finish(
                            self.end(
                                MutationBatchStatus::Failed,
                                IntentOperationResolution::Interrupted,
                                Some(IntentOperationErrorCode::ReconciliationRequired),
                            ),
                        ),
                    )
                } else {
                    Ok(
                        DropActionV1::Finish(
                            self.end(
                                MutationBatchStatus::PartiallyApplied,
                                IntentOperationResolution::PartiallyApplied,
                                Some(IntentOperationErrorCode::PartialApplication),
                            ),
                        ),
                    )
                }
            },
            DropStageV1::Applied => {
                if self.result_snapshot_id.is_none() {
                    return Err(KernelError::new("Intent drop completed without a result snapshot"));
                }
                Ok(
                    DropActionV1::Finish(
                        self.end(
                            MutationBatchStatus::Applied,
                            IntentOperationResolution::Committed,
                            None,
                        ),
                    ),
                )
            },
        }
    }

    /// Takes what came of the last step. What does not answer that step changes nothing.
    pub fn on_event(&mut self, event: DropEventV1)
        ensures
            final(self).deep_view() == drop_after(old(self).deep_view(), event.deep_view()),
    {
        match (self.stage, event) {
            (DropStageV1::Preparing, DropEventV1::Prepared { operation_id }) => {
                let ghost had = self.prepared;
                self.prepared.push(operation_id);
                proof {
                    lemma_push_view(had, operation_id, self.prepared);
                }
                self.stage = if self.prepared.len() >= self.files.len() {
                    DropStageV1::Committing
                } else {
                    DropStageV1::Preparing
                };
            },
            (DropStageV1::Preparing, DropEventV1::PrepareFailed) => {
                self.failed = self.prepared.duplicate();
                self.stage = DropStageV1::Failed;
            },
            (
                DropStageV1::Committing,
                DropEventV1::Committed { operation_id, workspace_snapshot_id },
            ) => {
                let ghost had = self.committed;
                self.committed.push(operation_id);
                proof {
                    lemma_push_view(had, operation_id, self.committed);
                }
                self.result_snapshot_id = Some(workspace_snapshot_id);
                self.stage = if self.committed.len() >= self.files.len() {
                    DropStageV1::Applied
                } else {
                    DropStageV1::Committing
                };
            },
            (DropStageV1::Committing, DropEventV1::CommitFailed) => {
                self.stage = DropStageV1::Reconciling;
            },
            (
                DropStageV1::Reconciling,
                DropEventV1::Reconciled { resolution, workspace_snapshot_id },
            ) => {
                let own = if self.committed.len() < self.prepared.len() {
                    let k: usize = self.committed.len();
                    self.prepared[k].duplicate()
                } else {
                    let none = String::new();
                    assert(none@ =~= Seq::empty());
                    none
                };
                let mut failed: Vec<String> = Vec::new();
                failed.push(own.duplicate());
                assert(failed.deep_view() =~= seq![own@]);
                self.failed = failed;
                if resolution == MutationResolution::MarkCommitted {
                    let ghost had = self.committed;
                    self.committed.push(own);
                    proof {
                        lemma_push_view(had, own, self.committed);
                    }
                    self.result_snapshot_id = workspace_snapshot_id;
                }
                self.stage = DropStageV1::Failed;
            },
            _ => {},
        }
    }
}

// Laws.

/// What holds of a drop at every step.
pub open spec fn run_is_sound(p: IntentDropRunV1View) -> bool {
    match p.stage {
        DropStageV1::Preparing => p.prepared.len() < p.files.len() && p.committed.len() == 0
            && p.result_snapshot_id is None && p.failed.len() == 0,
        DropStageV1::Committing => p.prepared.len() == p.files.len() && p.committed.len()
            < p.files.len() && p.failed.len() == 0,
        DropStageV1::Reconciling => p.prepared.len() == p.files.len() && p.committed.len()
            < p.files.len() && p.failed.len() == 0,
        DropStageV1::Failed => p.committed.len() <= p.files.len() && (p.committed.len() > 0
            ==> p.prepared.len() == p.files.len()),
        DropStageV1::Applied => p.prepared.len() == p.files.len() && p.committed.len()
            == p.files.len() && p.result_snapshot_id is Some && p.failed.len() == 0,
    }
}

/// A drop that is to be applied starts soundly: it has files, and nothing was done to them.
pub proof fn law_drops_start_soundly(
    frontier: u64,
    workspace_revision: u64,
    contents: Seq<ArtifactContentV1View>,
    observations: Seq<DropTargetObservationV1View>,
    plan: IntentPlanV1View,
    lineage: IntentLineageProjectionV1View,
    layers: IntentLayerProjectionV1View,
    dropped: Seq<IntentVersionRefView>,
    intent_ref: IntentVersionRefView,
    batch_id: Seq<char>,
    authority: IntentOperationAuthorityV1View,
    now_ms: u64,
    safe_reason: Seq<char>,
)
    ensures
        drop_start(
            batch_id,
            drop_of(
                frontier,
                workspace_revision,
                contents,
                observations,
                plan,
                lineage,
                layers,
                dropped,
                intent_ref,
            ),
            authority,
            now_ms,
            safe_reason,
        ) matches IntentDropStartV1View::Apply { run, .. } ==> run_is_sound(run),
{
    let resolved = drop_of(
        frontier,
        workspace_revision,
        contents,
        observations,
        plan,
        lineage,
        layers,
        dropped,
        intent_ref,
    );
    if resolved.preview.conflicts.len() == 0 {
        lemma_drops_without_conflicts_have_files(
            frontier,
            workspace_revision,
            contents,
            observations,
            plan,
            lineage,
            layers,
            dropped,
            intent_ref,
        );
    }
}

/// Every step keeps a drop sound.
pub proof fn law_drops_stay_sound(p: IntentDropRunV1View, e: DropEventV1View)
    requires
        run_is_sound(p),
    ensures
        run_is_sound(drop_after(p, e)),
{
}

/// No file is changed before every file is prepared, and each step is one on a file of the drop.
pub proof fn law_files_are_prepared_before_any_is_changed(p: IntentDropRunV1View)
    requires
        run_is_sound(p),
    ensures
        match drop_next(p) {
            Ok(DropActionV1View::PrepareFile(i)) => p.prepared.len() < p.files.len(),
            Ok(DropActionV1View::CommitFile(i)) => p.prepared.len() == p.files.len()
                && p.committed.len() < p.files.len(),
            Ok(DropActionV1View::ReconcileFile(i)) => p.prepared.len() == p.files.len()
                && p.committed.len() < p.files.len(),
            Ok(DropActionV1View::Finish(_)) => true,
            Err(_) => false,
        },
{
}

/// A drop is reported as committed only where every file was committed, and then the end of its batch
/// tells that all of them are applied.
pub proof fn law_committed_drops_are_complete(p: IntentDropRunV1View)
    requires
        run_is_sound(p),
    ensures
        drop_next(p) matches Ok(DropActionV1View::Finish(end)) ==> (end.execution.resolution
            == IntentOperationResolution::Committed ==> end.execution.committed_operation_ids.len()
            == p.files.len() && end.execution.result_snapshot_id is Some
            && end.batch_end.status == MutationBatchStatus::Applied
            && end.batch_end.failed_operations.len() == 0),
        drop_next(p) matches Ok(DropActionV1View::Finish(end)) ==> (end.execution.resolution
            != IntentOperationResolution::Committed ==> end.batch_end.status
            != MutationBatchStatus::Applied && end.execution.error_code is Some),
{
}

/// Appending an event a second time appends nothing.
pub proof fn law_events_are_appended_once(
    records: Seq<SessionStreamRecordView>,
    record: SessionStreamRecordView,
    e: IntentEventV1View,
)
    requires
        step_append(records, e) == Ok::<bool, Seq<char>>(true),
        intent_event_in(record) == Some(e),
        operation_id_in(e) is Some,
    ensures
        step_append(records.push(record), e) == Ok::<bool, Seq<char>>(false),
{
    let all = records.push(record);
    assert(all.drop_last() =~= records);
    assert(all.last() == record);
}

/// A request that was made before is never run again: where its operation ended, what the stream tells
/// of the end is the answer, whatever the workspace holds by now, and where it was prepared and has no
/// end, it is refused.
pub proof fn law_requests_are_never_run_again(
    records: Seq<SessionStreamRecordView>,
    admission: IntentStackProjectionV1View,
    lineage: IntentLineageProjectionV1View,
    layers: IntentLayerProjectionV1View,
    s: OperationReplayView,
    workspace_id: Seq<char>,
    workspace_revision: u64,
    contents: Seq<ArtifactContentV1View>,
    observations: Seq<DropTargetObservationV1View>,
    request: IntentDropRequestV1View,
    authority: IntentOperationAuthorityV1View,
    now_ms: u64,
    safe_reason: Seq<char>,
    k: int,
)
    requires
        find_key::<OperationRecord>(s.operations, request.operation_id) == Some(k),
        s.operations[k].prepared is Some || s.operations[k].resolved is Some,
    ensures
        drop_start_from(
            records,
            admission,
            lineage,
            layers,
            s,
            workspace_id,
            workspace_revision,
            contents,
            observations,
            request,
            authority,
            now_ms,
            safe_reason,
        ) == if s.operations[k].preview.preview_digest != request.preview_digest {
            Err("Intent operation id is already bound to another preview"@)
        } else {
            match s.operations[k].resolved {
                None => Err(
                    "prepared Intent operation requires reconciliation and will not be replayed"@,
                ),
                Some(end) => match settled_execution(records, s.operations[k], end) {
                    Ok(x) => Ok(IntentDropStartV1View::Settled(x)),
                    Err(m) => Err(m),
                },
            }
        },
{
}

/// What is recorded of a drop that may be applied is what a replay accepts: its request right behind
/// the records that it was resolved from, and then that it was prepared.
pub proof fn law_started_drops_are_accepted(
    admission: IntentStackProjectionV1View,
    lineage: IntentLineageProjectionV1View,
    layers: IntentLayerProjectionV1View,
    s: OperationReplayView,
    frontier: u64,
    workspace_id: Seq<char>,
    workspace_revision: u64,
    contents: Seq<ArtifactContentV1View>,
    observations: Seq<DropTargetObservationV1View>,
    intent_ref: IntentVersionRefView,
    resolved: ResolvedDropView,
    authority: IntentOperationAuthorityV1View,
    batch_id: Seq<char>,
    prepared_sequence: u64,
)
    requires
        frontier < u64::MAX,
        all_where(layers.layers, is_complete_by(frontier)),
        sound_stack(admission),
        latest_accepted(admission) matches Some(accepted) && accepted.accepted_stream_sequence
            <= frontier,
        drop_from_parts(
            frontier,
            workspace_id,
            workspace_revision,
            contents,
            observations,
            admission,
            lineage,
            layers,
            s.dropped,
            intent_ref,
        ) == Ok::<_, Seq<char>>(resolved),
        resolved.preview.conflicts.len() == 0,
        find_key::<OperationRecord>(s.operations, resolved.preview.operation_id) is None,
        next_number(frontier) < prepared_sequence,
    ensures
        after_request(admission, layers, s, next_number(frontier), resolved.preview) matches Ok(a)
            && (after_prepare(
            layers,
            a,
            prepared_sequence,
            drop_prepared_event(batch_id, resolved, authority),
        ) matches Ok(b) && b.operations.len() == s.operations.len() + 1 && b.operations.last()
            == prepared_operation(
            a.operations.last(),
            PreparedOperationView {
                preview_digest: resolved.preview.preview_digest,
                permission_policy_digest: authority.permission_policy_digest,
                approval_authority_id: authority.approval_authority_id,
                mutation_batch_id: batch_id,
            },
            prepared_sequence,
        )),
{
    let accepted = latest_accepted(admission)->0;
    lemma_latest_version(admission);
    law_previewed_drops_can_be_requested(
        frontier,
        workspace_revision,
        contents,
        observations,
        accepted.plan,
        lineage,
        layers,
        s.dropped,
        intent_ref,
    );
    law_drops_without_conflicts_are_exact(
        frontier,
        workspace_revision,
        contents,
        observations,
        accepted.plan,
        lineage,
        layers,
        s.dropped,
        intent_ref,
    );
    let id = resolved.preview.operation_id;
    let a = after_request(admission, layers, s, next_number(frontier), resolved.preview)->Ok_0;
    let n = s.operations.len() as int;
    lemma_find_key::<OperationRecord>(s.operations, id);
    lemma_find_key::<OperationRecord>(a.operations, id);
    assert(a.operations[n].preview.operation_id == id);
    assert forall|j: int| 0 <= j < n implies a.operations[j] == #[trigger] s.operations[j] by {}
    assert(find_key::<OperationRecord>(a.operations, id) == Some(n));
}

/// However a drop ends, a replay accepts what is recorded of its end, and a drop that is committed has
/// its intents dropped from then on.
pub proof fn law_ended_drops_are_accepted(
    s: OperationReplayView,
    k: int,
    p: IntentDropRunV1View,
    end: IntentDropEndV1View,
    sequence: u64,
)
    requires
        find_key::<OperationRecord>(s.operations, p.preview.operation_id) == Some(k),
        s.operations[k].prepared matches Some(x) && x.mutation_batch_id == p.batch_id,
        s.operations[k].resolved is None,
        s.operations[k].requested_sequence < sequence,
        s.operations[k].preview == p.preview,
        drop_next(p) == Ok::<_, Seq<char>>(DropActionV1View::Finish(end)),
    ensures
        after_result(s, sequence, end.resolved) matches Ok(t) && t.operations[k].resolved == Some(
            ResolvedOperationView {
                resolution: end.execution.resolution,
                mutation_batch_id: end.execution.mutation_batch_id,
                result_snapshot_id: end.execution.result_snapshot_id,
                error_code: end.execution.error_code,
            },
        ) && (end.execution.resolution == IntentOperationResolution::Committed ==> forall|i: int|
            0 <= i < p.preview.target_intents.len() ==> t.dropped.contains(
                #[trigger] p.preview.target_intents[i],
            )),
{
    lemma_find_key::<OperationRecord>(s.operations, p.preview.operation_id);
    assert forall|i: int| 0 <= i < p.preview.target_intents.len() implies with_new(
        s.dropped,
        p.preview.target_intents,
    ).contains(#[trigger] p.preview.target_intents[i]) by {
        lemma_with_new_members(s.dropped, p.preview.target_intents, p.preview.target_intents[i]);
    }
}

} // verus!
