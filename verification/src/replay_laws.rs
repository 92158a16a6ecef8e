//! What a replay takes of executions, change sets, evidence and operations, and what it makes of
//! them; and which paths a checkpoint leaves alone.

use vstd::prelude::*;

use crate::batch_evidence::{batch_outcome, ends_batch, has_evidence};
use crate::intent::{
    IntentCriterionEvidenceLevel, IntentCriterionEvidenceV1View, IntentEventV1View,
    IntentExecutionBindingV1View, IntentExecutionOriginV1View, IntentOperationFileSummaryV1View,
    IntentOperationKind, IntentOperationPreviewV1View, IntentOperationResolution, IntentPlanV1View,
    IntentVersionRefView,
};
use crate::intent_admission::plan_refs;
use crate::intent_layer::latest_layer;
use crate::intent_lineage::{
    after_changesets, bound_execution, bound_verdict, linked_verdict, system_verdict, with_parent,
    IntentLineageProjectionV1View,
};
use crate::intent_operation::{
    after_prepare, after_request, after_result, effects_fit, is_leaf, terminal_verdict,
    OperationReplayView,
};
use crate::intent_stack::{
    accepted_for_intent, accepted_version, stack_of, IntentStackProjectionV1View,
};
use crate::intent_state::{
    BatchOutcomeView, OperationRecord, OperationRecordView, EffectiveIntentArtifactV1View,
    IntentExecutionLineageV1, IntentExecutionLineageV1View, IntentLayerProjectionV1View,
    IntentLayerStateV1View, IntentLineageReadOnlyReasonV1, ParentLineageView,
};
use crate::layer_laws::is_of_file;
use crate::lineage_facts::{
    chat_parent_lineage, execution_source_verdict, proposal, receipt_from, system_evidence_verdict,
    task_parent_lineage,
};
use crate::operation_recovery::{held_paths, hunk_paths, later_paths};
use crate::records::{RecordBodyView, SessionStreamRecordView, TaskStateProjectionView};
use crate::search::{any_where, first_where, lemma_first_where};
use crate::source_laws::{is_first, is_nowhere};
use crate::value::{find_key, lemma_all_pass, lemma_find_key};

verus! {

// Lineage.

/// A plan holds an intent.
pub open spec fn has_intent(plan: IntentPlanV1View, x: IntentVersionRefView) -> bool {
    exists|i: int| 0 <= i < plan.intents.len() && (#[trigger] plan.intents[i]).intent_ref == x
}

pub(crate) proof fn lemma_has_intent(plan: IntentPlanV1View, x: IntentVersionRefView)
    ensures
        plan_refs(plan).contains(x) == has_intent(plan, x),
{
    let refs = plan_refs(plan);
    if refs.contains(x) {
        let i = choose|i: int| 0 <= i < refs.len() && refs[i] == x;
        assert(plan.intents[i].intent_ref == x);
    }
    if has_intent(plan, x) {
        let i = choose|i: int| 0 <= i < plan.intents.len() && (#[trigger] plan.intents[i]).intent_ref == x;
        assert(refs[i] == x);
    }
}

/// An execution is bound if and only if its plan was accepted before, is of its stack and holds its
/// intent, what it comes from is proven, and no execution has its identity. It has then changed
/// nothing yet.
pub proof fn law_executions_are_bound_exactly(
    records: Seq<SessionStreamRecordView>,
    admission: IntentStackProjectionV1View,
    tasks: TaskStateProjectionView,
    executions: Seq<IntentExecutionLineageV1View>,
    record: SessionStreamRecordView,
    stack_id: Seq<char>,
    stack_version: u64,
    binding: IntentExecutionBindingV1View,
)
    ensures
        bound_verdict(
            records,
            admission,
            tasks,
            executions,
            record,
            stack_id,
            stack_version,
            binding,
        ) is Ok <==> {
            &&& accepted_version(admission, stack_version) matches Some(accepted)
            &&& stack_id == accepted.plan.stack_id
            &&& accepted.accepted_stream_sequence < record.stream_sequence
            &&& has_intent(accepted.plan, binding.intent_ref)
            &&& execution_source_verdict(records, tasks, binding, accepted) is Ok
            &&& forall|i: int|
                0 <= i < executions.len() ==> (#[trigger] executions[i]).binding.execution_id
                    != binding.execution_id
        },
        ({
            let x = bound_execution(stack_version, binding, record);
            &&& x.stack_version == stack_version
            &&& x.binding == binding
            &&& x.binding_event_id == record.event_id
            &&& x.binding_stream_sequence == record.stream_sequence
            &&& x.changeset_ids.len() == 0
            &&& x.parent_mutation_event_id is None
            &&& x.parent_snapshot_id is None
            &&& x.read_only_reason is None
        }),
{
    lemma_find_key::<IntentExecutionLineageV1>(executions, binding.execution_id);
    if let Some(accepted) = accepted_version(admission, stack_version) {
        lemma_has_intent(accepted.plan, binding.intent_ref);
    }
    match find_key::<IntentExecutionLineageV1>(executions, binding.execution_id) {
        Some(i) => {
            assert(executions[i].binding.execution_id == binding.execution_id);
        },
        None => {},
    }
}

/// Change sets are bound to the first execution of an identity if and only if it is one of their
/// intent, has none yet, and all of them were proposed. Nothing else changes.
pub proof fn law_change_sets_are_bound_exactly(
    records: Seq<SessionStreamRecordView>,
    executions: Seq<IntentExecutionLineageV1View>,
    intent_ref: IntentVersionRefView,
    execution_id: Seq<char>,
    ids: Seq<Seq<char>>,
    k: int,
)
    requires
        0 <= k < executions.len(),
        executions[k].binding.execution_id == execution_id,
        forall|j: int|
            0 <= j < k ==> (#[trigger] executions[j]).binding.execution_id != execution_id,
    ensures
        ({
            let r = after_changesets(records, executions, intent_ref, execution_id, ids);
            &&& r is Ok <==> executions[k].binding.intent_ref == intent_ref
                && executions[k].changeset_ids.len() == 0 && forall|i: int|
                0 <= i < ids.len() ==> proposal(records, #[trigger] ids[i]) is Some
            &&& r matches Ok(after) ==> {
                &&& after.len() == executions.len()
                &&& after[k] == (IntentExecutionLineageV1View { changeset_ids: ids, ..executions[k] })
                &&& forall|j: int|
                    0 <= j < after.len() && j != k ==> #[trigger] after[j] == executions[j]
            }
        }),
{
    lemma_find_key::<IntentExecutionLineageV1>(executions, execution_id);
    assert(find_key::<IntentExecutionLineageV1>(executions, execution_id) == Some(k));
    let all = ids.map_values(crate::lineage_facts::proposed(records));
    lemma_all_pass(all);
    if forall|i: int| 0 <= i < all.len() ==> (#[trigger] all[i]) is Ok {
        assert forall|i: int| 0 <= i < ids.len() implies proposal(records, #[trigger] ids[i]) is Some by {
            assert(all[i] is Ok);
        }
    }
    if forall|i: int| 0 <= i < ids.len() ==> proposal(records, #[trigger] ids[i]) is Some {
        assert forall|i: int| 0 <= i < all.len() implies (#[trigger] all[i]) is Ok by {
            assert(proposal(records, ids[i]) is Some);
        }
    }
}

/// Evidence is linked if and only if a plan that was accepted before holds its intent, the last
/// such plan has the criterion in it, and its event brings its receipt on its snapshot.
pub proof fn law_evidence_is_linked_exactly(
    records: Seq<SessionStreamRecordView>,
    admission: IntentStackProjectionV1View,
    stream_sequence: u64,
    e: IntentCriterionEvidenceV1View,
)
    ensures
        linked_verdict(records, admission, stream_sequence)(e) is Ok <==> {
            &&& accepted_for_intent(admission, e.intent_ref, stream_sequence) matches Some(accepted)
            &&& has_its_criterion(accepted.plan, e)
            &&& receipt_from(records, e.source_event_id, e.receipt_id) matches Some(r)
            &&& r.receipt_id == e.receipt_id
            &&& r.workspace_snapshot_id == e.parent_snapshot_id
        },
{
    if let Some(accepted) = accepted_for_intent(admission, e.intent_ref, stream_sequence) {
        let f = crate::intent_lineage::has_criterion(e);
        let g = crate::intent_lineage::is_criterion(e.criterion_id);
        let intents = accepted.plan.intents;
        if any_where(intents, f) {
            let i = choose|i: int| 0 <= i < intents.len() && f(#[trigger] intents[i]);
            let c = intents[i].acceptance_criteria;
            let k = choose|k: int| 0 <= k < c.len() && g(#[trigger] c[k]);
            assert(intents[i].acceptance_criteria[k].criterion_id == e.criterion_id);
        }
        if has_its_criterion(accepted.plan, e) {
            let (i, k) = choose|i: int, k: int|
                0 <= i < intents.len() && intents[i].intent_ref == e.intent_ref && 0 <= k
                    < intents[i].acceptance_criteria.len() && (
                #[trigger] intents[i].acceptance_criteria[k]).criterion_id == e.criterion_id;
            assert(g(intents[i].acceptance_criteria[k]));
            assert(f(intents[i]));
        }
    }
}

/// A plan has, in the intent of a piece of evidence, its criterion.
pub open spec fn has_its_criterion(plan: IntentPlanV1View, e: IntentCriterionEvidenceV1View) -> bool {
    exists|i: int, k: int|
        0 <= i < plan.intents.len() && plan.intents[i].intent_ref == e.intent_ref && 0 <= k
            < plan.intents[i].acceptance_criteria.len() && (
        #[trigger] plan.intents[i].acceptance_criteria[k]).criterion_id == e.criterion_id
}

/// An execution without change sets is read-only. With them it has the mutation and the snapshot of
/// the parent workspace that they reached, or is read-only for the reason why they did not.
pub proof fn law_executions_tell_their_parent(
    records: Seq<SessionStreamRecordView>,
    e: IntentExecutionLineageV1View,
    workspace_id: Seq<char>,
)
    ensures
        ({
            let r = with_parent(records, e, workspace_id);
            let parent = match e.binding.origin {
                IntentExecutionOriginV1View::Task { task_id, task_plan_version, step_id, .. } => {
                    task_parent_lineage(
                        records,
                        task_id,
                        task_plan_version,
                        step_id,
                        e.changeset_ids,
                        workspace_id,
                    )
                },
                IntentExecutionOriginV1View::Chat { .. } => chat_parent_lineage(
                    records,
                    e,
                    e.changeset_ids,
                    workspace_id,
                ),
            };
            &&& r.binding == e.binding
            &&& r.changeset_ids == e.changeset_ids
            &&& r.stack_version == e.stack_version
            &&& r.binding_event_id == e.binding_event_id
            &&& r.binding_stream_sequence == e.binding_stream_sequence
            &&& e.changeset_ids.len() == 0 ==> r.read_only_reason == Some(
                IntentLineageReadOnlyReasonV1::MissingChangeSet,
            ) && r.parent_mutation_event_id == e.parent_mutation_event_id
            &&& e.changeset_ids.len() > 0 ==> (parent matches ParentLineageView::Applied {
                mutation_event_id,
                snapshot_id,
            } ==> r.parent_mutation_event_id == Some(mutation_event_id) && r.parent_snapshot_id
                == Some(snapshot_id) && r.read_only_reason == e.read_only_reason)
            &&& e.changeset_ids.len() > 0 ==> (parent matches ParentLineageView::ReadOnly(reason)
                ==> r.read_only_reason == Some(reason) && r.parent_mutation_event_id
                == e.parent_mutation_event_id && r.parent_snapshot_id == e.parent_snapshot_id)
        }),
{
}

/// Advice needs no execution. Evidence of the system needs one of its intent, and is checked
/// against the last.
pub proof fn law_system_evidence_needs_its_execution(
    records: Seq<SessionStreamRecordView>,
    p: IntentLineageProjectionV1View,
    e: IntentCriterionEvidenceV1View,
    k: int,
)
    ensures
        e.level == IntentCriterionEvidenceLevel::Advisory ==> system_verdict(records, p)(e) is Ok,
        e.level == IntentCriterionEvidenceLevel::SystemVerified
            && crate::lineage_laws::is_last_execution(p, e.intent_ref, k) ==> system_verdict(
            records,
            p,
        )(e) == system_evidence_verdict(records, e, p.executions[k]),
        e.level == IntentCriterionEvidenceLevel::SystemVerified && (forall|i: int|
            0 <= i < p.executions.len() ==> (#[trigger] p.executions[i]).binding.intent_ref
                != e.intent_ref) ==> system_verdict(records, p)(e) is Err,
{
    let f = crate::intent_lineage::executes(e.intent_ref);
    crate::search::lemma_last_where(p.executions, f);
    if crate::lineage_laws::is_last_execution(p, e.intent_ref, k) {
        assert(f(p.executions[k]));
        let m = crate::search::last_where(p.executions, f)->0;
        assert(f(p.executions[m]));
        assert(m == k);
    }
    match crate::search::last_where(p.executions, f) {
        Some(m) => {
            assert(f(p.executions[m]));
        },
        None => {},
    }
}

// Operations.

/// No intent of the plan that still stands builds on the target.
pub open spec fn nothing_builds_on(
    plan: IntentPlanV1View,
    dropped: Seq<IntentVersionRefView>,
    target: IntentVersionRefView,
) -> bool {
    forall|i: int|
        0 <= i < plan.intents.len() && (#[trigger] plan.intents[i]).intent_ref != target
            && !dropped.contains(plan.intents[i].intent_ref) ==> !plan.intents[i].depends_on.contains(
            target.intent_id,
        )
}

proof fn lemma_leaf(
    plan: IntentPlanV1View,
    dropped: Seq<IntentVersionRefView>,
    target: IntentVersionRefView,
)
    ensures
        is_leaf(plan, dropped, target) == nothing_builds_on(plan, dropped, target),
{
    let f = crate::intent_operation::builds_on(target, dropped);
    if any_where(plan.intents, f) {
        let i = choose|i: int| 0 <= i < plan.intents.len() && f(#[trigger] plan.intents[i]);
        assert(plan.intents[i].depends_on.contains(target.intent_id));
    } else {
        assert forall|i: int|
            0 <= i < plan.intents.len() && (#[trigger] plan.intents[i]).intent_ref != target
                && !dropped.contains(plan.intents[i].intent_ref) implies !plan.intents[i].depends_on.contains(
        target.intent_id) by {
            assert(!f(plan.intents[i]));
        }
    }
}

/// A request of an operation is taken only as a drop of one intent of an accepted plan of its
/// stack, accepted before it; it tells truly whether another intent builds on the target and which
/// intents stay, has the identity that the host gives it, and was not requested before.
pub proof fn law_requests_are_taken_truly(
    admission: IntentStackProjectionV1View,
    layers: IntentLayerProjectionV1View,
    s: OperationReplayView,
    sequence: u64,
    preview: IntentOperationPreviewV1View,
    x: IntentVersionRefView,
)
    ensures
        after_request(admission, layers, s, sequence, preview) matches Ok(t) ==> {
            &&& accepted_version(admission, preview.stack_version) matches Some(accepted)
            &&& preview.operation_kind == IntentOperationKind::Drop
            &&& preview.stack_id == accepted.plan.stack_id
            &&& accepted.accepted_stream_sequence < sequence
            &&& preview.target_intents.len() == 1
            &&& has_intent(accepted.plan, preview.target_intents[0])
            &&& preview.target_is_leaf <==> nothing_builds_on(
                accepted.plan,
                s.dropped,
                preview.target_intents[0],
            )
            &&& preview.retained_intents.contains(x) <==> has_intent(accepted.plan, x) && x
                != preview.target_intents[0] && !s.dropped.contains(x)
            &&& forall|i: int|
                0 <= i < s.operations.len() ==> (#[trigger] s.operations[i]).preview.operation_id
                    != preview.operation_id
            &&& t.operations.len() == s.operations.len() + 1
            &&& forall|i: int| 0 <= i < s.operations.len() ==> #[trigger] t.operations[i] == s.operations[i]
            &&& t.operations[s.operations.len() as int].preview == preview
            &&& t.operations[s.operations.len() as int].requested_sequence == sequence
            &&& t.operations[s.operations.len() as int].prepared is None
            &&& t.operations[s.operations.len() as int].prepared_sequence is None
            &&& t.operations[s.operations.len() as int].resolved is None
            &&& t.operations[s.operations.len() as int].resolved_sequence is None
            &&& t.dropped == s.dropped
            &&& t.conflicts == s.conflicts
        },
{
    if let Ok(t) = after_request(admission, layers, s, sequence, preview) {
        let accepted = accepted_version(admission, preview.stack_version)->0;
        let target = preview.target_intents[0];
        lemma_has_intent(accepted.plan, target);
        lemma_has_intent(accepted.plan, x);
        lemma_leaf(accepted.plan, s.dropped, target);
        lemma_find_key::<OperationRecord>(s.operations, preview.operation_id);
        crate::intent_impact::lemma_selected_members(
            plan_refs(accepted.plan),
            crate::intent_operation::stays(target, s.dropped),
            x,
        );
    }
}

/// The effects of an operation are exactly on the files of a layer: no file twice; every file has
/// artifacts, and the effect on it names exactly those; and no artifact is of a file without an
/// effect.
pub proof fn law_effects_are_on_the_files_of_a_layer(
    artifacts: Seq<EffectiveIntentArtifactV1View>,
    files: Seq<IntentOperationFileSummaryV1View>,
    i: int,
    id: Seq<char>,
)
    requires
        effects_fit(artifacts, files),
    ensures
        forall|a: int, b: int|
            0 <= a < b < files.len() ==> (#[trigger] files[a]).normalized_relative_path != (
            #[trigger] files[b]).normalized_relative_path,
        0 <= i < files.len() ==> (files[i].artifact_ids.contains(id) <==> exists|k: int|
            0 <= k < artifacts.len() && is_of_file(
                #[trigger] artifacts[k],
                files[i].normalized_relative_path,
            ) && artifacts[k].binding.artifact_id == id),
        0 <= i < files.len() ==> exists|k: int|
            0 <= k < artifacts.len() && is_of_file(
                #[trigger] artifacts[k],
                files[i].normalized_relative_path,
            ),
        forall|k: int, path: Seq<char>|
            0 <= k < artifacts.len() && #[trigger] is_of_file(artifacts[k], path) ==> exists|a: int|
                0 <= a < files.len() && (#[trigger] files[a]).normalized_relative_path == path,
{
    let paths = crate::intent_operation::paths_in_effects(files);
    assert forall|a: int, b: int| 0 <= a < b < files.len() implies (
    #[trigger] files[a]).normalized_relative_path != (#[trigger] files[b]).normalized_relative_path by {
        assert(paths[a] != paths[b]);
    }
    if 0 <= i < files.len() {
        let path = files[i].normalized_relative_path;
        let f = crate::intent_layer::is_hunk_at(path);
        let fits = crate::intent_operation::file_effect_fits(artifacts);
        assert(fits(files[i]));
        let k = choose|k: int| 0 <= k < artifacts.len() && f(#[trigger] artifacts[k]);
        assert(is_of_file(artifacts[k], path));
        let own = crate::search::selected(artifacts, f);
        let named = crate::intent_operation::artifact_ids_at(artifacts, path);
        assert(files[i].artifact_ids.contains(id) == named.contains(id)) by {
            let x = files[i].artifact_ids;
            if x.contains(id) {
                let n = choose|n: int| 0 <= n < x.len() && x[n] == id;
                assert(named.contains(x[n]));
            }
            if named.contains(id) {
                let n = choose|n: int| 0 <= n < named.len() && named[n] == id;
                assert(x.contains(named[n]));
            }
        }
        if named.contains(id) {
            let n = choose|n: int| 0 <= n < named.len() && named[n] == id;
            assert(own.contains(own[n]));
            crate::intent_impact::lemma_selected_members(artifacts, f, own[n]);
            let m = choose|m: int| 0 <= m < artifacts.len() && artifacts[m] == own[n];
            assert(is_of_file(artifacts[m], path));
        }
        if exists|m: int|
            0 <= m < artifacts.len() && is_of_file(#[trigger] artifacts[m], path)
                && artifacts[m].binding.artifact_id == id {
            let m = choose|m: int|
                0 <= m < artifacts.len() && is_of_file(#[trigger] artifacts[m], path)
                    && artifacts[m].binding.artifact_id == id;
            crate::intent_impact::lemma_selected_members(artifacts, f, artifacts[m]);
            assert(artifacts.contains(artifacts[m]));
            let n = choose|n: int| 0 <= n < own.len() && own[n] == artifacts[m];
            assert(named[n] == id);
        }
    }
    assert forall|k: int, path: Seq<char>|
        0 <= k < artifacts.len() && #[trigger] is_of_file(artifacts[k], path) implies exists|a: int|
        0 <= a < files.len() && (#[trigger] files[a]).normalized_relative_path == path by {
        let g = crate::intent_operation::is_covered(paths);
        assert(g(artifacts[k]));
        let a = choose|a: int| 0 <= a < paths.len() && paths[a] == path;
        assert(files[a].normalized_relative_path == path);
    }
}

/// An operation is prepared if and only if it was requested before, is neither prepared nor ended,
/// and the event says what its request says: stack, version, preview and revision, and the
/// artifacts of the last layer of its target. It is then prepared with the authority and the batch
/// of the event.
pub proof fn law_operations_are_prepared_exactly(
    layers: IntentLayerProjectionV1View,
    s: OperationReplayView,
    sequence: u64,
    e: IntentEventV1View,
    k: int,
)
    requires
        0 <= k < s.operations.len(),
        e is OperationPrepared,
        s.operations[k].preview.operation_id == e->OperationPrepared_operation_id,
        forall|j: int|
            0 <= j < k ==> (#[trigger] s.operations[j]).preview.operation_id
                != e->OperationPrepared_operation_id,
    ensures
        ({
            let op = s.operations[k];
            let layer = latest_layer(layers, op.preview.target_intents[0]);
            let r = after_prepare(layers, s, sequence, e);
            &&& r is Ok <==> {
                &&& layer matches Some(l)
                &&& op.requested_sequence < sequence
                &&& op.prepared is None
                &&& op.resolved is None
                &&& e->OperationPrepared_stack_id == op.preview.stack_id
                &&& e->OperationPrepared_stack_version == op.preview.stack_version
                &&& e->OperationPrepared_preview_digest == op.preview.preview_digest
                &&& e->OperationPrepared_workspace_revision == op.preview.workspace_revision
                &&& e->OperationPrepared_artifact_manifest_digest
                    == l.layer_manifest.artifact_manifest_digest
            }
            &&& r matches Ok(t) ==> {
                &&& t.operations.len() == s.operations.len()
                &&& forall|j: int|
                    0 <= j < s.operations.len() && j != k ==> #[trigger] t.operations[j]
                        == s.operations[j]
                &&& t.operations[k].preview == op.preview
                &&& t.operations[k].requested_sequence == op.requested_sequence
                &&& t.operations[k].resolved is None
                &&& t.operations[k].prepared_sequence == Some(sequence)
                &&& t.operations[k].prepared matches Some(p)
                &&& p.preview_digest == e->OperationPrepared_preview_digest
                &&& p.permission_policy_digest == e->OperationPrepared_permission_policy_digest
                &&& p.approval_authority_id == e->OperationPrepared_approval_authority_id
                &&& p.mutation_batch_id == e->OperationPrepared_mutation_batch_id
                &&& t.dropped == s.dropped
                &&& t.conflicts == s.conflicts
            }
        }),
{
    let id = e->OperationPrepared_operation_id;
    lemma_find_key::<OperationRecord>(s.operations, id);
    assert(find_key::<OperationRecord>(s.operations, id) == Some(k));
}

/// An operation ends if and only if it was requested before and has not ended; to be committed,
/// partially applied or interrupted it must be prepared; and a batch that the end names is the one
/// that it was prepared for. Only a committed end drops the targets.
pub proof fn law_operations_end_exactly(
    s: OperationReplayView,
    sequence: u64,
    e: IntentEventV1View,
    k: int,
    x: IntentVersionRefView,
)
    requires
        0 <= k < s.operations.len(),
        e is OperationResolved,
        s.operations[k].preview.operation_id == e->OperationResolved_operation_id,
        forall|j: int|
            0 <= j < k ==> (#[trigger] s.operations[j]).preview.operation_id
                != e->OperationResolved_operation_id,
    ensures
        ({
            let op = s.operations[k];
            let end = e->OperationResolved_resolution;
            let batch = e->OperationResolved_mutation_batch_id;
            let r = after_result(s, sequence, e);
            &&& r is Ok <==> {
                &&& op.resolved is None
                &&& op.requested_sequence < sequence
                &&& end == IntentOperationResolution::Committed || end
                    == IntentOperationResolution::PartiallyApplied || end
                    == IntentOperationResolution::Interrupted ==> op.prepared is Some
                &&& op.prepared matches Some(p) ==> (batch matches Some(b) ==> b
                    == p.mutation_batch_id)
            }
            &&& r matches Ok(t) ==> {
                &&& t.operations.len() == s.operations.len()
                &&& forall|j: int|
                    0 <= j < s.operations.len() && j != k ==> #[trigger] t.operations[j]
                        == s.operations[j]
                &&& t.operations[k].preview == op.preview
                &&& t.operations[k].prepared == op.prepared
                &&& t.operations[k].prepared_sequence == op.prepared_sequence
                &&& t.operations[k].resolved_sequence == Some(sequence)
                &&& t.operations[k].resolved matches Some(z)
                &&& z.resolution == end
                &&& z.mutation_batch_id == batch
                &&& z.result_snapshot_id == e->OperationResolved_result_snapshot_id
                &&& z.error_code == e->OperationResolved_error_code
                &&& t.dropped.contains(x) <==> s.dropped.contains(x) || (end
                    == IntentOperationResolution::Committed && op.preview.target_intents.contains(x))
                &&& t.conflicts == s.conflicts
            }
        }),
{
    let id = e->OperationResolved_operation_id;
    lemma_find_key::<OperationRecord>(s.operations, id);
    assert(find_key::<OperationRecord>(s.operations, id) == Some(k));
    crate::intent_operation::lemma_with_new_members(
        s.dropped,
        s.operations[k].preview.target_intents,
        x,
    );
}

/// The record ends a batch.
pub open spec fn finishes(id: Seq<char>) -> spec_fn(SessionStreamRecordView) -> bool {
    |r: SessionStreamRecordView|
        r.body matches RecordBodyView::MutationBatchFinished(b) && b.batch_id == id
}

/// The stream must prove how an operation ended. Committed: its batch was applied as a whole, ended
/// before, and left the snapshot that the end names. Partially applied: its batch was applied in
/// part, or is in conflict. Interrupted: its batch, where it has one, was not applied as a whole.
/// Cancelled: no file was touched for it. Rejected: it was never prepared.
pub proof fn law_ends_are_proven(
    records: Seq<SessionStreamRecordView>,
    op: OperationRecordView,
    n: int,
)
    requires
        op.resolved is Some,
        op.prepared matches Some(p) ==> is_first(records, finishes(p.mutation_batch_id), n) || is_nowhere(
            records,
            finishes(p.mutation_batch_id),
        ),
    ensures
        terminal_verdict(records)(op) is Ok <==> match op.resolved->0.resolution {
            IntentOperationResolution::Committed => {
                &&& op.prepared matches Some(p)
                &&& batch_outcome(records, op, p) matches Ok(
                    BatchOutcomeView::Applied { result_snapshot_id, .. },
                )
                &&& op.resolved->0.result_snapshot_id == Some(result_snapshot_id)
                &&& is_first(records, finishes(p.mutation_batch_id), n)
                &&& op.resolved_sequence matches Some(end)
                &&& records[n].stream_sequence < end
            },
            IntentOperationResolution::PartiallyApplied => {
                &&& op.prepared matches Some(p)
                &&& batch_outcome(records, op, p) matches Ok(o)
                &&& o is Partial || o is Conflicted
            },
            IntentOperationResolution::Interrupted => {
                op.prepared matches Some(p) ==> (batch_outcome(records, op, p) matches Ok(o)
                    && !(o is Applied) && !(o is FullyAppliedUnfinished))
            },
            IntentOperationResolution::Cancelled => {
                op.prepared matches Some(p) ==> !has_evidence(records, p.mutation_batch_id)
            },
            IntentOperationResolution::Rejected => op.prepared is None,
            IntentOperationResolution::Conflicted => true,
        },
{
    if let Some(p) = op.prepared {
        let f = finishes(p.mutation_batch_id);
        let g = ends_batch(p.mutation_batch_id);
        assert forall|j: int| 0 <= j < records.len() implies f(#[trigger] records[j]) == g(
            records[j],
        ) by {}
        lemma_first_where(records, g);
        match first_where(records, g) {
            Some(k) => {
                assert(g(records[k]));
                assert(f(records[k]));
                if is_first(records, f, n) {
                    assert(k == n) by {
                        if k < n {
                            assert(!f(records[k]));
                        } else if n < k {
                            assert(!g(records[n]));
                        }
                    }
                }
            },
            None => {
                if is_first(records, f, n) {
                    assert(!g(records[n]));
                }
            },
        }
    }
}

// Checkpoints.

/// A path is held by a layer of an intent that was not dropped.
pub open spec fn is_held(
    layers: Seq<IntentLayerStateV1View>,
    dropped: Seq<IntentVersionRefView>,
    path: Seq<char>,
) -> bool {
    exists|i: int, k: int|
        0 <= i < layers.len() && !dropped.contains(layers[i].layer_manifest.core.intent_ref) && 0 <= k
            < layers[i].artifacts.len() && is_of_file(#[trigger] layers[i].artifacts[k], path)
}

/// A path is one that an operation has an effect on, and something of the operation is behind a
/// boundary.
pub open spec fn is_changed_later(
    ops: Seq<OperationRecordView>,
    boundary: u64,
    path: Seq<char>,
) -> bool {
    exists|i: int, k: int|
        0 <= i < ops.len() && (ops[i].requested_sequence > boundary || (
        ops[i].prepared_sequence matches Some(s) && s > boundary) || (
        ops[i].resolved_sequence matches Some(s) && s > boundary)) && 0 <= k
            < ops[i].preview.file_effects.len() && (
        #[trigger] ops[i].preview.file_effects[k]).normalized_relative_path == path
}

proof fn lemma_concat_members<A>(a: Seq<A>, b: Seq<A>, x: A)
    ensures
        (a + b).contains(x) == (a.contains(x) || b.contains(x)),
{
    let all = a + b;
    if a.contains(x) {
        let i = choose|i: int| 0 <= i < a.len() && a[i] == x;
        assert(all[i] == x);
    }
    if b.contains(x) {
        let i = choose|i: int| 0 <= i < b.len() && b[i] == x;
        assert(all[a.len() + i] == x);
    }
    if all.contains(x) {
        let i = choose|i: int| 0 <= i < all.len() && all[i] == x;
        if i < a.len() {
            assert(a[i] == x);
        } else {
            assert(b[i - a.len()] == x);
        }
    }
}

proof fn lemma_hunk_paths(artifacts: Seq<EffectiveIntentArtifactV1View>, path: Seq<char>)
    ensures
        hunk_paths(artifacts).contains(path) == (exists|k: int|
            0 <= k < artifacts.len() && is_of_file(#[trigger] artifacts[k], path)),
    decreases artifacts.len(),
{
    if artifacts.len() > 0 {
        let rest = artifacts.drop_last();
        let last = artifacts[artifacts.len() - 1];
        lemma_hunk_paths(rest, path);
        assert forall|k: int| 0 <= k < rest.len() implies rest[k] == #[trigger] artifacts[k] by {}
        if last.binding.subject is FileHunk {
            let own = crate::intent_layer::artifact_path_of(last.binding);
            crate::intent_impact::lemma_pushed_members(hunk_paths(rest), own, path);
            assert(is_of_file(last, path) == (own == path));
        }
        if hunk_paths(rest).contains(path) {
            let k = choose|k: int| 0 <= k < rest.len() && is_of_file(#[trigger] rest[k], path);
            assert(is_of_file(artifacts[k], path));
        }
        if exists|k: int| 0 <= k < artifacts.len() && is_of_file(#[trigger] artifacts[k], path) {
            let k = choose|k: int| 0 <= k < artifacts.len() && is_of_file(#[trigger] artifacts[k], path);
            if k < rest.len() {
                assert(is_of_file(rest[k], path));
            }
        }
    }
}

proof fn lemma_held(
    layers: Seq<IntentLayerStateV1View>,
    dropped: Seq<IntentVersionRefView>,
    path: Seq<char>,
)
    ensures
        held_paths(layers, dropped).contains(path) == is_held(layers, dropped, path),
    decreases layers.len(),
{
    if layers.len() > 0 {
        let rest = layers.drop_last();
        let n = layers.len() - 1;
        let last = layers[n];
        lemma_held(rest, dropped, path);
        lemma_hunk_paths(last.artifacts, path);
        assert forall|k: int| 0 <= k < rest.len() implies rest[k] == #[trigger] layers[k] by {}
        lemma_concat_members(held_paths(rest, dropped), hunk_paths(last.artifacts), path);
        if is_held(rest, dropped, path) {
            let (i, k) = choose|i: int, k: int|
                0 <= i < rest.len() && !dropped.contains(rest[i].layer_manifest.core.intent_ref) && 0
                    <= k < rest[i].artifacts.len() && is_of_file(#[trigger] rest[i].artifacts[k], path);
            assert(is_of_file(layers[i].artifacts[k], path));
        }
        if hunk_paths(last.artifacts).contains(path) && !dropped.contains(
            last.layer_manifest.core.intent_ref,
        ) {
            let k = choose|k: int|
                0 <= k < last.artifacts.len() && is_of_file(#[trigger] last.artifacts[k], path);
            assert(is_of_file(layers[n].artifacts[k], path));
        }
        if is_held(layers, dropped, path) {
            let (i, k) = choose|i: int, k: int|
                0 <= i < layers.len() && !dropped.contains(layers[i].layer_manifest.core.intent_ref) && 0
                    <= k < layers[i].artifacts.len() && is_of_file(
                    #[trigger] layers[i].artifacts[k],
                    path,
                );
            if i < n {
                assert(is_of_file(rest[i].artifacts[k], path));
            } else {
                assert(is_of_file(last.artifacts[k], path));
            }
        }
    }
}

proof fn lemma_later(ops: Seq<OperationRecordView>, boundary: u64, path: Seq<char>)
    ensures
        later_paths(ops, boundary).contains(path) == is_changed_later(ops, boundary, path),
    decreases ops.len(),
{
    if ops.len() > 0 {
        let rest = ops.drop_last();
        let n = ops.len() - 1;
        let last = ops[n];
        lemma_later(rest, boundary, path);
        assert forall|k: int| 0 <= k < rest.len() implies rest[k] == #[trigger] ops[k] by {}
        let own = crate::intent_operation::paths_in_effects(last.preview.file_effects);
        lemma_concat_members(later_paths(rest, boundary), own, path);
        let late = crate::operation_recovery::is_later_than(last, boundary);
        if is_changed_later(rest, boundary, path) {
            let (i, k) = choose|i: int, k: int|
                0 <= i < rest.len() && (rest[i].requested_sequence > boundary || (
                rest[i].prepared_sequence matches Some(s) && s > boundary) || (
                rest[i].resolved_sequence matches Some(s) && s > boundary)) && 0 <= k
                    < rest[i].preview.file_effects.len() && (
                #[trigger] rest[i].preview.file_effects[k]).normalized_relative_path == path;
            assert(ops[i].preview.file_effects[k].normalized_relative_path == path);
        }
        if late && own.contains(path) {
            let k = choose|k: int| 0 <= k < own.len() && own[k] == path;
            assert(ops[n].preview.file_effects[k].normalized_relative_path == path);
        }
        if is_changed_later(ops, boundary, path) {
            let (i, k) = choose|i: int, k: int|
                0 <= i < ops.len() && (ops[i].requested_sequence > boundary || (
                ops[i].prepared_sequence matches Some(s) && s > boundary) || (
                ops[i].resolved_sequence matches Some(s) && s > boundary)) && 0 <= k
                    < ops[i].preview.file_effects.len() && (
                #[trigger] ops[i].preview.file_effects[k]).normalized_relative_path == path;
            if i < n {
                assert(rest[i].preview.file_effects[k].normalized_relative_path == path);
            } else {
                assert(own[k] == path);
            }
        }
    }
}

/// A checkpoint leaves exactly those paths alone that a layer of an intent that still stands holds,
/// or that an operation behind the boundary has an effect on.
pub proof fn law_checkpoints_leave_intents_alone(
    records: Seq<SessionStreamRecordView>,
    tasks: TaskStateProjectionView,
    boundary: u64,
    admission: IntentStackProjectionV1View,
    lineage: IntentLineageProjectionV1View,
    layers: IntentLayerProjectionV1View,
    s: OperationReplayView,
    paths: Seq<Seq<char>>,
    path: Seq<char>,
)
    requires
        stack_of(records) == Ok::<_, Seq<char>>(admission),
        crate::intent_lineage::lineage_of(records, admission, tasks) == Ok::<_, Seq<char>>(lineage),
        crate::intent_layer::layers_of(records, admission, lineage) == Ok::<_, Seq<char>>(layers),
        crate::intent_operation::replay_of(records, admission, layers) == Ok::<_, Seq<char>>(s),
        crate::operation_recovery::conflict_paths(records, tasks, boundary) == Ok::<_, Seq<char>>(
            paths,
        ),
    ensures
        admission.accepted_plans.len() == 0 ==> paths.len() == 0,
        admission.accepted_plans.len() > 0 ==> (paths.contains(path) <==> is_held(
            layers.layers,
            crate::intent_operation::operation_projection_of(records, s).dropped_intents,
            path,
        ) || is_changed_later(s.operations, boundary, path)),
{
    let dropped = crate::intent_operation::operation_projection_of(records, s).dropped_intents;
    let a = held_paths(layers.layers, dropped);
    let b = later_paths(s.operations, boundary);
    lemma_held(layers.layers, dropped, path);
    lemma_later(s.operations, boundary, path);
    lemma_concat_members(a, b, path);
    crate::lineage_laws::lemma_ascending_members(a + b);
    assert(crate::text::ascending_of(a + b).contains(path) == (a + b).contains(path));
}

} // verus!
