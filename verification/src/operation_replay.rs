//! What is written of operations is read back: records of intents tell nothing of batches, so a replay
//! that goes on with them finds every operation as it was.

use vstd::prelude::*;

use crate::batch_evidence::{
    batch_fact_verdicts, batch_facts_verdict, batch_outcome, commits_within, ends_batch,
    has_evidence, is_file_evidence, prepares_within, reconciles_within, starts_batch,
};
use crate::drop_execution::requested_event;
use crate::intent::{BoundedIntentArtifactSubjectV1View, IntentEventV1View, IntentVersionRefView};
use crate::intent_drop::{
    drop_from_parts, is_complete_by, law_previewed_drops_can_be_requested,
    DropTargetObservationV1View, ResolvedDropView,
};
use crate::intent_event_contract::event_verdict;
use crate::intent_layer::{
    aged_layers, drifts, layers_after, layers_of, tells_of_artifact, told_after,
    ArtifactContentV1View,
};
use crate::intent_lineage::{lineage_of, IntentLineageProjectionV1View};
use crate::intent_operation::{
    after_request, batch_ended_first, is_operation_event, operation_order, operations_after,
    replay_of, terminal_verdict, was_requested, OperationReplayView,
};
use crate::intent_stack::{
    after_intent_event, latest_accepted, law_replayed_stacks_are_sound, lemma_latest_version,
    stack_of, IntentStackProjectionV1View,
};
use crate::intent_state::{
    AcceptedIntentPlanProjectionV1View, IntentLayerProjectionV1View, IntentLayerStateV1View,
    OperationRecord, OperationRecordView, PreparedOperationView,
};
use crate::layer_replay::{lemma_layer_facts_stay, lemma_layers_stay};
use crate::lineage_replay::{
    follows, lemma_admission_goes_on, lemma_lineage_unchanged, lemma_push_first, lemma_push_last,
    same_plans,
};
use crate::order::{items_in_order, lemma_ordered_items};
use crate::records::{RecordBodyView, SessionStreamRecordView, TaskStateProjectionView};
use crate::search::{all_where, any_where, selected};
use crate::value::{find_key, lemma_all_pass, lemma_find_key};

verus! {

proof fn lemma_push_selected<A>(s: Seq<A>, x: A, p: spec_fn(A) -> bool)
    requires
        !p(x),
    ensures
        selected(s.push(x), p) == selected(s, p),
{
    assert(s.push(x).drop_last() =~= s);
}

// Batches.

proof fn lemma_batch_facts_stay(records: Seq<SessionStreamRecordView>, r: SessionStreamRecordView)
    requires
        r.body is Intent,
        batch_facts_verdict(records) is Ok,
    ensures
        batch_facts_verdict(records.push(r)) is Ok,
{
    let all = records.push(r);
    let old_facts = batch_fact_verdicts(records);
    let facts = batch_fact_verdicts(all);
    lemma_all_pass(old_facts);
    lemma_all_pass(facts);
    assert forall|i: int| 0 <= i < facts.len() implies #[trigger] facts[i] is Ok by {
        if i < records.len() {
            assert(all[i] == records[i]);
            assert(old_facts[i] is Ok);
            match records[i].body {
                RecordBodyView::MutationBatchStarted(b) => {
                    let p = starts_batch(b.batch_id);
                    lemma_push_first(records, r, p, p);
                },
                RecordBodyView::MutationBatchFinished(b) => {
                    let p = ends_batch(b.batch_id);
                    lemma_push_first(records, r, p, p);
                },
                _ => {},
            }
            assert(facts[i] == old_facts[i]);
        } else {
            assert(all[i] == r);
        }
    }
}

proof fn lemma_outcomes_stay(
    records: Seq<SessionStreamRecordView>,
    r: SessionStreamRecordView,
    op: OperationRecordView,
    prepared: PreparedOperationView,
)
    requires
        r.body is Intent,
    ensures
        batch_outcome(records.push(r), op, prepared) == batch_outcome(records, op, prepared),
        batch_ended_first(records.push(r), op, prepared.mutation_batch_id) == batch_ended_first(
            records,
            op,
            prepared.mutation_batch_id,
        ),
        has_evidence(records.push(r), prepared.mutation_batch_id) == has_evidence(
            records,
            prepared.mutation_batch_id,
        ),
{
    reveal(batch_outcome);
    let id = prepared.mutation_batch_id;
    let b = starts_batch(id);
    let e = ends_batch(id);
    let f = is_file_evidence(id);
    lemma_push_first(records, r, b, b);
    lemma_push_first(records, r, e, e);
    lemma_push_first(records, r, f, f);
    lemma_push_selected(records, r, prepares_within(id));
    lemma_push_selected(records, r, commits_within(id));
    lemma_push_selected(records, r, reconciles_within(id));
}

proof fn lemma_terminals_stay(
    records: Seq<SessionStreamRecordView>,
    r: SessionStreamRecordView,
    op: OperationRecordView,
)
    requires
        r.body is Intent,
    ensures
        terminal_verdict(records.push(r))(op) == terminal_verdict(records)(op),
{
    if let Some(p) = op.prepared {
        lemma_outcomes_stay(records, r, op, p);
    }
}

pub(crate) proof fn lemma_operations_stay(
    records: Seq<SessionStreamRecordView>,
    r: SessionStreamRecordView,
    admission: IntentStackProjectionV1View,
    after: IntentStackProjectionV1View,
    layers: IntentLayerProjectionV1View,
    n: int,
)
    requires
        same_plans(admission, after),
        0 <= n <= records.len(),
    ensures
        operations_after(records.push(r), after, layers, n) == operations_after(
            records,
            admission,
            layers,
            n,
        ),
    decreases n,
{
    if n > 0 {
        lemma_operations_stay(records, r, admission, after, layers, n - 1);
        assert(records.push(r)[n - 1] == records[n - 1]);
    }
}

// Layers.

proof fn lemma_told_stays(
    records: Seq<SessionStreamRecordView>,
    r: SessionStreamRecordView,
    id: Seq<char>,
    sequence: u64,
)
    requires
        r.body is Intent,
    ensures
        told_after(records.push(r), id, sequence) == told_after(records, id, sequence),
{
    let p = tells_of_artifact(id);
    lemma_push_last(records, r, p, p);
}

proof fn lemma_aged_layers_stay(
    records: Seq<SessionStreamRecordView>,
    r: SessionStreamRecordView,
    layers: Seq<IntentLayerStateV1View>,
)
    requires
        r.body is Intent,
    ensures
        aged_layers(records.push(r), layers) == aged_layers(records, layers),
{
    let all = records.push(r);
    let now = aged_layers(all, layers);
    let was = aged_layers(records, layers);
    assert forall|i: int| 0 <= i < layers.len() implies #[trigger] now[i] == was[i] by {
        let layer = layers[i];
        let at = layer.layer_stream_sequence;
        lemma_told_stays(records, r, layer.layer_manifest.core.forward_patch_artifact_id, at);
        lemma_told_stays(records, r, layer.layer_manifest.core.reverse_patch_artifact_id, at);
        lemma_told_stays(records, r, layer.layer_manifest.artifact_manifest_id, at);
        assert forall|k: int| 0 <= k < layer.artifacts.len() implies #[trigger] now[i].artifacts[k]
            == was[i].artifacts[k] by {
            let a = layer.artifacts[k];
            lemma_told_stays(records, r, a.binding.artifact_id, at);
            if let BoundedIntentArtifactSubjectV1View::FileHunk {
                normalized_relative_path,
                after_file_digest,
                ..
            } = a.binding.subject {
                let d = drifts(layers, at, normalized_relative_path, after_file_digest);
                lemma_push_first(records, r, d, d);
            }
        }
        assert(now[i].artifacts =~= was[i].artifacts);
    }
    assert(now =~= was);
}

/// Events of operations change neither the lineage nor a layer: a replay of the stream with one of them
/// shows both as they were.
pub proof fn law_operation_events_change_no_layer(
    records: Seq<SessionStreamRecordView>,
    r: SessionStreamRecordView,
    admission: IntentStackProjectionV1View,
    tasks: TaskStateProjectionView,
    accepted: AcceptedIntentPlanProjectionV1View,
    lineage: IntentLineageProjectionV1View,
    layers: IntentLayerProjectionV1View,
    e: IntentEventV1View,
)
    requires
        stack_of(records) == Ok::<_, Seq<char>>(admission),
        latest_accepted(admission) == Some(accepted),
        lineage_of(records, admission, tasks) == Ok::<_, Seq<char>>(lineage),
        layers_of(records, admission, lineage) == Ok::<_, Seq<char>>(layers),
        r.body == RecordBodyView::Intent(e),
        is_operation_event()(r),
        event_verdict(e) is Ok,
        follows(admission, r),
    ensures
        stack_of(records.push(r)) matches Ok(after) && lineage_of(records.push(r), after, tasks)
            == Ok::<_, Seq<char>>(lineage) && layers_of(records.push(r), after, lineage)
            == Ok::<_, Seq<char>>(layers),
{
    let all = records.push(r);
    let n = records.len() as int;
    assert(after_intent_event(admission, r, e) == Ok::<_, Seq<char>>(admission));
    lemma_admission_goes_on(records, r, admission, e);
    let after = stack_of(all)->Ok_0;
    lemma_lineage_unchanged(records, r, admission, after, tasks, accepted, lineage);
    lemma_layer_facts_stay(records, r);
    lemma_layers_stay(records, r, admission, after, lineage, n);
    assert(all[n] == r);
    let s = layers_after(records, admission, lineage, n)->Ok_0;
    assert(layers_after(all, after, lineage, n + 1) == Ok::<_, Seq<char>>(s));
    lemma_aged_layers_stay(records, r, s.layers);
}

/// What is accepted of an operation is read back: where an event follows the stream that a replay
/// accepts, and the stream proves the ends of all operations that it leaves, a replay of the stream with
/// the event shows the operations after it.
pub proof fn law_accepted_operation_events_are_read_back(
    records: Seq<SessionStreamRecordView>,
    r: SessionStreamRecordView,
    admission: IntentStackProjectionV1View,
    layers: IntentLayerProjectionV1View,
    e: IntentEventV1View,
    t: OperationReplayView,
)
    requires
        stack_of(records) == Ok::<_, Seq<char>>(admission),
        latest_accepted(admission) is Some,
        replay_of(records, admission, layers) is Ok,
        r.body == RecordBodyView::Intent(e),
        is_operation_event()(r),
        event_verdict(e) is Ok,
        follows(admission, r),
        operations_after(records.push(r), admission, layers, records.len() as int + 1) == Ok::<
            _,
            Seq<char>,
        >(t),
        forall|i: int|
            0 <= i < t.operations.len() ==> terminal_verdict(records)(
                #[trigger] t.operations[i],
            ) is Ok,
    ensures
        stack_of(records.push(r)) matches Ok(after) && replay_of(records.push(r), after, layers)
            == Ok::<_, Seq<char>>(
            OperationReplayView {
                operations: items_in_order(t.operations, operation_order()),
                ..t
            },
        ),
{
    let all = records.push(r);
    let n = records.len() as int;
    assert(after_intent_event(admission, r, e) == Ok::<_, Seq<char>>(admission));
    lemma_admission_goes_on(records, r, admission, e);
    let after = stack_of(all)->Ok_0;
    lemma_batch_facts_stay(records, r);
    lemma_operations_stay(records, r, admission, after, layers, n);
    lemma_operations_stay(records, r, admission, admission, layers, n);
    assert(all[n] == r);
    assert(operations_after(all, after, layers, n + 1) == operations_after(
        all,
        admission,
        layers,
        n + 1,
    ));
    let ops = items_in_order(t.operations, operation_order());
    let checks = ops.map_values(terminal_verdict(all));
    lemma_ordered_items(t.operations, operation_order());
    assert forall|i: int| 0 <= i < checks.len() implies #[trigger] checks[i] is Ok by {
        assert(ops.contains(ops[i]));
        assert(t.operations.contains(ops[i]));
        let k = choose|k: int| 0 <= k < t.operations.len() && t.operations[k] == ops[i];
        assert(terminal_verdict(records)(t.operations[k]) is Ok);
        lemma_terminals_stay(records, r, ops[i]);
        assert(checks[i] == terminal_verdict(all)(ops[i]));
    }
    lemma_all_pass(checks);
}

/// A drop that is requested is read back: a replay of the stream with the record of the request of a
/// drop that may be applied shows the operation, and all others as they were.
pub proof fn law_requested_drops_are_read_back(
    records: Seq<SessionStreamRecordView>,
    r: SessionStreamRecordView,
    admission: IntentStackProjectionV1View,
    accepted: AcceptedIntentPlanProjectionV1View,
    lineage: IntentLineageProjectionV1View,
    layers: IntentLayerProjectionV1View,
    s: OperationReplayView,
    frontier: u64,
    workspace_id: Seq<char>,
    workspace_revision: u64,
    contents: Seq<ArtifactContentV1View>,
    observations: Seq<DropTargetObservationV1View>,
    intent_ref: IntentVersionRefView,
    resolved: ResolvedDropView,
    safe_reason: Seq<char>,
)
    requires
        records.len() < u64::MAX,
        stack_of(records) == Ok::<_, Seq<char>>(admission),
        latest_accepted(admission) == Some(accepted),
        replay_of(records, admission, layers) == Ok::<_, Seq<char>>(s),
        frontier < u64::MAX,
        all_where(layers.layers, is_complete_by(frontier)),
        accepted.accepted_stream_sequence <= frontier,
        drop_from_parts(
            frontier,
            workspace_id,
            workspace_revision,
            contents,
            observations,
            admission,
            lineage,
            layers,
            s.dropped,
            intent_ref,
        ) == Ok::<_, Seq<char>>(resolved),
        resolved.preview.conflicts.len() == 0,
        find_key::<OperationRecord>(s.operations, resolved.preview.operation_id) is None,
        r.body == RecordBodyView::Intent(requested_event(resolved.preview, safe_reason)),
        r.stream_sequence == frontier + 1,
        event_verdict(requested_event(resolved.preview, safe_reason)) is Ok,
        follows(admission, r),
    ensures
        stack_of(records.push(r)) matches Ok(after) && (replay_of(
            records.push(r),
            after,
            layers,
        ) matches Ok(t) && t.operations.len() == s.operations.len() + 1 && t.dropped == s.dropped
            && any_where(t.operations, was_requested(resolved.preview, r.stream_sequence))),
{
    let all = records.push(r);
    let n = records.len() as int;
    let before = operations_after(records, admission, layers, n)->Ok_0;
    lemma_ordered_items(before.operations, operation_order());
    let id = resolved.preview.operation_id;
    lemma_find_key::<OperationRecord>(s.operations, id);
    lemma_find_key::<OperationRecord>(before.operations, id);
    assert forall|i: int| 0 <= i < before.operations.len() implies (
    #[trigger] before.operations[i]).preview.operation_id != id by {
        assert(before.operations.contains(before.operations[i]));
        assert(s.operations.contains(before.operations[i]));
        let k = choose|k: int|
            0 <= k < s.operations.len() && s.operations[k] == before.operations[i];
        assert(s.operations[k].preview.operation_id != id);
    }
    law_replayed_stacks_are_sound(records);
    lemma_latest_version(admission);
    law_previewed_drops_can_be_requested(
        frontier,
        workspace_revision,
        contents,
        observations,
        accepted.plan,
        lineage,
        layers,
        s.dropped,
        intent_ref,
    );
    let t = after_request(admission, layers, before, r.stream_sequence, resolved.preview)->Ok_0;
    assert(after_request(admission, layers, before, r.stream_sequence, resolved.preview) is Ok);
    lemma_operations_stay(records, r, admission, admission, layers, n);
    assert(all[n] == r);
    assert(operations_after(all, admission, layers, n + 1) == Ok::<_, Seq<char>>(t));
    let old_checks = s.operations.map_values(terminal_verdict(records));
    lemma_all_pass(old_checks);
    assert forall|i: int| 0 <= i < t.operations.len() implies terminal_verdict(records)(
        #[trigger] t.operations[i],
    ) is Ok by {
        if i < before.operations.len() {
            assert(t.operations[i] == before.operations[i]);
            assert(before.operations.contains(before.operations[i]));
            assert(s.operations.contains(before.operations[i]));
            let k = choose|k: int|
                0 <= k < s.operations.len() && s.operations[k] == before.operations[i];
            assert(old_checks[k] == terminal_verdict(records)(s.operations[k]));
            assert(old_checks[k] is Ok);
        }
    }
    let e = requested_event(resolved.preview, safe_reason);
    law_accepted_operation_events_are_read_back(records, r, admission, layers, e, t);
    let p = was_requested(resolved.preview, r.stream_sequence);
    lemma_ordered_items(t.operations, operation_order());
    let own = t.operations.last();
    assert(t.operations.contains(own)) by {
        assert(t.operations[t.operations.len() - 1] == own);
    }
    let ops = items_in_order(t.operations, operation_order());
    assert(ops.contains(own));
    let k = choose|k: int| 0 <= k < ops.len() && ops[k] == own;
    assert(p(ops[k]));
}

} // verus!
