//! What completes a layer, which facts a stream may tell, and how requests and conflicts are kept.

use vstd::prelude::*;

use crate::drop_execution::{conflict_events, conflicted_event, request_append};
use crate::integration_plan::mentioned_paths;
use crate::intent::{
    BoundedIntentArtifactSubjectV1View, IntentArtifactAvailability, IntentArtifactBindingV1View,
    IntentArtifactManifestV1View, IntentArtifactOwnership, IntentConflictV1View, IntentEventV1View,
    IntentLayerManifestV1View, IntentOperationErrorCode, IntentOperationResolution,
};
use crate::intent_drop::frontier_of;
use crate::intent_event_contract::event_verdict;
use crate::intent_layer::{
    after_artifact_manifest, after_layer_manifest, artifact_path_of, artifact_paths,
    complete_layer_verdict, cover_verdict, execution_paths, file_is_applied, hashes_match,
    hunk_verdict, layer_artifact_verdict, layer_artifact_verdicts, layer_fit_verdict,
    mutation_identity, LayerReplay, PendingArtifactManifestV1,
};
use crate::intent_layer_contract::{artifact_manifest_verdict, layer_manifest_verdict};
use crate::intent_lineage::{execution_with, IntentLineageProjectionV1View};
use crate::intent_operation::{after_conflict, OperationReplayView};
use crate::intent_stack::{accepted_version, IntentStackProjectionV1View};
use crate::intent_state::{
    AcceptedIntentPlanProjectionV1View, IntentExecutionLineageV1View, IntentLayerStateV1,
};
use crate::layer_facts::{base_snapshot, mutation_pair, terminal_sequence};
use crate::lineage_facts::{change_result, fact_verdict, proposal, proposes, settles};
use crate::records::{
    ChangeSetFile, ChangeSetFileView, ChangeSetResultStatus, ControlEntryView, RecordBodyView,
    SessionStreamRecordView,
};
use crate::replay_laws::has_intent;
use crate::search::{first_where, lemma_first_where};
use crate::source_laws::{is_first, is_nowhere};
use crate::value::{find_key, lemma_all_pass, lemma_find_key, lemma_find_key_is, repeats, Keyed};

verus! {

// Layers.

/// A layer fits its execution if and only if it is of the same intent, execution and origin; it
/// ends in the parent snapshot of the execution and holds its change sets; its artifact manifest is
/// of the same intent, execution and core and is the one that it names; and its plan has its
/// intent.
pub proof fn law_layers_fit_their_execution(
    layer: IntentLayerManifestV1View,
    artifacts: IntentArtifactManifestV1View,
    x: IntentExecutionLineageV1View,
    accepted: AcceptedIntentPlanProjectionV1View,
)
    ensures
        layer_fit_verdict(layer, artifacts, x, accepted) is Ok <==> {
            &&& layer.core.intent_ref == x.binding.intent_ref
            &&& layer.core.execution_id == x.binding.execution_id
            &&& layer.core.execution_origin == x.binding.origin
            &&& x.parent_snapshot_id == Some(layer.core.result_snapshot_id)
            &&& layer.core.changeset_ids == x.changeset_ids
            &&& artifacts.intent_ref == layer.core.intent_ref
            &&& artifacts.execution_id == layer.core.execution_id
            &&& artifacts.layer_core_digest == layer.core.core_digest
            &&& artifacts.manifest_digest == layer.artifact_manifest_digest
            &&& has_intent(accepted.plan, layer.core.intent_ref)
        },
{
    crate::replay_laws::lemma_has_intent(accepted.plan, layer.core.intent_ref);
}

/// A layer is complete if and only if both manifests are valid and fit, the attempt ended in front
/// of them, the layer builds on the snapshot before its execution and on no operation, and its
/// artifacts are the changes of its execution.
pub proof fn law_complete_layers_are_proven(
    records: Seq<SessionStreamRecordView>,
    layer: IntentLayerManifestV1View,
    artifacts: IntentArtifactManifestV1View,
    x: IntentExecutionLineageV1View,
    accepted: AcceptedIntentPlanProjectionV1View,
    artifact_sequence: u64,
    layer_sequence: u64,
)
    ensures
        complete_layer_verdict(
            records,
            layer,
            artifacts,
            x,
            accepted,
            artifact_sequence,
            layer_sequence,
        ) is Ok <==> {
            let workspace = accepted.plan.workspace_id;
            &&& layer_manifest_verdict(layer) is Ok
            &&& artifact_manifest_verdict(artifacts) is Ok
            &&& layer_fit_verdict(layer, artifacts, x, accepted) is Ok
            &&& terminal_sequence(records, x) matches Ok(end)
            &&& end < artifact_sequence
            &&& base_snapshot(records, x, workspace, Some(artifact_sequence)) == Ok::<
                Seq<char>,
                Seq<char>,
            >(layer.core.base_snapshot_id)
            &&& layer.core.operation_ids.len() == 0
            &&& cover_verdict(
                records,
                x,
                workspace,
                artifact_sequence,
                layer_sequence,
                artifacts.artifacts,
            ) is Ok
        },
{
}

/// The artifacts of a layer are the changes of its execution if and only if each is one, and their
/// paths are the paths that the change sets of the execution change, no more and no fewer.
pub proof fn law_artifacts_cover_the_execution(
    records: Seq<SessionStreamRecordView>,
    x: IntentExecutionLineageV1View,
    workspace_id: Seq<char>,
    artifact_sequence: u64,
    layer_sequence: u64,
    artifacts: Seq<IntentArtifactBindingV1View>,
    paths: Seq<Seq<char>>,
)
    requires
        execution_paths(records, x.changeset_ids, x.changeset_ids.len() as int) == Ok::<
            Seq<Seq<char>>,
            Seq<char>,
        >(paths),
    ensures
        cover_verdict(records, x, workspace_id, artifact_sequence, layer_sequence, artifacts) is Ok <==> {
            &&& forall|i: int|
                0 <= i < artifacts.len() ==> #[trigger] layer_artifact_verdict(
                    records,
                    x,
                    workspace_id,
                    artifact_sequence,
                    layer_sequence,
                    artifacts,
                    i,
                ) is Ok
            &&& forall|i: int|
                0 <= i < artifacts.len() ==> paths.contains(
                    artifact_path_of(#[trigger] artifacts[i]),
                )
            &&& forall|i: int|
                0 <= i < paths.len() ==> has_artifact_at(artifacts, #[trigger] paths[i])
        },
{
    let all = layer_artifact_verdicts(
        records,
        x,
        workspace_id,
        artifact_sequence,
        layer_sequence,
        artifacts,
    );
    lemma_all_pass(all);
    let own = artifact_paths(artifacts);
    if forall|i: int| 0 <= i < all.len() ==> (#[trigger] all[i]) is Ok {
        assert forall|i: int| 0 <= i < artifacts.len() implies #[trigger] layer_artifact_verdict(
            records,
            x,
            workspace_id,
            artifact_sequence,
            layer_sequence,
            artifacts,
            i,
        ) is Ok by {
            assert(all[i] is Ok);
        }
    }
    if forall|i: int|
        0 <= i < artifacts.len() ==> #[trigger] layer_artifact_verdict(
            records,
            x,
            workspace_id,
            artifact_sequence,
            layer_sequence,
            artifacts,
            i,
        ) is Ok {
        assert forall|i: int| 0 <= i < all.len() implies (#[trigger] all[i]) is Ok by {
            assert(layer_artifact_verdict(
                records,
                x,
                workspace_id,
                artifact_sequence,
                layer_sequence,
                artifacts,
                i,
            ) is Ok);
        }
    }
    assert forall|p: Seq<char>| #[trigger] own.contains(p) == has_artifact_at(artifacts, p) by {
        if own.contains(p) {
            let k = choose|k: int| 0 <= k < own.len() && own[k] == p;
            assert(artifact_path_of(artifacts[k]) == p);
        }
        if has_artifact_at(artifacts, p) {
            let k = choose|k: int|
                0 <= k < artifacts.len() && artifact_path_of(#[trigger] artifacts[k]) == p;
            assert(own[k] == p);
        }
    }
    if forall|i: int| 0 <= i < own.len() ==> paths.contains(#[trigger] own[i]) {
        assert forall|i: int| 0 <= i < artifacts.len() implies paths.contains(
            artifact_path_of(#[trigger] artifacts[i]),
        ) by {
            assert(paths.contains(own[i]));
        }
    }
    if forall|i: int|
        0 <= i < artifacts.len() ==> paths.contains(artifact_path_of(#[trigger] artifacts[i])) {
        assert forall|i: int| 0 <= i < own.len() implies paths.contains(#[trigger] own[i]) by {
            assert(artifact_path_of(artifacts[i]) == own[i]);
        }
    }
}

/// An artifact is of a path.
pub open spec fn has_artifact_at(artifacts: Seq<IntentArtifactBindingV1View>, path: Seq<char>) -> bool {
    exists|k: int| 0 <= k < artifacts.len() && artifact_path_of(#[trigger] artifacts[k]) == path
}

/// An artifact can stand in a new layer if and only if it is owned by its intent alone, can be had,
/// is a hunk of a file that no artifact before it is of, and is the applied change of that file.
pub proof fn law_new_artifacts_are_exclusive_hunks(
    records: Seq<SessionStreamRecordView>,
    x: IntentExecutionLineageV1View,
    workspace_id: Seq<char>,
    artifact_sequence: u64,
    layer_sequence: u64,
    artifacts: Seq<IntentArtifactBindingV1View>,
    i: int,
)
    requires
        0 <= i < artifacts.len(),
    ensures
        layer_artifact_verdict(
            records,
            x,
            workspace_id,
            artifact_sequence,
            layer_sequence,
            artifacts,
            i,
        ) is Ok <==> {
            &&& artifacts[i].ownership == IntentArtifactOwnership::Exclusive
            &&& artifacts[i].availability == IntentArtifactAvailability::Available
            &&& artifacts[i].subject matches BoundedIntentArtifactSubjectV1View::FileHunk {
                before_file_digest,
                after_file_digest,
                ..
            }
            &&& forall|j: int|
                0 <= j < i ==> artifact_path_of(#[trigger] artifacts[j]) != artifact_path_of(
                    artifacts[i],
                )
            &&& hunk_verdict(
                records,
                x,
                workspace_id,
                artifact_sequence,
                layer_sequence,
                artifacts[i],
                before_file_digest,
                after_file_digest,
            ) is Ok
        },
{
    let paths = artifact_paths(artifacts);
    if repeats(paths, i) {
        let j = choose|j: int| 0 <= j < i && paths[j] == paths[i];
        assert(artifact_path_of(artifacts[j]) == artifact_path_of(artifacts[i]));
    } else {
        assert forall|j: int| 0 <= j < i implies artifact_path_of(#[trigger] artifacts[j])
            != artifact_path_of(artifacts[i]) by {
            assert(paths[j] == artifact_path_of(artifacts[j]));
        }
    }
}

/// The record proposes a change set.
pub open spec fn offers(id: Seq<char>) -> spec_fn(SessionStreamRecordView) -> bool {
    |r: SessionStreamRecordView|
        r.body matches RecordBodyView::Control(ControlEntryView::ChangeSetProposed(c)) && c.id == id
}

/// The record tells what came of a change set.
pub open spec fn tells_result(id: Seq<char>) -> spec_fn(SessionStreamRecordView) -> bool {
    |r: SessionStreamRecordView|
        r.body matches RecordBodyView::Control(ControlEntryView::ChangeSetApplied(c)) && c.id == id
}

proof fn lemma_offered(records: Seq<SessionStreamRecordView>, id: Seq<char>, n: int, m: int)
    ensures
        is_first(records, offers(id), n) ==> first_where(records, proposes(id)) == Some(n),
        is_first(records, tells_result(id), m) ==> first_where(records, settles(id)) == Some(m),
{
    let f = offers(id);
    let g = proposes(id);
    assert forall|j: int| 0 <= j < records.len() implies f(#[trigger] records[j]) == g(records[j]) by {}
    lemma_first_where(records, g);
    if is_first(records, f, n) {
        assert(g(records[n]));
        let k = first_where(records, g)->0;
        assert(g(records[k]));
        assert(f(records[k]));
    }
    let p = tells_result(id);
    let q = settles(id);
    assert forall|j: int| 0 <= j < records.len() implies p(#[trigger] records[j]) == q(records[j]) by {}
    lemma_first_where(records, q);
    if is_first(records, p, m) {
        assert(q(records[m]));
        let k = first_where(records, q)->0;
        assert(q(records[k]));
        assert(p(records[k]));
    }
}

/// A hunk is the applied change of its file if and only if its change set is one of the execution
/// and has the file, was proposed and applied in front of the artifact manifest, its hashes are
/// those of the file before and after, and the mutation of the file is the one that the hunk names,
/// in front of the artifact manifest, which is in front of the layer manifest.
pub proof fn law_hunks_are_applied_changes(
    records: Seq<SessionStreamRecordView>,
    x: IntentExecutionLineageV1View,
    workspace_id: Seq<char>,
    artifact_sequence: u64,
    layer_sequence: u64,
    a: IntentArtifactBindingV1View,
    before: Seq<char>,
    after: Seq<char>,
    id: Seq<char>,
    n: int,
    m: int,
    k: int,
)
    requires
        a.provenance.changeset_id == Some(id),
        is_first(records, offers(id), n),
        is_first(records, tells_result(id), m),
        ({
            let files = proposal(records, id)->0.files;
            &&& 0 <= k < files.len()
            &&& files[k].path == artifact_path_of(a)
            &&& forall|j: int| 0 <= j < k ==> (#[trigger] files[j]).path != artifact_path_of(a)
        }),
    ensures
        ({
            let file = proposal(records, id)->0.files[k];
            let pair = mutation_pair(records, x, workspace_id, file);
            hunk_verdict(
                records,
                x,
                workspace_id,
                artifact_sequence,
                layer_sequence,
                a,
                before,
                after,
            ) is Ok <==> {
                &&& x.changeset_ids.contains(id)
                &&& records[n].stream_sequence < artifact_sequence
                &&& records[m].stream_sequence < artifact_sequence
                &&& change_result(records, id) matches Some(result)
                &&& result.status == ChangeSetResultStatus::Applied
                &&& file_is_applied(result, file)
                &&& hashes_match(file, before, after)
                &&& pair matches Some(places)
                &&& is_named_mutation(records, a, places, artifact_sequence)
                &&& artifact_sequence < layer_sequence
            }
        }),
{
    lemma_offered(records, id, n, m);
    let files = proposal(records, id)->0.files;
    lemma_find_key_is::<ChangeSetFile>(files, artifact_path_of(a), k);
}

/// The mutation at two places is the one that an artifact names, and ended in front of a place.
pub open spec fn is_named_mutation(
    records: Seq<SessionStreamRecordView>,
    a: IntentArtifactBindingV1View,
    places: (int, int),
    artifact_sequence: u64,
) -> bool {
    let (prepared, committed) = places;
    &&& records[committed].event_id == a.provenance.source_event_id
    &&& records[committed].stream_sequence < artifact_sequence
    &&& a.provenance.mutation_batch_id == Some(
        mutation_identity(crate::stream::prepared_in(records[prepared])->0),
    )
}

/// A hunk that names no change set, or one that the execution does not have, or one that the stream
/// does not propose or settle, is refused.
pub proof fn law_hunks_of_other_changes_are_refused(
    records: Seq<SessionStreamRecordView>,
    x: IntentExecutionLineageV1View,
    workspace_id: Seq<char>,
    artifact_sequence: u64,
    layer_sequence: u64,
    a: IntentArtifactBindingV1View,
    before: Seq<char>,
    after: Seq<char>,
)
    requires
        a.provenance.changeset_id matches Some(id) ==> !x.changeset_ids.contains(id) || is_nowhere(
            records,
            offers(id),
        ) || is_nowhere(records, tells_result(id)),
    ensures
        hunk_verdict(
            records,
            x,
            workspace_id,
            artifact_sequence,
            layer_sequence,
            a,
            before,
            after,
        ) is Err,
{
    if let Some(id) = a.provenance.changeset_id {
        lemma_first_where(records, proposes(id));
        lemma_first_where(records, settles(id));
        if let Some(j) = first_where(records, proposes(id)) {
            assert(proposes(id)(records[j]));
            assert(offers(id)(records[j]));
        }
        if let Some(j) = first_where(records, settles(id)) {
            assert(settles(id)(records[j]));
            assert(tells_result(id)(records[j]));
        }
    }
}

/// An artifact manifest waits for its layer if and only if it is valid and of its execution and
/// none waits for that execution yet. It is kept with its event behind those that wait; no layer
/// changes.
pub proof fn law_artifact_manifests_wait_for_their_layer(
    lineage: IntentLineageProjectionV1View,
    s: LayerReplay,
    record: SessionStreamRecordView,
    manifest: IntentArtifactManifestV1View,
)
    ensures
        ({
            let r = after_artifact_manifest(lineage, s, record, manifest);
            &&& r is Ok <==> {
                &&& execution_with(lineage, manifest.execution_id) matches Some(x)
                &&& artifact_manifest_verdict(manifest) is Ok
                &&& manifest.intent_ref == x.binding.intent_ref
                &&& manifest.execution_id == x.binding.execution_id
                &&& forall|i: int|
                    0 <= i < s.pending.len() ==> (#[trigger] s.pending[i]).manifest.execution_id
                        != manifest.execution_id
            }
            &&& r matches Ok(t) ==> {
                &&& t.layers == s.layers
                &&& t.pending.len() == s.pending.len() + 1
                &&& t.pending.last().manifest == manifest
                &&& t.pending.last().event_id == record.event_id
                &&& t.pending.last().stream_sequence == record.stream_sequence
                &&& forall|i: int| 0 <= i < s.pending.len() ==> #[trigger] t.pending[i] == s.pending[i]
            }
        }),
{
    lemma_find_key::<PendingArtifactManifestV1>(s.pending, manifest.execution_id);
    if let Some(i) = find_key::<PendingArtifactManifestV1>(s.pending, manifest.execution_id) {
        assert(s.pending[i].manifest.execution_id == manifest.execution_id);
    } else {
        assert forall|i: int| 0 <= i < s.pending.len() implies (
        #[trigger] s.pending[i]).manifest.execution_id != manifest.execution_id by {
            assert(PendingArtifactManifestV1::key(s.pending[i]) != manifest.execution_id);
        }
    }
}

/// A layer manifest completes the artifact manifest that waits for its execution if and only if it
/// follows it at once, its plan was accepted, the layer is complete, and the execution has no layer
/// yet. The layer then stands behind the others with its artifacts as they were bound, and the
/// artifact manifest waits no more.
pub proof fn law_layer_manifests_complete_what_waits(
    records: Seq<SessionStreamRecordView>,
    admission: IntentStackProjectionV1View,
    lineage: IntentLineageProjectionV1View,
    s: LayerReplay,
    record: SessionStreamRecordView,
    manifest: IntentLayerManifestV1View,
    k: int,
)
    requires
        0 <= k < s.pending.len(),
        s.pending[k].manifest.execution_id == manifest.core.execution_id,
        s.pending[k].stream_sequence < u64::MAX,
        forall|j: int|
            0 <= j < k ==> (#[trigger] s.pending[j]).manifest.execution_id
                != manifest.core.execution_id,
    ensures
        ({
            let r = after_layer_manifest(records, admission, lineage, s, record, manifest);
            let p = s.pending[k];
            &&& r is Ok <==> {
                &&& execution_with(lineage, manifest.core.execution_id) matches Some(x)
                &&& record.stream_sequence == p.stream_sequence + 1
                &&& accepted_version(admission, x.stack_version) matches Some(accepted)
                &&& complete_layer_verdict(
                    records,
                    manifest,
                    p.manifest,
                    x,
                    accepted,
                    p.stream_sequence,
                    record.stream_sequence,
                ) is Ok
                &&& forall|i: int|
                    0 <= i < s.layers.len() ==> (
                    #[trigger] s.layers[i]).layer_manifest.core.execution_id
                        != manifest.core.execution_id
            }
            &&& r matches Ok(t) ==> {
                &&& t.pending == s.pending.remove(k)
                &&& t.layers.len() == s.layers.len() + 1
                &&& forall|i: int| 0 <= i < s.layers.len() ==> #[trigger] t.layers[i] == s.layers[i]
                &&& t.layers.last().artifact_manifest == p.manifest
                &&& t.layers.last().layer_manifest == manifest
                &&& t.layers.last().artifact_event_id == p.event_id
                &&& t.layers.last().layer_event_id == record.event_id
                &&& t.layers.last().layer_stream_sequence == record.stream_sequence
                &&& t.layers.last().artifacts.len() == p.manifest.artifacts.len()
                &&& forall|i: int|
                    0 <= i < p.manifest.artifacts.len() ==> (
                    #[trigger] t.layers.last().artifacts[i]).binding == p.manifest.artifacts[i]
                        && t.layers.last().artifacts[i].ownership == p.manifest.artifacts[i].ownership
                        && t.layers.last().artifacts[i].availability
                        == p.manifest.artifacts[i].availability
            }
        }),
{
    let id = manifest.core.execution_id;
    lemma_find_key_is::<PendingArtifactManifestV1>(s.pending, id, k);
    lemma_find_key::<IntentLayerStateV1>(s.layers, id);
    if let Some(i) = find_key::<IntentLayerStateV1>(s.layers, id) {
        assert(s.layers[i].layer_manifest.core.execution_id == id);
    } else {
        assert forall|i: int| 0 <= i < s.layers.len() implies (
        #[trigger] s.layers[i]).layer_manifest.core.execution_id != id by {
            assert(IntentLayerStateV1::key(s.layers[i]) != id);
        }
    }
}

// Facts, conflicts and requests.

/// A record is told twice if and only if a record in front of it proposes the same change set, or
/// tells of it what came of it; a policy whose hash is not its own is no fact.
pub proof fn law_facts_are_told_once(records: Seq<SessionStreamRecordView>, i: int)
    requires
        0 <= i < records.len(),
    ensures
        records[i].body matches RecordBodyView::Control(ControlEntryView::ChangeSetProposed(c)) ==> (
        fact_verdict(records, i) is Ok <==> is_first(records, offers(c.id), i)),
        records[i].body matches RecordBodyView::Control(ControlEntryView::ChangeSetApplied(c)) ==> (
        fact_verdict(records, i) is Ok <==> is_first(records, tells_result(c.id), i)),
        records[i].body matches RecordBodyView::Control(
            ControlEntryView::VerificationPolicyChanged(p),
        ) ==> (fact_verdict(records, i) is Ok ==> p.stable_hash == p.policy_hash),
        records[i].body matches RecordBodyView::Control(
            ControlEntryView::VerificationPolicyChanged(p),
        ) ==> (p.stable_hash == p.policy_hash && p.required_checks.len() == 0 ==> fact_verdict(
            records,
            i,
        ) is Ok),
        records[i].body matches RecordBodyView::Control(ControlEntryView::VerificationRecorded(v))
            ==> (fact_verdict(records, i) is Ok <==> v.source_identity_error is None),
        records[i].body matches RecordBodyView::Control(
            ControlEntryView::TaskParentVerificationRecorded(v),
        ) ==> (fact_verdict(records, i) is Ok <==> v.validation_error is None),
{
    match records[i].body {
        RecordBodyView::Control(ControlEntryView::ChangeSetProposed(c)) => {
            lemma_offered(records, c.id, i, i);
            lemma_first_where(records, proposes(c.id));
            assert(offers(c.id)(records[i]));
            if first_where(records, proposes(c.id)) == Some(i) {
                assert forall|j: int| 0 <= j < i implies !offers(c.id)(#[trigger] records[j]) by {
                    assert(!proposes(c.id)(records[j]));
                }
            }
        },
        RecordBodyView::Control(ControlEntryView::ChangeSetApplied(c)) => {
            lemma_offered(records, c.id, i, i);
            lemma_first_where(records, settles(c.id));
            assert(tells_result(c.id)(records[i]));
            if first_where(records, settles(c.id)) == Some(i) {
                assert forall|j: int| 0 <= j < i implies !tells_result(c.id)(#[trigger] records[j]) by {
                    assert(!settles(c.id)(records[j]));
                }
            }
        },
        RecordBodyView::Control(ControlEntryView::VerificationPolicyChanged(p)) => {
            if p.required_checks.len() == 0 {
                lemma_all_pass(
                    p.required_checks.map_values(crate::lineage_facts::shape_verdict()),
                );
            }
        },
        _ => {},
    }
}

/// A conflict is recorded if and only if it is of a plan of its stack that was accepted in front of
/// it. It then stands behind the others, and no operation changes.
pub proof fn law_conflicts_are_kept_in_order(
    admission: IntentStackProjectionV1View,
    s: OperationReplayView,
    sequence: u64,
    stack_id: Seq<char>,
    stack_version: u64,
    conflict: IntentConflictV1View,
)
    ensures
        ({
            let r = after_conflict(admission, s, sequence, stack_id, stack_version, conflict);
            &&& r is Ok <==> {
                &&& accepted_version(admission, stack_version) matches Some(accepted)
                &&& accepted.plan.stack_id == stack_id
                &&& accepted.accepted_stream_sequence < sequence
            }
            &&& r matches Ok(t) ==> {
                &&& t.operations == s.operations
                &&& t.dropped == s.dropped
                &&& t.conflicts.len() == s.conflicts.len() + 1
                &&& t.conflicts.last() == conflict
                &&& forall|i: int| 0 <= i < s.conflicts.len() ==> #[trigger] t.conflicts[i]
                    == s.conflicts[i]
            }
        }),
{
}

/// The conflicts of a preview are recorded one by one in their order, each for the stack and the
/// version of the preview; and an operation in conflict ends as that, without a batch and without a
/// snapshot.
pub proof fn law_conflicts_are_told_one_by_one(
    stack_id: Seq<char>,
    stack_version: u64,
    conflicts: Seq<IntentConflictV1View>,
    operation_id: Seq<char>,
    i: int,
)
    requires
        0 <= i < conflicts.len(),
    ensures
        conflict_events(stack_id, stack_version, conflicts).len() == conflicts.len(),
        conflict_events(stack_id, stack_version, conflicts)[i] matches IntentEventV1View::ConflictRecorded {
            schema_version,
            stack_id: stack,
            stack_version: version,
            conflict,
        } && schema_version == 1 && stack == stack_id && version == stack_version && conflict
            == conflicts[i],
        conflicted_event(operation_id) matches IntentEventV1View::OperationResolved {
            schema_version,
            operation_id: id,
            resolution,
            mutation_batch_id,
            result_snapshot_id,
            error_code,
        } && schema_version == 1 && id == operation_id && resolution
            == IntentOperationResolution::Conflicted && mutation_batch_id is None
            && result_snapshot_id is None && error_code == Some(
            IntentOperationErrorCode::IntentStateConflict,
        ),
{
}

/// The record requests an operation.
pub open spec fn requests(id: Seq<char>) -> spec_fn(SessionStreamRecordView) -> bool {
    |r: SessionStreamRecordView|
        r.body matches RecordBodyView::Intent(IntentEventV1View::OperationRequested { preview, .. })
            && preview.operation_id == id
}

/// A request is appended if and only if it is valid, the stream has not moved on, and no request of
/// its operation stands in it. One that stands there letter for letter is not appended again, and
/// another one is refused.
pub proof fn law_requests_are_appended_once(
    records: Seq<SessionStreamRecordView>,
    e: IntentEventV1View,
    frontier: u64,
    k: int,
)
    requires
        e is OperationRequested,
    ensures
        ({
            let id = e->OperationRequested_preview.operation_id;
            let r = request_append(records, e, frontier);
            let sound = event_verdict(e) is Ok && frontier_of(records) == frontier;
            &&& !sound ==> r is Err
            &&& sound && is_nowhere(records, requests(id)) ==> r == Ok::<bool, Seq<char>>(true)
            &&& sound && is_first(records, requests(id), k) && records[k].body
                == RecordBodyView::Intent(e) ==> r == Ok::<bool, Seq<char>>(false)
            &&& sound && is_first(records, requests(id), k) && records[k].body
                != RecordBodyView::Intent(e) ==> r is Err
        }),
{
    let id = e->OperationRequested_preview.operation_id;
    let f = requests(id);
    let g = crate::drop_execution::tells_step(e);
    assert forall|j: int| 0 <= j < records.len() implies f(#[trigger] records[j]) == g(records[j]) by {}
    lemma_first_where(records, g);
    match first_where(records, g) {
        Some(n) => {
            assert(g(records[n]));
            assert(f(records[n]));
            if is_first(records, f, k) {
                if k < n {
                    assert(!g(records[k]));
                }
                if n < k {
                    assert(!f(records[n]));
                }
            }
        },
        None => {
            if is_first(records, f, k) {
                assert(!g(records[k]));
            }
        },
    }
}

/// The paths that change sets mention are those of their files, and those that files had before.
pub proof fn law_mentioned_paths_are_exact(files: Seq<ChangeSetFileView>, path: Seq<char>)
    ensures
        mentioned_paths(files).contains(path) <==> exists|i: int|
            0 <= i < files.len() && mentions(#[trigger] files[i], path),
    decreases files.len(),
{
    if files.len() > 0 {
        let rest = files.drop_last();
        let last = files[files.len() - 1];
        law_mentioned_paths_are_exact(rest, path);
        let before = mentioned_paths(rest);
        crate::intent_impact::lemma_pushed_members(before, last.path, path);
        if let Some(p) = last.previous_path {
            crate::intent_impact::lemma_pushed_members(before.push(last.path), p, path);
        }
        if exists|i: int| 0 <= i < rest.len() && mentions(#[trigger] rest[i], path) {
            let i = choose|i: int| 0 <= i < rest.len() && mentions(#[trigger] rest[i], path);
            assert(mentions(files[i], path));
        }
        if exists|i: int| 0 <= i < files.len() && mentions(#[trigger] files[i], path) {
            let i = choose|i: int| 0 <= i < files.len() && mentions(#[trigger] files[i], path);
            if i < rest.len() {
                assert(mentions(rest[i], path));
            }
        }
        if mentions(last, path) {
            assert(mentions(files[files.len() - 1], path));
        }
    }
}

/// A file has a path, or had it before.
pub open spec fn mentions(file: ChangeSetFileView, path: Seq<char>) -> bool {
    file.path == path || file.previous_path == Some(path)
}

} // verus!
