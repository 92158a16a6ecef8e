//! What is written of layers is read back: records of intents tell nothing of changes, so a replay that
//! goes on with them finds every layer as it was.

use vstd::prelude::*;

use crate::intent::{
    BoundedIntentArtifactSubjectV1View, IntentArtifactBindingV1View, IntentArtifactManifestV1View,
    IntentEventV1View, IntentExecutionOriginV1View, IntentLayerManifestV1View,
};
use crate::intent_admission::plan_refs;
use crate::intent_event_contract::{event_payload_verdict, event_verdict};
use crate::intent_layer::{
    artifact_path_of, complete_layer_verdict, completed_layer, execution_paths, hunk_verdict,
    layer_artifact_verdicts, layer_evidence_verdict, layer_with, layers_after, layers_of,
    LayerReplay, PendingArtifactManifestV1, PendingArtifactManifestV1View,
};
use crate::intent_layer_contract::{artifact_manifest_verdict, layer_manifest_verdict};
use crate::intent_lineage::{execution_with, lineage_of, IntentLineageProjectionV1View};
use crate::intent_stack::{
    accepted_version, latest_accepted, law_replayed_stacks_are_sound, lemma_latest_version,
    stack_of, IntentStackProjectionV1View,
};
use crate::intent_state::{
    AcceptedIntentPlanProjectionV1View, IntentExecutionLineageV1, IntentExecutionLineageV1View,
    IntentLayerProjectionV1View, IntentLayerStateV1,
};
use crate::layer_facts::{
    change_fact_verdicts, commits_for, completes_attempt, completes_run, is_applied_batch,
    is_batch_end_event, layer_facts_verdict, lemma_mutation_pair, mutation_pair, prepares_for,
    promotes_into, task_batch, touched_files, touched_sets, TouchedFileBaseV1View,
};
use crate::layer_materialization::{
    all_before, artifact_event, artifact_manifest_of, core_of, is_named_exactly,
    law_drafted_layers_are_accepted, layer_event, layer_manifest_of, materialized_execution,
    IntentFileObservationV1View, IntentLayerDraftV1View, IntentLayerMaterializationV1View,
};
use crate::lineage_facts::{proposal, proposes, settles};
use crate::lineage_replay::{
    follows, lemma_admission_goes_on, lemma_lineage_unchanged, lemma_proposals_stay,
    lemma_push_first, same_plans,
};
use crate::records::{
    ChangeSetFile, ChangeSetFileView, ControlEntryView, RecordBodyView, SessionStreamRecordView,
    TaskStateProjectionView,
};
use crate::search::{all_where, first_where};
use crate::stream::{intent_event_in, prepared_in};
use crate::value::{find_key, lemma_all_pass, lemma_find_key};

verus! {

pub(crate) proof fn lemma_layer_facts_stay(records: Seq<SessionStreamRecordView>, r: SessionStreamRecordView)
    requires
        r.body is Intent,
        layer_facts_verdict(records) is Ok,
    ensures
        layer_facts_verdict(records.push(r)) is Ok,
{
    let all = records.push(r);
    let old_facts = change_fact_verdicts(records);
    let facts = change_fact_verdicts(all);
    lemma_all_pass(old_facts);
    lemma_all_pass(facts);
    let n = records.len() as int;
    assert forall|i: int| 0 <= i < facts.len() implies #[trigger] facts[i] is Ok by {
        if i < n {
            assert(all[i] == records[i]);
            assert(old_facts[i] is Ok);
            match records[i].body {
                RecordBodyView::Control(ControlEntryView::ChangeSetProposed(c)) => {
                    lemma_proposals_stay(records, r, c.id);
                },
                RecordBodyView::Control(ControlEntryView::ChangeSetApplied(c)) => {
                    lemma_proposals_stay(records, r, c.id);
                },
                _ => {},
            }
            assert(facts[i] == old_facts[i]);
        } else {
            assert(all[i] == r);
        }
    }
}

proof fn lemma_mutations_stay(
    records: Seq<SessionStreamRecordView>,
    r: SessionStreamRecordView,
    x: IntentExecutionLineageV1View,
    workspace_id: Seq<char>,
    file: ChangeSetFileView,
)
    requires
        r.body is Intent,
    ensures
        mutation_pair(records.push(r), x, workspace_id, file) == mutation_pair(
            records,
            x,
            workspace_id,
            file,
        ),
        mutation_pair(records, x, workspace_id, file) matches Some(pair) ==> records.push(r)[pair.0]
            == records[pair.0] && records.push(r)[pair.1] == records[pair.1],
{
    let all = records.push(r);
    if let Some(id) = x.parent_mutation_event_id {
        let e = is_batch_end_event(id);
        lemma_push_first(records, r, e, e);
    }
    let batch = task_batch(records, x);
    assert(task_batch(all, x) == batch);
    let p = prepares_for(records, x, batch, workspace_id, file);
    let q = prepares_for(all, x, batch, workspace_id, file);
    assert forall|i: int| 0 <= i < records.len() implies p(#[trigger] records[i]) == q(
        records[i],
    ) by {
        if let Some(m) = prepared_in(records[i]) {
            let c = commits_for(x, batch, m, records[i].stream_sequence, workspace_id, file);
            lemma_push_first(records, r, c, c);
        }
    }
    lemma_push_first(records, r, p, q);
    if let Some(i) = first_where(records, p) {
        let c = commits_for(
            x,
            batch,
            prepared_in(records[i])->0,
            records[i].stream_sequence,
            workspace_id,
            file,
        );
        lemma_push_first(records, r, c, c);
    }
    lemma_mutation_pair(records, x, workspace_id, file);
}

proof fn lemma_touched_files_stay(
    records: Seq<SessionStreamRecordView>,
    r: SessionStreamRecordView,
    x: IntentExecutionLineageV1View,
    workspace_id: Seq<char>,
    before: Option<u64>,
    files: Seq<ChangeSetFileView>,
    n: int,
    others: Seq<TouchedFileBaseV1View>,
)
    requires
        r.body is Intent,
    ensures
        touched_files(records.push(r), x, workspace_id, before, files, n, others) == touched_files(
            records,
            x,
            workspace_id,
            before,
            files,
            n,
            others,
        ),
    decreases n,
{
    if n > 0 {
        lemma_touched_files_stay(records, r, x, workspace_id, before, files, n - 1, others);
        lemma_mutations_stay(records, r, x, workspace_id, files[n - 1]);
    }
}

proof fn lemma_touched_sets_stay(
    records: Seq<SessionStreamRecordView>,
    r: SessionStreamRecordView,
    x: IntentExecutionLineageV1View,
    workspace_id: Seq<char>,
    before: Option<u64>,
    n: int,
)
    requires
        r.body is Intent,
    ensures
        touched_sets(records.push(r), x, workspace_id, before, n) == touched_sets(
            records,
            x,
            workspace_id,
            before,
            n,
        ),
    decreases n,
{
    if n > 0 {
        lemma_touched_sets_stay(records, r, x, workspace_id, before, n - 1);
        let id = x.changeset_ids[n - 1];
        lemma_proposals_stay(records, r, id);
        if let Ok(list) = touched_sets(records, x, workspace_id, before, n - 1) {
            if let Some(c) = proposal(records, id) {
                lemma_touched_files_stay(
                    records,
                    r,
                    x,
                    workspace_id,
                    before,
                    c.files,
                    c.files.len() as int,
                    list,
                );
            }
        }
    }
}

proof fn lemma_layer_evidence_stays(
    records: Seq<SessionStreamRecordView>,
    r: SessionStreamRecordView,
    x: IntentExecutionLineageV1View,
    workspace_id: Seq<char>,
    artifact_sequence: u64,
    base: Seq<char>,
)
    requires
        r.body is Intent,
    ensures
        layer_evidence_verdict(records.push(r), x, workspace_id, artifact_sequence, base)
            == layer_evidence_verdict(records, x, workspace_id, artifact_sequence, base),
{
    match x.binding.origin {
        IntentExecutionOriginV1View::Task { task_id, task_plan_version, step_id, attempt_id } => {
            if let Some(attempt_id) = attempt_id {
                let p = completes_attempt(
                    x.binding_stream_sequence,
                    attempt_id,
                    task_id,
                    task_plan_version,
                    step_id,
                );
                lemma_push_first(records, r, p, p);
            }
            if let Some(id) = x.parent_mutation_event_id {
                let b = is_applied_batch(id);
                lemma_push_first(records, r, b, b);
                if let Some(i) = first_where(records, b) {
                    let p = promotes_into(
                        records[i].stream_sequence,
                        Some(artifact_sequence),
                        x.parent_snapshot_id,
                    );
                    lemma_push_first(records, r, p, p);
                }
            }
        },
        IntentExecutionOriginV1View::Chat { root_logical_run_id, .. } => {
            let p = completes_run(x.binding_stream_sequence, root_logical_run_id);
            lemma_push_first(records, r, p, p);
            lemma_touched_sets_stay(
                records,
                r,
                x,
                workspace_id,
                Some(artifact_sequence),
                x.changeset_ids.len() as int,
            );
        },
    }
}

proof fn lemma_paths_stay(
    records: Seq<SessionStreamRecordView>,
    r: SessionStreamRecordView,
    ids: Seq<Seq<char>>,
    n: int,
)
    requires
        r.body is Intent,
    ensures
        execution_paths(records.push(r), ids, n) == execution_paths(records, ids, n),
    decreases n,
{
    if n > 0 {
        lemma_paths_stay(records, r, ids, n - 1);
        lemma_proposals_stay(records, r, ids[n - 1]);
    }
}

proof fn lemma_hunks_stay(
    records: Seq<SessionStreamRecordView>,
    r: SessionStreamRecordView,
    x: IntentExecutionLineageV1View,
    workspace_id: Seq<char>,
    artifact_sequence: u64,
    layer_sequence: u64,
    a: IntentArtifactBindingV1View,
    before: Seq<char>,
    after: Seq<char>,
)
    requires
        r.body is Intent,
    ensures
        hunk_verdict(
            records.push(r),
            x,
            workspace_id,
            artifact_sequence,
            layer_sequence,
            a,
            before,
            after,
        ) == hunk_verdict(
            records,
            x,
            workspace_id,
            artifact_sequence,
            layer_sequence,
            a,
            before,
            after,
        ),
{
    if let Some(id) = a.provenance.changeset_id {
        lemma_proposals_stay(records, r, id);
        lemma_push_first(records, r, proposes(id), proposes(id));
        lemma_push_first(records, r, settles(id), settles(id));
        if let Some(c) = proposal(records, id) {
            if let Some(k) = find_key::<ChangeSetFile>(c.files, artifact_path_of(a)) {
                lemma_mutations_stay(records, r, x, workspace_id, c.files[k]);
            }
        }
    }
}

proof fn lemma_complete_layers_stay(
    records: Seq<SessionStreamRecordView>,
    r: SessionStreamRecordView,
    layer: IntentLayerManifestV1View,
    artifacts: IntentArtifactManifestV1View,
    x: IntentExecutionLineageV1View,
    accepted: AcceptedIntentPlanProjectionV1View,
    artifact_sequence: u64,
    layer_sequence: u64,
)
    requires
        r.body is Intent,
    ensures
        complete_layer_verdict(
            records.push(r),
            layer,
            artifacts,
            x,
            accepted,
            artifact_sequence,
            layer_sequence,
        ) == complete_layer_verdict(
            records,
            layer,
            artifacts,
            x,
            accepted,
            artifact_sequence,
            layer_sequence,
        ),
{
    let all = records.push(r);
    let workspace_id = accepted.plan.workspace_id;
    lemma_layer_evidence_stays(
        records,
        r,
        x,
        workspace_id,
        artifact_sequence,
        layer.core.base_snapshot_id,
    );
    lemma_paths_stay(records, r, x.changeset_ids, x.changeset_ids.len() as int);
    let list = artifacts.artifacts;
    let now = layer_artifact_verdicts(
        all,
        x,
        workspace_id,
        artifact_sequence,
        layer_sequence,
        list,
    );
    let was = layer_artifact_verdicts(
        records,
        x,
        workspace_id,
        artifact_sequence,
        layer_sequence,
        list,
    );
    assert forall|i: int| 0 <= i < list.len() implies #[trigger] now[i] == was[i] by {
        if let BoundedIntentArtifactSubjectV1View::FileHunk {
            before_file_digest,
            after_file_digest,
            ..
        } = list[i].subject {
            lemma_hunks_stay(
                records,
                r,
                x,
                workspace_id,
                artifact_sequence,
                layer_sequence,
                list[i],
                before_file_digest,
                after_file_digest,
            );
        }
    }
    assert(now =~= was);
}

pub(crate) proof fn lemma_layers_stay(
    records: Seq<SessionStreamRecordView>,
    r: SessionStreamRecordView,
    admission: IntentStackProjectionV1View,
    after: IntentStackProjectionV1View,
    lineage: IntentLineageProjectionV1View,
    n: int,
)
    requires
        r.body is Intent,
        same_plans(admission, after),
        0 <= n <= records.len(),
    ensures
        layers_after(records.push(r), after, lineage, n) == layers_after(
            records,
            admission,
            lineage,
            n,
        ),
    decreases n,
{
    if n > 0 {
        lemma_layers_stay(records, r, admission, after, lineage, n - 1);
        let record = records[n - 1];
        assert(records.push(r)[n - 1] == record);
        if let Ok(s) = layers_after(records, admission, lineage, n - 1) {
            if let Some(IntentEventV1View::LayerManifestRecorded { manifest, .. }) = intent_event_in(
                record,
            ) {
                let id = manifest.core.execution_id;
                if let Some(x) = execution_with(lineage, id) {
                    if let Some(i) = find_key::<PendingArtifactManifestV1>(s.pending, id) {
                        if let Some(accepted) = accepted_version(admission, x.stack_version) {
                            lemma_complete_layers_stay(
                                records,
                                r,
                                manifest,
                                s.pending[i].manifest,
                                x,
                                accepted,
                                s.pending[i].stream_sequence,
                                record.stream_sequence,
                            );
                        }
                    }
                }
            }
        }
    }
}

/// A layer that was drafted is read back: a replay of the stream with the records of its manifests shows
/// it, and the lineage as it was, where its change sets name the contents of their files exactly.
pub proof fn law_drafted_layers_are_read_back(
    records: Seq<SessionStreamRecordView>,
    a: SessionStreamRecordView,
    l: SessionStreamRecordView,
    admission: IntentStackProjectionV1View,
    tasks: TaskStateProjectionView,
    accepted: AcceptedIntentPlanProjectionV1View,
    lineage: IntentLineageProjectionV1View,
    layers: IntentLayerProjectionV1View,
    x: IntentExecutionLineageV1View,
    observations: Seq<IntentFileObservationV1View>,
    d: IntentLayerDraftV1View,
    artifacts: IntentArtifactManifestV1View,
    layer: IntentLayerManifestV1View,
    forward: Seq<char>,
    reverse: Seq<char>,
    ids: Seq<Seq<char>>,
    manifest_id: Seq<char>,
)
    requires
        records.len() < u64::MAX,
        stack_of(records) == Ok::<_, Seq<char>>(admission),
        latest_accepted(admission) == Some(accepted),
        lineage_of(records, admission, tasks) == Ok::<_, Seq<char>>(lineage),
        layers_of(records, admission, lineage) == Ok::<_, Seq<char>>(layers),
        layer_with(layers, x.binding.execution_id) is None,
        execution_with(lineage, x.binding.execution_id) == Some(x),
        x.stack_version == accepted.plan.stack_version,
        plan_refs(accepted.plan).contains(x.binding.intent_ref),
        materialized_execution(
            records,
            x,
            accepted.plan.workspace_id,
            x.binding.execution_id,
            observations,
        ) == Ok::<_, Seq<char>>(IntentLayerMaterializationV1View::Draft(d)),
        ids.len() == d.files.len(),
        artifacts == artifact_manifest_of(d, core_of(d, forward, reverse).core_digest, ids),
        layer == layer_manifest_of(
            core_of(d, forward, reverse),
            manifest_id,
            artifacts.manifest_digest,
        ),
        event_verdict(artifact_event(artifacts)) is Ok,
        event_verdict(layer_event(layer)) is Ok,
        all_where(d.files, is_named_exactly(records)),
        a.body == RecordBodyView::Intent(artifact_event(artifacts)),
        l.body == RecordBodyView::Intent(layer_event(layer)),
        follows(admission, a),
        all_before(records, a.stream_sequence),
        a.stream_sequence < u64::MAX,
        l.stream_sequence == a.stream_sequence + 1,
    ensures
        stack_of(records.push(a).push(l)) matches Ok(after) && lineage_of(
            records.push(a).push(l),
            after,
            tasks,
        ) == Ok::<_, Seq<char>>(lineage) && (layers_of(
            records.push(a).push(l),
            after,
            lineage,
        ) matches Ok(q) && (layer_with(q, x.binding.execution_id) matches Some(s)
            && s.artifact_manifest == artifacts && s.layer_manifest == layer && s.artifact_event_id
            == a.event_id && s.layer_event_id == l.event_id)),
{
    let one = records.push(a);
    let all = one.push(l);
    let id = x.binding.execution_id;
    let n = records.len() as int;
    assert(artifact_manifest_verdict(artifacts) is Ok && layer_manifest_verdict(layer) is Ok) by {
        reveal(event_payload_verdict);
    }
    lemma_admission_goes_on(records, a, admission, artifact_event(artifacts));
    let first = stack_of(one)->Ok_0;
    lemma_admission_goes_on(one, l, first, layer_event(layer));
    let after = stack_of(all)->Ok_0;
    lemma_lineage_unchanged(records, a, admission, first, tasks, accepted, lineage);
    lemma_lineage_unchanged(one, l, first, after, tasks, accepted, lineage);
    law_replayed_stacks_are_sound(records);
    lemma_latest_version(admission);
    lemma_layer_facts_stay(records, a);
    lemma_layer_facts_stay(one, l);
    lemma_layers_stay(records, a, admission, first, lineage, n);
    lemma_layers_stay(one, l, first, after, lineage, n);
    lemma_layers_stay(one, l, first, after, lineage, n + 1);
    let s = layers_after(records, admission, lineage, n)->Ok_0;
    assert(s.pending.len() == 0);
    assert(one[n] == a);
    assert(all[n] == a && all[n + 1] == l);
    let waiting = PendingArtifactManifestV1View {
        manifest: artifacts,
        event_id: a.event_id,
        stream_sequence: a.stream_sequence,
    };
    lemma_find_key::<IntentExecutionLineageV1>(lineage.executions, id);
    assert(layers_after(one, first, lineage, n + 1) == Ok::<_, Seq<char>>(
        LayerReplay { pending: s.pending.push(waiting), layers: s.layers },
    )) by {
        lemma_find_key::<PendingArtifactManifestV1>(s.pending, id);
        assert(layers_after(one, first, lineage, n) == Ok::<_, Seq<char>>(s));
    }
    let pending = s.pending.push(waiting);
    lemma_find_key::<PendingArtifactManifestV1>(pending, id);
    assert(pending[0] == waiting);
    assert(find_key::<PendingArtifactManifestV1>(pending, id) == Some(0int));
    law_drafted_layers_are_accepted(
        records,
        x,
        accepted,
        observations,
        d,
        artifacts,
        layer,
        forward,
        reverse,
        ids,
        manifest_id,
        a.stream_sequence,
        l.stream_sequence,
    );
    lemma_complete_layers_stay(
        records,
        a,
        layer,
        artifacts,
        x,
        accepted,
        a.stream_sequence,
        l.stream_sequence,
    );
    lemma_complete_layers_stay(
        one,
        l,
        layer,
        artifacts,
        x,
        accepted,
        a.stream_sequence,
        l.stream_sequence,
    );
    lemma_find_key::<IntentLayerStateV1>(s.layers, id);
    lemma_find_key::<IntentLayerStateV1>(layers.layers, id);
    assert forall|i: int| 0 <= i < s.layers.len() implies (
    #[trigger] s.layers[i]).layer_manifest.core.execution_id != id by {
        assert(layers.layers[i].layer_manifest == s.layers[i].layer_manifest);
    }
    assert(find_key::<IntentLayerStateV1>(s.layers, id) is None);
    let new = completed_layer(waiting, l, layer);
    let t = LayerReplay { pending: pending.remove(0), layers: s.layers.push(new) };
    assert(layers_after(all, after, lineage, n + 2) == Ok::<_, Seq<char>>(t));
    assert(t.pending.len() == 0);
    let q = layers_of(all, after, lineage)->Ok_0;
    let m = s.layers.len() as int;
    assert(q.layers[m].layer_manifest == layer);
    lemma_find_key::<IntentLayerStateV1>(q.layers, id);
    assert forall|i: int| 0 <= i < m implies (
    #[trigger] q.layers[i]).layer_manifest.core.execution_id != id by {
        assert(q.layers[i].layer_manifest == s.layers[i].layer_manifest);
    }
    assert(find_key::<IntentLayerStateV1>(q.layers, id) == Some(m));
}

} // verus!
