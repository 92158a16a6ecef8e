//! What the exact change of a file is, when a layer is drafted of it, what stands behind it, and
//! how the change of a chat becomes a change set.

use vstd::prelude::*;

use crate::integration::{IntegrationPromotionEffectView, IntegrationPromotionStatus};
use crate::intent::{
    content_digest_of, BoundedIntentArtifactSubjectV1View, IntentArtifactAvailability,
    IntentArtifactKind, IntentArtifactOwnership, IntentExecutionBindingKind,
    IntentExecutionOriginV1View, IntentVersionRefView,
};
use crate::intent_layer::{file_is_applied, hashes_match};
use crate::intent_patch::{changed_ranges, MaterializedIntentFileView};
use crate::intent_state::{
    AcceptedIntentPlanProjectionV1View, IntentExecutionLineageV1View,
    IntentLayerReadOnlyReasonV1,
};
use crate::layer_facts::{
    base_snapshot, commits_for, completes_attempt, completes_run, is_applied_batch,
    layer_facts_verdict, mutation_pair, prepares_for, promotes_into, task_batch, terminal_sequence,
    touched_base,
};
use crate::layer_materialization::{
    artifact_manifest_of, binding_of, contents_after, contents_before, core_of, exact_change,
    execution_changes, has_digest, layer_manifest_of, lower_case, materialized_execution,
    observed_change, IntentFileObservationV1View, IntentLayerDraftV1View,
    IntentLayerMaterializationV1View, Step, WorkspaceFileStateV1View,
};
use crate::lineage_append::{
    changeset_id_of, direct_changeset_of, execution_id_of, mutation_binding,
};
use crate::records::{
    ChangeSetFileAction, ChangeSetFileResultStatus, ChangeSetFileView, ChangeSetResultStatus,
    ChangeSetResultView, ChangeSetRisk, ControlEntryView, FileType, MutationBatchStatus,
    MutationCommittedView, MutationPreparedView, MutationSubjectView, RecordBodyView,
    SessionStreamRecordView, SnapshotCoverageView, TaskParticipantAttemptStatus,
};
use crate::search::{first_where, lemma_first_where};
use crate::source_laws::{is_first, is_nowhere};

verus! {

// The contents of a file.

/// The contents before a change are known if and only if they were captured, can be had and have at
/// most 16 MiB, or there were none and the file is made. Else the layer is read-only, and the
/// reason tells why: what was captured is gone; it is too large; it was left out for a secret; or
/// nothing was captured.
pub proof fn law_contents_before_are_exact(
    coverage: SnapshotCoverageView,
    action: ChangeSetFileAction,
    o: IntentFileObservationV1View,
    bytes: Seq<u8>,
)
    ensures
        ({
            let r = contents_before(coverage, action, o);
            let limit = 16 * 1024 * 1024;
            &&& !(r is Fails)
            &&& r == Step::Goes(Some(bytes)) <==> coverage is Captured && o.captured == Some(bytes)
                    && bytes.len() <= limit
            &&& r == Step::Goes(None::<Seq<u8>>) <==> coverage is NoPriorContent && action
                == ChangeSetFileAction::Create
            &&& r == Step::<Option<Seq<u8>>>::ReadOnly(
                IntentLayerReadOnlyReasonV1::ArtifactUnavailable,
            ) <==> coverage is Captured && o.captured is None
            &&& r == Step::<Option<Seq<u8>>>::ReadOnly(
                IntentLayerReadOnlyReasonV1::UnsupportedFileKind,
            ) <==> coverage is Captured && (o.captured matches Some(found) && found.len() > limit)
            &&& r == Step::<Option<Seq<u8>>>::ReadOnly(
                IntentLayerReadOnlyReasonV1::SensitiveContent,
            ) <==> coverage is SkippedSensitive && action != ChangeSetFileAction::Rename
            &&& r == Step::<Option<Seq<u8>>>::ReadOnly(
                IntentLayerReadOnlyReasonV1::MissingMutationArtifact,
            ) <==> coverage is NotCaptured || (coverage is NoPriorContent && action
                != ChangeSetFileAction::Create) || (coverage is SkippedSensitive && action
                == ChangeSetFileAction::Rename)
        }),
{
}

/// The contents after a change are known if and only if the file could be looked at, its place is
/// within the workspace, and a deleted file is gone, or another is a plain file within the
/// workspace with at most 16 MiB. A deleted file that is still there has drifted; a file that is
/// gone is a failure.
pub proof fn law_contents_after_are_exact(
    action: ChangeSetFileAction,
    o: IntentFileObservationV1View,
    bytes: Seq<u8>,
)
    ensures
        ({
            let r = contents_after(action, o);
            let limit = 16 * 1024 * 1024;
            let seen = o.failure is None && o.parent_inside_workspace;
            let delete = action == ChangeSetFileAction::Delete;
            &&& o.failure matches Some(m) ==> r == Step::<Option<Seq<u8>>>::Fails(m)
            &&& r is Fails <==> o.failure is Some || (seen && !delete && o.state is Absent)
            &&& r == Step::Goes(None::<Seq<u8>>) <==> seen && delete && o.state is Absent
            &&& r == Step::Goes(Some(bytes)) <==> seen && !delete && (
                o.state matches WorkspaceFileStateV1View::Plain { size, inside_workspace, content }
                    && size <= limit && inside_workspace && content == bytes)
            &&& r == Step::<Option<Seq<u8>>>::ReadOnly(
                IntentLayerReadOnlyReasonV1::DriftedArtifact,
            ) <==> seen && delete && !(o.state is Absent)
            &&& r is ReadOnly ==> r == Step::<Option<Seq<u8>>>::ReadOnly(
                IntentLayerReadOnlyReasonV1::DriftedArtifact,
            ) || r == Step::<Option<Seq<u8>>>::ReadOnly(
                IntentLayerReadOnlyReasonV1::UnsupportedFileKind,
            )
        }),
{
}

/// Contents that are not there are no bytes.
pub open spec fn bytes_of(contents: Option<Seq<u8>>) -> Seq<u8> {
    if contents is Some {
        contents->0
    } else {
        Seq::empty()
    }
}

/// A change is exact if and only if both contents have the hashes of the change set, the mutation
/// left the second, both are text, neither holds a secret, and they differ. It then tells both
/// contents with their digests, and where they differ: the bytes that were replaced and the bytes
/// that replaced them.
pub proof fn law_changes_are_exact(
    file: ChangeSetFileView,
    before: Option<Seq<u8>>,
    after: Option<Seq<u8>>,
    o: IntentFileObservationV1View,
    source_event_id: Seq<char>,
    observed_after: Option<Seq<char>>,
    mutation: Seq<char>,
    changeset_id: Seq<char>,
)
    ensures
        ({
            let r = exact_change(
                file,
                before,
                after,
                o,
                source_event_id,
                observed_after,
                mutation,
                changeset_id,
            );
            let same = has_digest(before, file.before_hash) && has_digest(after, file.after_hash)
                && observed_after == file.after_hash;
            let text = (before matches Some(b) ==> vstd::utf8::valid_utf8(b)) && (
            after matches Some(a) ==> vstd::utf8::valid_utf8(a));
            let secret = (before is Some && o.secret_before) || (after is Some && o.secret_after);
            &&& r == Step::<MaterializedIntentFileView>::ReadOnly(
                IntentLayerReadOnlyReasonV1::DriftedArtifact,
            ) <==> !same
            &&& r == Step::<MaterializedIntentFileView>::ReadOnly(
                IntentLayerReadOnlyReasonV1::UnsupportedFileKind,
            ) <==> same && !text
            &&& r == Step::<MaterializedIntentFileView>::ReadOnly(
                IntentLayerReadOnlyReasonV1::SensitiveContent,
            ) <==> same && text && secret
            &&& r is Goes <==> same && text && !secret && changed_ranges(
                bytes_of(before),
                bytes_of(after),
            ) is Ok
            &&& r matches Step::Goes(f) ==> {
                let (old_range, new_range) = changed_ranges(bytes_of(before), bytes_of(after))->Ok_0;
                &&& f.path == file.path
                &&& f.before == before
                &&& f.after == after
                &&& f.before_digest == content_digest_of(bytes_of(before))
                &&& f.after_digest == content_digest_of(bytes_of(after))
                &&& f.old_range == old_range
                &&& f.new_range == new_range
                &&& f.old_changed_bytes == bytes_of(before).subrange(
                    old_range.start as int,
                    old_range.end as int,
                )
                &&& f.new_changed_bytes == bytes_of(after).subrange(
                    new_range.start as int,
                    new_range.end as int,
                )
                &&& f.old_content_digest == content_digest_of(f.old_changed_bytes)
                &&& f.new_content_digest == content_digest_of(f.new_changed_bytes)
                &&& f.source_event_id == source_event_id
                &&& f.mutation_identity == mutation
                &&& f.changeset_id == changeset_id
            }
        }),
{
}

/// Contents have a digest whatever the case of its letters; no contents have none, and nothing else
/// agrees.
pub proof fn law_digests_ignore_case(bytes: Option<Seq<u8>>, expected: Option<Seq<char>>)
    ensures
        has_digest(bytes, expected) ==> (bytes is None <==> expected is None),
        bytes is None && expected is None ==> has_digest(bytes, expected),
        bytes matches Some(b) ==> has_digest(bytes, Some(content_digest_of(b))),
        bytes matches Some(b) ==> (expected matches Some(e) ==> (has_digest(bytes, expected) <==> {
            let d = content_digest_of(b);
            &&& d.len() == e.len()
            &&& forall|i: int| 0 <= i < d.len() ==> same_letter(#[trigger] d[i], e[i])
        })),
{
    if let Some(b) = bytes {
        if let Some(e) = expected {
            let d = content_digest_of(b);
            if lower_case(d) == lower_case(e) {
                assert(lower_case(d).len() == lower_case(e).len());
                assert forall|i: int| 0 <= i < d.len() implies same_letter(#[trigger] d[i], e[i]) by {
                    assert(lower_case(d)[i] == lower_case(e)[i]);
                }
            }
            if d.len() == e.len() && (forall|i: int|
                0 <= i < d.len() ==> same_letter(#[trigger] d[i], e[i])) {
                assert forall|i: int| 0 <= i < d.len() implies lower_case(d)[i] == #[trigger] lower_case(
                    e,
                )[i] by {
                    assert(same_letter(d[i], e[i]));
                }
                assert(lower_case(d) =~= lower_case(e));
            }
        }
    }
}

/// Two characters are one, or are one letter of ASCII in both of its cases.
pub open spec fn same_letter(a: char, b: char) -> bool {
    ||| a == b
    ||| 'A' <= a && a <= 'Z' && b as int == a as int + 32
    ||| 'A' <= b && b <= 'Z' && a as int == b as int + 32
}

/// The change of a file is taken only where its path holds no secret, the result of its change set
/// tells that it was applied as proposed, and a mutation of it is proven; it then comes from that
/// mutation.
pub proof fn law_observed_changes_are_proven(
    records: Seq<SessionStreamRecordView>,
    x: IntentExecutionLineageV1View,
    workspace_id: Seq<char>,
    changeset_id: Seq<char>,
    result: ChangeSetResultView,
    file: ChangeSetFileView,
    o: IntentFileObservationV1View,
)
    ensures
        ({
            let r = observed_change(records, x, workspace_id, changeset_id, result, file, o);
            let applied = exists|i: int|
                0 <= i < result.file_results.len() && (#[trigger] result.file_results[i]).path
                    == file.path && result.file_results[i].action == file.action
                    && result.file_results[i].status == ChangeSetFileResultStatus::Applied;
            let pair = mutation_pair(records, x, workspace_id, file);
            &&& o.sensitive_path ==> r == Step::<MaterializedIntentFileView>::ReadOnly(
                IntentLayerReadOnlyReasonV1::SensitiveContent,
            )
            &&& !o.sensitive_path && (!applied || pair is None) ==> r == Step::<
                MaterializedIntentFileView,
            >::ReadOnly(IntentLayerReadOnlyReasonV1::MissingMutationArtifact)
            &&& !o.sensitive_path && applied ==> (pair matches Some(p) ==> {
                let prepared = records[p.0].body->MutationPrepared_0;
                let committed = records[p.1].body->MutationCommitted_0;
                let before = contents_before(prepared.snapshot_coverage, file.action, o);
                let after = contents_after(file.action, o);
                &&& before is Goes && after is Goes ==> r == exact_change(
                    file,
                    before->Goes_0,
                    after->Goes_0,
                    o,
                    records[p.1].event_id,
                    committed.observed_after_hash,
                    if prepared.batch_id is Some {
                        prepared.batch_id->0
                    } else {
                        prepared.operation_id
                    },
                    changeset_id,
                )
                &&& before matches Step::ReadOnly(reason) ==> r == Step::<
                    MaterializedIntentFileView,
                >::ReadOnly(reason)
                &&& before is Goes ==> (after matches Step::ReadOnly(reason) ==> r == Step::<
                    MaterializedIntentFileView,
                >::ReadOnly(reason))
                &&& before is Goes ==> (after matches Step::Fails(m) ==> r == Step::<
                    MaterializedIntentFileView,
                >::Fails(m))
            })
        }),
{
    reveal(observed_change);
    crate::layer_facts::lemma_mutation_pair(records, x, workspace_id, file);
    let f = crate::intent_layer::tells_applied(file);
    if file_is_applied(result, file) {
        let i = choose|i: int|
            0 <= i < result.file_results.len() && f(#[trigger] result.file_results[i]);
        assert(result.file_results[i].path == file.path);
    }
    if exists|i: int|
        0 <= i < result.file_results.len() && (#[trigger] result.file_results[i]).path == file.path
            && result.file_results[i].action == file.action && result.file_results[i].status
            == ChangeSetFileResultStatus::Applied {
        let i = choose|i: int|
            0 <= i < result.file_results.len() && (#[trigger] result.file_results[i]).path
                == file.path && result.file_results[i].action == file.action
                && result.file_results[i].status == ChangeSetFileResultStatus::Applied;
        assert(f(result.file_results[i]));
    }
}

/// The hashes of a change set agree with contents: a file that is made had none before, one that is
/// deleted has none after, one that is updated has both; a renamed one never agrees.
pub proof fn law_hashes_agree_with_contents(file: ChangeSetFileView, before: Seq<char>, after: Seq<char>)
    ensures
        hashes_match(file, before, after) <==> {
            let none = content_digest_of(Seq::empty());
            &&& file.action != ChangeSetFileAction::Rename
            &&& file.before_hash is None <==> file.action == ChangeSetFileAction::Create
            &&& file.after_hash is None <==> file.action == ChangeSetFileAction::Delete
            &&& file.before_hash matches Some(h) ==> h == before
            &&& file.after_hash matches Some(h) ==> h == after
            &&& file.before_hash is None ==> before == none
            &&& file.after_hash is None ==> after == none
        },
{
}

// The layer of an execution.

/// A layer is drafted if and only if its execution is not read-only, has change sets and reached
/// the parent workspace, its attempt ended well, its changes are exact, and what was there before
/// it is known. The draft holds the execution and its changes. Otherwise the layer is settled as
/// read-only for the first reason that holds, or fails.
pub proof fn law_layers_are_drafted_exactly(
    records: Seq<SessionStreamRecordView>,
    x: IntentExecutionLineageV1View,
    workspace_id: Seq<char>,
    execution_id: Seq<char>,
    observations: Seq<IntentFileObservationV1View>,
)
    ensures
        ({
            let r = materialized_execution(records, x, workspace_id, execution_id, observations);
            let bare = x.read_only_reason is Some || x.changeset_ids.len() == 0
                || x.parent_mutation_event_id is None || x.parent_snapshot_id is None;
            let facts = layer_facts_verdict(records) is Ok;
            let ended = terminal_sequence(records, x) is Ok;
            let changes = execution_changes(records, x, workspace_id, observations);
            let base = base_snapshot(records, x, workspace_id, None);
            &&& r is Err <==> !bare && (!facts || (ended && (changes is Fails || (changes is Goes
                && base is Err))))
            &&& r matches Ok(IntentLayerMaterializationV1View::Draft(d)) ==> {
                &&& d.workspace_id == workspace_id
                &&& d.intent_ref == x.binding.intent_ref
                &&& d.execution_id == execution_id
                &&& d.execution_origin == x.binding.origin
                &&& base == Ok::<Seq<char>, Seq<char>>(d.base_snapshot_id)
                &&& x.parent_snapshot_id == Some(d.result_snapshot_id)
                &&& d.changeset_ids == x.changeset_ids
                &&& changes == Step::Goes(d.files)
            }
            &&& (r matches Ok(IntentLayerMaterializationV1View::Draft(_))) <==> !bare && facts && ended
                && changes is Goes && base is Ok
            &&& r matches Ok(IntentLayerMaterializationV1View::Settled(s)) ==> {
                &&& !s.appended
                &&& s.execution_id == execution_id
                &&& s.manifest_digest is None
                &&& bare ==> s.read_only_reason == Some(
                    IntentLayerReadOnlyReasonV1::MissingMutationArtifact,
                )
                &&& !bare && !ended ==> s.read_only_reason == Some(
                    IntentLayerReadOnlyReasonV1::MissingTerminalAttempt,
                )
                &&& !bare && ended ==> (changes matches Step::ReadOnly(reason) && s.read_only_reason
                    == Some(reason))
            }
        }),
{
}

/// A drafted layer is written as it is: its core names the execution, the snapshots and the
/// patches; every stored hunk is bound to its file, owned by the layer alone and available, and
/// comes from the mutation that made it; and all carry their own digests.
pub proof fn law_drafts_are_written_as_they_are(
    d: IntentLayerDraftV1View,
    forward: Seq<char>,
    reverse: Seq<char>,
    f: MaterializedIntentFileView,
    artifact_id: Seq<char>,
    core_digest: Seq<char>,
    ids: Seq<Seq<char>>,
    manifest_id: Seq<char>,
    manifest_digest: Seq<char>,
)
    ensures
        ({
            let c = core_of(d, forward, reverse);
            &&& c.schema_version == 1
            &&& c.intent_ref == d.intent_ref
            &&& c.execution_id == d.execution_id
            &&& c.execution_origin == d.execution_origin
            &&& c.base_snapshot_id == d.base_snapshot_id
            &&& c.result_snapshot_id == d.result_snapshot_id
            &&& c.changeset_ids == d.changeset_ids
            &&& c.operation_ids.len() == 0
            &&& c.forward_patch_artifact_id == forward
            &&& c.reverse_patch_artifact_id == reverse
        }),
        ({
            let b = binding_of(d, core_digest, f, artifact_id);
            &&& b.artifact_id == artifact_id
            &&& b.artifact_kind == IntentArtifactKind::FileHunk
            &&& b.ownership == IntentArtifactOwnership::Exclusive
            &&& b.availability == IntentArtifactAvailability::Available
            &&& b.before_digest == Some(f.old_content_digest)
            &&& b.after_digest == f.new_content_digest
            &&& b.provenance.source_event_id == f.source_event_id
            &&& b.provenance.execution_id == d.execution_id
            &&& b.provenance.mutation_batch_id == Some(f.mutation_identity)
            &&& b.provenance.changeset_id == Some(f.changeset_id)
            &&& b.provenance.verification_receipt_id is None
            &&& b.subject == (BoundedIntentArtifactSubjectV1View::FileHunk {
                normalized_relative_path: f.path,
                before_file_digest: f.before_digest,
                after_file_digest: f.after_digest,
                old_range: f.old_range,
                new_range: f.new_range,
                old_content_digest: f.old_content_digest,
                new_content_digest: f.new_content_digest,
                layer_core_digest: core_digest,
            })
        }),
        ({
            let m = artifact_manifest_of(d, core_digest, ids);
            &&& m.schema_version == 1
            &&& m.intent_ref == d.intent_ref
            &&& m.execution_id == d.execution_id
            &&& m.layer_core_digest == core_digest
        }),
        ({
            let m = layer_manifest_of(core_of(d, forward, reverse), manifest_id, manifest_digest);
            &&& m.schema_version == 1
            &&& m.core == core_of(d, forward, reverse)
            &&& m.artifact_manifest_id == manifest_id
            &&& m.artifact_manifest_digest == manifest_digest
        }),
{
}

// What stands behind a layer.

/// The record tells that the attempt of an execution of a task ended well.
pub open spec fn ends_attempt_well(x: IntentExecutionLineageV1View) -> spec_fn(
    SessionStreamRecordView,
) -> bool {
    |r: SessionStreamRecordView|
        {
            &&& x.binding.origin matches IntentExecutionOriginV1View::Task {
                task_id,
                task_plan_version,
                step_id,
                attempt_id,
            }
            &&& r.body matches RecordBodyView::Control(ControlEntryView::TaskParticipantAttempt(a))
            &&& r.stream_sequence > x.binding_stream_sequence
            &&& a.status == TaskParticipantAttemptStatus::Completed
            &&& Some(a.attempt_id) == attempt_id
            &&& a.task_id == task_id
            &&& a.plan_version == Some(task_plan_version)
            &&& a.step_id == Some(step_id)
        }
}

/// The record tells that the run of an execution of a chat ended well.
pub open spec fn ends_run_well(x: IntentExecutionLineageV1View) -> spec_fn(
    SessionStreamRecordView,
) -> bool {
    |r: SessionStreamRecordView|
        {
            &&& x.binding.origin matches IntentExecutionOriginV1View::Chat { root_logical_run_id, .. }
            &&& r.body matches RecordBodyView::RunFinalized { run_id, succeeded }
            &&& r.stream_sequence > x.binding_stream_sequence
            &&& succeeded
            &&& run_id == root_logical_run_id
        }
}

/// The end of an execution of a task is the first record, later than its binding, that tells that
/// its very attempt was completed; without such a record, or without an attempt, it has not ended
/// well.
pub proof fn law_tasks_end_with_their_attempts(
    records: Seq<SessionStreamRecordView>,
    x: IntentExecutionLineageV1View,
    n: int,
)
    requires
        x.binding.origin is Task,
        x.binding.origin->Task_attempt_id is Some,
    ensures
        is_first(records, ends_attempt_well(x), n) ==> terminal_sequence(records, x) == Ok::<
            u64,
            Seq<char>,
        >(records[n].stream_sequence),
        is_nowhere(records, ends_attempt_well(x)) ==> terminal_sequence(records, x) is Err,
{
    let f = ends_attempt_well(x);
    let g = completes_attempt(
        x.binding_stream_sequence,
        x.binding.origin->Task_attempt_id->0,
        x.binding.origin->Task_task_id,
        x.binding.origin->task_plan_version,
        x.binding.origin->step_id,
    );
    assert forall|j: int| 0 <= j < records.len() implies f(#[trigger] records[j]) == g(
        records[j],
    ) by {}
    lemma_first_where(records, g);
    if is_first(records, f, n) {
        assert(f(records[n]));
        let k = first_where(records, g)->0;
        assert(g(records[k]));
        assert(f(records[k]));
        assert(k == n);
    }
    if is_nowhere(records, f) {
        match first_where(records, g) {
            Some(k) => {
                assert(g(records[k]));
                assert(f(records[k]));
            },
            None => {},
        }
    }
}

/// The end of an execution of a chat is the first record, later than its binding, that tells that
/// its run succeeded; without such a record it has not ended well.
pub proof fn law_chats_end_with_their_runs(
    records: Seq<SessionStreamRecordView>,
    x: IntentExecutionLineageV1View,
    n: int,
)
    requires
        x.binding.origin is Chat,
    ensures
        x.binding.origin->Chat_attempt_id is Some && is_first(records, ends_run_well(x), n)
            ==> terminal_sequence(records, x) == Ok::<u64, Seq<char>>(records[n].stream_sequence),
        x.binding.origin->Chat_attempt_id is None || is_nowhere(records, ends_run_well(x))
            ==> terminal_sequence(records, x) is Err,
{
    let f = ends_run_well(x);
    let g = completes_run(x.binding_stream_sequence, x.binding.origin->root_logical_run_id);
    assert forall|j: int| 0 <= j < records.len() implies f(#[trigger] records[j]) == g(
        records[j],
    ) by {}
    lemma_first_where(records, g);
    if is_first(records, f, n) {
        assert(f(records[n]));
        let k = first_where(records, g)->0;
        assert(g(records[k]));
        assert(f(records[k]));
        assert(k == n);
    }
    if is_nowhere(records, f) {
        match first_where(records, g) {
            Some(k) => {
                assert(g(records[k]));
                assert(f(records[k]));
            },
            None => {},
        }
    }
}

/// The mutation pair of a file: what the change of the file was prepared with.
pub open spec fn is_prepared_change(
    x: IntentExecutionLineageV1View,
    batch: Option<(Seq<char>, u64)>,
    workspace_id: Seq<char>,
    file: ChangeSetFileView,
    r: SessionStreamRecordView,
) -> bool {
    &&& r.body matches RecordBodyView::MutationPrepared(p)
    &&& r.stream_sequence > x.binding_stream_sequence
    &&& p.workspace_id == workspace_id
    &&& p.before_hash == file.before_hash
    &&& p.intended_after_hash == file.after_hash
    &&& p.subject matches MutationSubjectView::File { portable_path, file_type, .. }
    &&& portable_path == Some(file.path)
    &&& file_type == FileType::File
    &&& batch matches Some(b) ==> p.batch_id == Some(b.0) && r.stream_sequence < b.1
}

/// What the change of a file was committed with.
pub open spec fn is_committed_change(
    x: IntentExecutionLineageV1View,
    batch: Option<(Seq<char>, u64)>,
    p: MutationPreparedView,
    prepared_sequence: u64,
    workspace_id: Seq<char>,
    file: ChangeSetFileView,
    r: SessionStreamRecordView,
) -> bool {
    &&& r.body matches RecordBodyView::MutationCommitted(c)
    &&& r.stream_sequence > prepared_sequence
    &&& c.operation_id == p.operation_id
    &&& c.batch_id == p.batch_id
    &&& c.workspace_id == Some(workspace_id)
    &&& c.observed_after_hash == file.after_hash
    &&& c.committed_subject matches MutationSubjectView::File { portable_path, file_type, .. }
    &&& portable_path == Some(file.path)
    &&& file_type == FileType::File
    &&& batch matches Some(b) ==> r.stream_sequence < b.1
    &&& x.binding.origin is Chat ==> x.parent_mutation_event_id == Some(r.event_id)
}

/// The mutation of a file is the first one, later than the binding of the execution, that was
/// prepared for exactly this change of this plain file and then committed: for a task within the
/// batch that brought it into the parent workspace, for a chat as the very mutation that did. Where
/// such records are there, one is found.
pub proof fn law_mutations_of_files_are_exact(
    records: Seq<SessionStreamRecordView>,
    x: IntentExecutionLineageV1View,
    workspace_id: Seq<char>,
    file: ChangeSetFileView,
)
    ensures
        ({
            let batch = task_batch(records, x);
            let r = mutation_pair(records, x, workspace_id, file);
            &&& r matches Some(pair) ==> {
                &&& 0 <= pair.0 < records.len()
                &&& 0 <= pair.1 < records.len()
                &&& is_prepared_change(x, batch, workspace_id, file, records[pair.0])
                &&& is_committed_change(
                    x,
                    batch,
                    records[pair.0].body->MutationPrepared_0,
                    records[pair.0].stream_sequence,
                    workspace_id,
                    file,
                    records[pair.1],
                )
            }
            &&& r is None ==> forall|i: int, k: int|
                #![trigger records[i], records[k]]
                0 <= i < records.len() && 0 <= k < records.len() && is_prepared_change(
                    x,
                    batch,
                    workspace_id,
                    file,
                    records[i],
                ) ==> !is_committed_change(
                    x,
                    batch,
                    records[i].body->MutationPrepared_0,
                    records[i].stream_sequence,
                    workspace_id,
                    file,
                    records[k],
                )
        }),
{
    let batch = task_batch(records, x);
    let f = prepares_for(records, x, batch, workspace_id, file);
    lemma_first_where(records, f);
    match first_where(records, f) {
        Some(i) => {
            assert(f(records[i]));
            let p = records[i].body->MutationPrepared_0;
            let g = commits_for(x, batch, p, records[i].stream_sequence, workspace_id, file);
            lemma_first_where(records, g);
            let k = first_where(records, g)->0;
            assert(g(records[k]));
        },
        None => {
            assert forall|i: int, k: int|
                #![trigger records[i], records[k]]
                0 <= i < records.len() && 0 <= k < records.len() && is_prepared_change(
                    x,
                    batch,
                    workspace_id,
                    file,
                    records[i],
                ) implies !is_committed_change(
                x,
                batch,
                records[i].body->MutationPrepared_0,
                records[i].stream_sequence,
                workspace_id,
                file,
                records[k],
            ) by {
                let p = records[i].body->MutationPrepared_0;
                let g = commits_for(x, batch, p, records[i].stream_sequence, workspace_id, file);
                lemma_first_where(records, g);
                assert(!f(records[i]));
                assert(!g(records[k]));
            }
        },
    }
}

/// The record ends the batch of an event, applied.
pub open spec fn ends_applied(id: Seq<char>) -> spec_fn(SessionStreamRecordView) -> bool {
    |r: SessionStreamRecordView|
        r.event_id == id && (r.body matches RecordBodyView::MutationBatchFinished(b) && b.status
            == MutationBatchStatus::Applied)
}

/// The record tells a promotion into the workspace, behind a place and before an end, with a
/// snapshot.
pub open spec fn promotes_snapshot(after: u64, before: Option<u64>, snapshot: Option<Seq<char>>) -> spec_fn(
    SessionStreamRecordView,
) -> bool {
    |r: SessionStreamRecordView|
        {
            &&& r.body matches RecordBodyView::Control(
                ControlEntryView::IntegrationPromotionRecorded(p),
            )
            &&& r.stream_sequence > after
            &&& before matches Some(end) ==> r.stream_sequence < end
            &&& p.status == IntegrationPromotionStatus::Promoted
            &&& p.target is WorkspaceApply
            &&& p.effect matches Some(
                IntegrationPromotionEffectView::WorkspaceApplied { promoted_snapshot_id, .. },
            )
            &&& Some(promoted_snapshot_id) == snapshot
        }
}

/// What was there before an execution of a task is the snapshot that its promotion expected: the
/// first, behind the applied batch that brought it into the workspace, that promoted the snapshot
/// of the execution.
pub proof fn law_task_bases_are_exact(
    records: Seq<SessionStreamRecordView>,
    x: IntentExecutionLineageV1View,
    workspace_id: Seq<char>,
    before: Option<u64>,
    i: int,
    k: int,
)
    requires
        x.binding.origin is Task,
        x.parent_mutation_event_id is Some,
        is_first(records, ends_applied(x.parent_mutation_event_id->0), i),
        is_first(
            records,
            promotes_snapshot(records[i].stream_sequence, before, x.parent_snapshot_id),
            k,
        ),
    ensures
        base_snapshot(records, x, workspace_id, before) == Ok::<Seq<char>, Seq<char>>(
            records[k].body->Control_0->IntegrationPromotionRecorded_0.target->expected_snapshot_id,
        ),
{
    let id = x.parent_mutation_event_id->0;
    let f = ends_applied(id);
    let g = is_applied_batch(id);
    assert forall|j: int| 0 <= j < records.len() implies f(#[trigger] records[j]) == g(
        records[j],
    ) by {}
    lemma_first_where(records, g);
    assert(f(records[i]));
    let a = first_where(records, g)->0;
    assert(g(records[a]));
    assert(f(records[a]));
    assert(a == i);
    let p = promotes_snapshot(records[i].stream_sequence, before, x.parent_snapshot_id);
    let q = promotes_into(records[i].stream_sequence, before, x.parent_snapshot_id);
    assert forall|j: int| 0 <= j < records.len() implies p(#[trigger] records[j]) == q(
        records[j],
    ) by {}
    lemma_first_where(records, q);
    assert(p(records[k]));
    let b = first_where(records, q)->0;
    assert(q(records[b]));
    assert(p(records[b]));
    assert(b == k);
}

/// What a file was before a chat touched it is what its mutation found: the hash and the revision
/// of the prepared change. The evidence must precede the place that is asked for.
pub proof fn law_touched_files_are_as_found(
    records: Seq<SessionStreamRecordView>,
    x: IntentExecutionLineageV1View,
    workspace_id: Seq<char>,
    before: Option<u64>,
    file: ChangeSetFileView,
)
    ensures
        ({
            let r = touched_base(records, x, workspace_id, before, file);
            let pair = mutation_pair(records, x, workspace_id, file);
            &&& r is Ok <==> {
                &&& pair matches Some(p)
                &&& before matches Some(end) ==> records[p.0].stream_sequence < end
                    && records[p.1].stream_sequence < end
            }
            &&& r matches Ok(t) ==> {
                let places = pair->0;
                let p = records[places.0].body->MutationPrepared_0;
                &&& t.path == file.path
                &&& t.before_hash == p.before_hash
                &&& t.workspace_revision == p.base_workspace_revision
            }
        }),
{
    crate::layer_facts::lemma_mutation_pair(records, x, workspace_id, file);
}

// Changes of a chat.

/// A change of a chat becomes a change set if and only if its two records are the ends of one
/// mutation of this workspace within the window of the attempt, it is one of a file with a known
/// path in normal form, and there were contents before or after it.
pub proof fn law_direct_changes_are_exact(
    execution_id: Seq<char>,
    a: SessionStreamRecordView,
    p: MutationPreparedView,
    b: SessionStreamRecordView,
    c: MutationCommittedView,
    workspace_id: Seq<char>,
    execution_sequence: u64,
    end: Option<u64>,
)
    ensures
        ({
            let r = direct_changeset_of(
                execution_id,
                a,
                p,
                b,
                c,
                workspace_id,
                execution_sequence,
                end,
            );
            &&& r is Ok <==> {
                &&& execution_sequence < a.stream_sequence
                &&& a.stream_sequence < b.stream_sequence
                &&& end matches Some(n) ==> a.stream_sequence < n && b.stream_sequence < n
                &&& p.operation_id == c.operation_id
                &&& p.batch_id == c.batch_id
                &&& p.workspace_id == workspace_id
                &&& c.workspace_id == Some(workspace_id)
                &&& p.base_workspace_revision < c.workspace_revision
                &&& p.subject == c.committed_subject
                &&& p.intended_after_hash == c.observed_after_hash
                &&& p.subject matches MutationSubjectView::File { portable_path, normalized, .. }
                &&& normalized
                &&& portable_path is Some
                &&& p.before_hash is Some || c.observed_after_hash is Some
            }
            &&& r matches Ok((set, result)) ==> {
                let file = set.files[0];
                &&& p.subject matches MutationSubjectView::File { portable_path, .. }
                &&& set.files.len() == 1
                &&& Some(file.path) == portable_path
                &&& file.previous_path is None
                &&& file.before_hash == p.before_hash
                &&& file.after_hash == c.observed_after_hash
                &&& file.diff_hash is None
                &&& file.additions == 0
                &&& file.deletions == 0
                &&& set.risk == ChangeSetRisk::Low
                &&& file.risk == ChangeSetRisk::Low
                &&& file.action == ChangeSetFileAction::Create <==> p.before_hash is None
                &&& file.action == ChangeSetFileAction::Delete <==> c.observed_after_hash is None
                &&& file.action == ChangeSetFileAction::Update <==> p.before_hash is Some
                    && c.observed_after_hash is Some
                &&& set.id == changeset_id_of(execution_id, a.event_id, b.event_id, file.path)
                &&& result.id == set.id
                &&& result.status == ChangeSetResultStatus::Applied
                &&& result.file_results.len() == 1
                &&& result.file_results[0].path == file.path
                &&& result.file_results[0].action == file.action
                &&& result.file_results[0].status == ChangeSetFileResultStatus::Applied
            }
        }),
{
}

/// The binding of an execution that changes files says that it does, and has the identity that its
/// plan, its intent, its origin and its event give it.
pub proof fn law_bindings_name_their_execution(
    accepted: AcceptedIntentPlanProjectionV1View,
    intent_ref: IntentVersionRefView,
    origin: IntentExecutionOriginV1View,
    source_event_id: Seq<char>,
)
    ensures
        ({
            let b = mutation_binding(accepted, intent_ref, origin, source_event_id);
            &&& b.binding_kind == IntentExecutionBindingKind::Mutation
            &&& b.intent_ref == intent_ref
            &&& b.origin == origin
            &&& b.source_event_id == source_event_id
            &&& b.execution_id == execution_id_of(accepted, intent_ref, origin, source_event_id)
        }),
{
}

} // verus!
