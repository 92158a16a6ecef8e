//! The layers of intents: which executions became complete layers, who owns the artifacts of a layer
//! now, and what is said of the layer of an intent.

use vstd::prelude::*;

use crate::intent::{
    content_digest_of, BoundedIntentArtifactSubjectV1, BoundedIntentArtifactSubjectV1View,
    IntentApplicationState, IntentArtifactAvailability, IntentArtifactBindingV1,
    IntentArtifactBindingV1View, IntentArtifactManifestV1, IntentArtifactManifestV1View,
    IntentArtifactOwnership, IntentContentDigest, IntentEventV1, IntentEventV1View,
    IntentExecutionId, IntentLayerManifestV1, IntentLayerManifestV1View, IntentVersionRef,
    IntentVersionRefView, PublicIntentArtifactSummaryV1, PublicIntentArtifactSummaryV1View,
};
use crate::intent_admission::{plan_refs, refs_of_plan};
use crate::intent_layer_contract::{artifact_manifest_verdict, layer_manifest_verdict};
use crate::intent_lineage::{
    clamped, execution_with, lineage_of, IntentLineageProjectionV1, IntentLineageProjectionV1View,
};
use crate::intent_stack::{
    accepted_version, latest_accepted, plan_holds, stack_of, IntentStackProjectionV1,
    IntentStackProjectionV1View,
};
use crate::intent_state::{
    AcceptedIntentPlanProjectionV1, AcceptedIntentPlanProjectionV1View, EffectiveIntentArtifactV1,
    EffectiveIntentArtifactV1View, IntentExecutionLineageV1, IntentExecutionLineageV1View,
    IntentLayerProjectionV1, IntentLayerProjectionV1View, IntentLayerReadOnlyReasonV1,
    IntentLayerStateV1, IntentLayerStateV1View, IntentLayerSummaryV1, IntentLayerSummaryV1View,
};
use crate::json::Encode;
use crate::layer_facts::{
    base_snapshot, base_snapshot_id, changes_plain_path, layer_facts_verdict, lemma_mutation_pair,
    mutation_pair, mutation_pair_for_file, subject_is_plain_path, terminal_attempt_sequence,
    terminal_sequence, validate_layer_facts,
};
use crate::lineage_facts::{
    change_result, find_proposal, find_proposal_record, find_result_record, proposal, proposes,
    same_texts, settles,
};
use crate::records::{
    ChangeSetFile, ChangeSetFileAction, ChangeSetFileResult, ChangeSetFileResultStatus,
    ChangeSetFileResultView, ChangeSetFileView, ChangeSetResult, ChangeSetResultStatus,
    ChangeSetResultView, MutationArtifactLifecycleStatus, MutationPreparedView, RecordBody,
    RecordBodyView, Session, SessionStreamRecord, SessionStreamRecordView, SessionView,
};
use crate::search::{any_where, find_last, first_where, has_any, last_where, same_items};
use crate::stream::{
    change_result_of, detected_in, intent_event_in, intent_event_of, prepared_in, prepared_of,
    proposal_of,
};
use crate::text::same_text;
use crate::value::{
    chain, check, find_key, first_failure, following, holds, lemma_failures_begin,
    lemma_failures_end, lemma_failures_step, lemma_find_key, lemma_push_view, next_number, outcome,
    position_by_key, reject, repeated_at, repeats, verdict, yields, KernelError, Keyed, Value,
    Verdict,
};

verus! {

/// Version of the schema of the layer projection.
pub const INTENT_LAYER_PROJECTION_SCHEMA_VERSION: u16 = 1;

/// An artifact manifest that still waits for its layer manifest.
#[derive(Debug, Clone, PartialEq, Eq)]
pub struct PendingArtifactManifestV1 {
    pub manifest: IntentArtifactManifestV1,
    pub event_id: String,
    pub stream_sequence: u64,
}

/// What a [`PendingArtifactManifestV1`] holds.
#[verifier::ext_equal]
pub struct PendingArtifactManifestV1View {
    pub manifest: IntentArtifactManifestV1View,
    pub event_id: Seq<char>,
    pub stream_sequence: u64,
}

impl DeepView for PendingArtifactManifestV1 {
    type V = PendingArtifactManifestV1View;

    open spec fn deep_view(&self) -> PendingArtifactManifestV1View {
        PendingArtifactManifestV1View {
            manifest: self.manifest.deep_view(),
            event_id: self.event_id.deep_view(),
            stream_sequence: self.stream_sequence.deep_view(),
        }
    }
}

impl Value for PendingArtifactManifestV1 {
    fn same(&self, other: &Self) -> (r: bool) {
        self.manifest.same(&other.manifest)
            && self.event_id.same(&other.event_id)
            && self.stream_sequence.same(&other.stream_sequence)
    }

    fn duplicate(&self) -> (r: Self) {
        PendingArtifactManifestV1 {
            manifest: self.manifest.duplicate(),
            event_id: self.event_id.duplicate(),
            stream_sequence: self.stream_sequence.duplicate(),
        }
    }
}

/// A stored artifact that can be read, with its contents.
#[derive(Debug, Clone, PartialEq, Eq)]
pub struct ArtifactContentV1 {
    pub artifact_id: String,
    pub content: Vec<u8>,
}

/// What a [`ArtifactContentV1`] holds.
#[verifier::ext_equal]
pub struct ArtifactContentV1View {
    pub artifact_id: Seq<char>,
    pub content: Seq<u8>,
}

impl DeepView for ArtifactContentV1 {
    type V = ArtifactContentV1View;

    open spec fn deep_view(&self) -> ArtifactContentV1View {
        ArtifactContentV1View {
            artifact_id: self.artifact_id.deep_view(),
            content: self.content.deep_view(),
        }
    }
}

impl Value for ArtifactContentV1 {
    fn same(&self, other: &Self) -> (r: bool) {
        self.artifact_id.same(&other.artifact_id)
            && self.content.same(&other.content)
    }

    fn duplicate(&self) -> (r: Self) {
        ArtifactContentV1 {
            artifact_id: self.artifact_id.duplicate(),
            content: self.content.duplicate(),
        }
    }
}

impl Keyed for PendingArtifactManifestV1 {
    open spec fn key(v: PendingArtifactManifestV1View) -> Seq<char> {
        v.manifest.execution_id
    }

    fn key_text(&self) -> (r: &str) {
        self.manifest.execution_id.as_str()
    }
}

impl Keyed for ArtifactContentV1 {
    open spec fn key(v: ArtifactContentV1View) -> Seq<char> {
        v.artifact_id
    }

    fn key_text(&self) -> (r: &str) {
        self.artifact_id.as_str()
    }
}

/// The check that an artifact manifest belongs to an execution.
pub open spec fn manifest_lineage_verdict(
    manifest: IntentArtifactManifestV1View,
    x: IntentExecutionLineageV1View,
) -> Verdict {
    chain(
        artifact_manifest_verdict(manifest),
        check(
            manifest.intent_ref == x.binding.intent_ref && manifest.execution_id
                == x.binding.execution_id,
            "Intent artifact manifest does not match its execution"@,
        ),
    )
}

/// Checks that an artifact manifest belongs to an execution.
pub(crate) fn validate_artifact_manifest_lineage(
    manifest: &IntentArtifactManifestV1,
    x: &IntentExecutionLineageV1,
) -> (r: Result<(), KernelError>)
    ensures
        verdict(r) == manifest_lineage_verdict(manifest.deep_view(), x.deep_view()),
{
    manifest.validate_contract()?;
    if !manifest.intent_ref.same(&x.binding.intent_ref) || !manifest.execution_id.same(
        &x.binding.execution_id,
    ) {
        return reject("Intent artifact manifest does not match its execution");
    }
    Ok(())
}

/// The hashes of a changed file are those of its contents before and after.
pub open spec fn hashes_match(file: ChangeSetFileView, before: Seq<char>, after: Seq<char>) -> bool {
    let none = content_digest_of(Seq::empty());
    match file.action {
        ChangeSetFileAction::Create => file.before_hash is None && before == none && file.after_hash
            == Some(after),
        ChangeSetFileAction::Update => file.before_hash == Some(before) && file.after_hash == Some(
            after,
        ),
        ChangeSetFileAction::Delete => file.before_hash == Some(before) && file.after_hash is None
            && after == none,
        ChangeSetFileAction::Rename => false,
    }
}

fn matches_digest(a: &Option<String>, b: &IntentContentDigest) -> (r: bool)
    ensures
        r == (a.deep_view() == Some(b.deep_view())),
{
    match a {
        Some(x) => same_text(x.as_str(), b.as_str()),
        None => false,
    }
}

fn change_set_hashes_match(
    file: &ChangeSetFile,
    before: &IntentContentDigest,
    after: &IntentContentDigest,
) -> (r: bool)
    ensures
        r == hashes_match(file.deep_view(), before.deep_view(), after.deep_view()),
{
    let empty: Vec<u8> = Vec::new();
    assert(empty@ =~= Seq::empty());
    let none = IntentContentDigest::from_bytes(empty.as_slice());
    match file.action {
        ChangeSetFileAction::Create => file.before_hash.is_none() && before.same(&none)
            && matches_digest(&file.after_hash, after),
        ChangeSetFileAction::Update => matches_digest(&file.before_hash, before) && matches_digest(
            &file.after_hash,
            after,
        ),
        ChangeSetFileAction::Delete => matches_digest(&file.before_hash, before)
            && file.after_hash.is_none() && after.same(&none),
        ChangeSetFileAction::Rename => false,
    }
}

/// The result tells that a file was changed as proposed.
pub open spec fn tells_applied(file: ChangeSetFileView) -> spec_fn(ChangeSetFileResultView) -> bool {
    |r: ChangeSetFileResultView|
        r.path == file.path && r.action == file.action && r.status
            == ChangeSetFileResultStatus::Applied
}

/// The result of a change set tells that a file was changed as proposed.
pub open spec fn file_is_applied(result: ChangeSetResultView, file: ChangeSetFileView) -> bool {
    any_where(result.file_results, tells_applied(file))
}

/// Tells whether the result of a change set tells that a file was changed as proposed.
pub(crate) fn change_set_file_is_applied(result: &ChangeSetResult, file: &ChangeSetFile) -> (r: bool)
    ensures
        r == file_is_applied(result.deep_view(), file.deep_view()),
{
    let ghost p = tells_applied(file.deep_view());
    has_any(
        &result.file_results,
        |x: &ChangeSetFileResult| -> (b: bool)
            ensures
                b == p(x.deep_view())
            {
                x.path == file.path && x.action == file.action && x.status
                    == ChangeSetFileResultStatus::Applied
            },
        Ghost(p),
    )
}

// A complete layer.

/// The parts of a layer agree with each other and with the accepted execution. The parent snapshot
/// of the execution is known.
pub open spec fn layer_fits(
    layer: IntentLayerManifestV1View,
    artifacts: IntentArtifactManifestV1View,
    x: IntentExecutionLineageV1View,
    accepted: AcceptedIntentPlanProjectionV1View,
) -> bool {
    &&& x.parent_snapshot_id == Some(layer.core.result_snapshot_id)
    &&& layer.core.changeset_ids == x.changeset_ids
    &&& artifacts.intent_ref == layer.core.intent_ref
    &&& artifacts.execution_id == layer.core.execution_id
    &&& artifacts.layer_core_digest == layer.core.core_digest
    &&& layer.artifact_manifest_digest == artifacts.manifest_digest
    &&& plan_refs(accepted.plan).contains(layer.core.intent_ref)
}

/// The message for a layer that does not fit its execution.
pub open spec fn misfit_message() -> Seq<char> {
    "Intent layer manifest does not match accepted execution lineage"@
}

/// The check that a layer fits its execution.
pub open spec fn layer_fit_verdict(
    layer: IntentLayerManifestV1View,
    artifacts: IntentArtifactManifestV1View,
    x: IntentExecutionLineageV1View,
    accepted: AcceptedIntentPlanProjectionV1View,
) -> Verdict {
    if layer.core.intent_ref != x.binding.intent_ref || layer.core.execution_id
        != x.binding.execution_id || layer.core.execution_origin != x.binding.origin {
        Err(misfit_message())
    } else if x.parent_snapshot_id is None {
        Err("Intent layer execution has no parent snapshot"@)
    } else {
        check(layer_fits(layer, artifacts, x, accepted), misfit_message())
    }
}

/// The message for file changes that a layer cannot hold.
pub open spec fn overlap_message() -> Seq<char> {
    "Intent layer execution has unsupported or overlapping file changes"@
}

/// The paths of the first `n` files of a change set, behind other paths.
pub open spec fn set_paths(files: Seq<ChangeSetFileView>, n: int, others: Seq<Seq<char>>) -> Result<
    Seq<Seq<char>>,
    Seq<char>,
>
    decreases n,
{
    if n <= 0 {
        Ok(others)
    } else {
        match set_paths(files, n - 1, others) {
            Err(m) => Err(m),
            Ok(list) => if files[n - 1].action == ChangeSetFileAction::Rename || list.contains(
                files[n - 1].path,
            ) {
                Err(overlap_message())
            } else {
                Ok(list.push(files[n - 1].path))
            },
        }
    }
}

/// The paths that the first `n` change sets of an execution change.
pub open spec fn execution_paths(
    records: Seq<SessionStreamRecordView>,
    ids: Seq<Seq<char>>,
    n: int,
) -> Result<Seq<Seq<char>>, Seq<char>>
    decreases n,
{
    if n <= 0 {
        Ok(Seq::empty())
    } else {
        match execution_paths(records, ids, n - 1) {
            Err(m) => Err(m),
            Ok(list) => match proposal(records, ids[n - 1]) {
                None => Err("Intent layer execution ChangeSet is unavailable"@),
                Some(c) => set_paths(c.files, c.files.len() as int, list),
            },
        }
    }
}

/// The path of the file that an artifact belongs to.
pub open spec fn artifact_path_of(a: IntentArtifactBindingV1View) -> Seq<char> {
    match a.subject {
        BoundedIntentArtifactSubjectV1View::FileHunk { normalized_relative_path, .. } => {
            normalized_relative_path
        },
        _ => Seq::empty(),
    }
}

/// The paths of artifacts.
pub open spec fn artifact_paths(artifacts: Seq<IntentArtifactBindingV1View>) -> Seq<Seq<char>> {
    Seq::new(artifacts.len(), |i: int| artifact_path_of(artifacts[i]))
}

/// What a mutation is known by: its batch, or itself where it has none.
pub open spec fn mutation_identity(p: MutationPreparedView) -> Seq<char> {
    match p.batch_id {
        Some(id) => id,
        None => p.operation_id,
    }
}

/// The check that an artifact comes from the exact mutation of its file.
pub open spec fn provenance_verdict(
    records: Seq<SessionStreamRecordView>,
    x: IntentExecutionLineageV1View,
    workspace_id: Seq<char>,
    artifact_sequence: u64,
    layer_sequence: u64,
    a: IntentArtifactBindingV1View,
    file: ChangeSetFileView,
) -> Verdict {
    match mutation_pair(records, x, workspace_id, file) {
        None => Err("Intent layer artifact has no exact mutation pair"@),
        Some(pair) => check(
            records[pair.1].event_id == a.provenance.source_event_id
                && a.provenance.mutation_batch_id == Some(
                mutation_identity(prepared_in(records[pair.0])->0),
            ) && records[pair.1].stream_sequence < artifact_sequence && artifact_sequence
                < layer_sequence,
            "Intent layer artifact provenance does not match its exact mutation"@,
        ),
    }
}

/// The check that an artifact is the applied change of a file of the execution.
pub open spec fn hunk_verdict(
    records: Seq<SessionStreamRecordView>,
    x: IntentExecutionLineageV1View,
    workspace_id: Seq<char>,
    artifact_sequence: u64,
    layer_sequence: u64,
    a: IntentArtifactBindingV1View,
    before: Seq<char>,
    after: Seq<char>,
) -> Verdict {
    match a.provenance.changeset_id {
        None => Err("Intent layer artifact has no ChangeSet lineage"@),
        Some(id) => if !x.changeset_ids.contains(id) || proposal(records, id) is None {
            Err("Intent layer artifact references another execution ChangeSet"@)
        } else if change_result(records, id) is None {
            Err("Intent layer artifact has no ChangeSet result"@)
        } else {
            let c = proposal(records, id)->0;
            let result = change_result(records, id)->0;
            let proposed_at = records[first_where(records, proposes(id))->0].stream_sequence;
            let settled_at = records[first_where(records, settles(id))->0].stream_sequence;
            match find_key::<ChangeSetFile>(c.files, artifact_path_of(a)) {
                None => Err("Intent layer artifact path is absent from its ChangeSet"@),
                Some(k) => chain(
                    check(
                        proposed_at < artifact_sequence && settled_at < artifact_sequence
                            && result.status == ChangeSetResultStatus::Applied && file_is_applied(
                            result,
                            c.files[k],
                        ),
                        "Intent layer artifact precedes its applied ChangeSet evidence"@,
                    ),
                    chain(
                        check(
                            hashes_match(c.files[k], before, after),
                            "Intent layer artifact hashes do not match its ChangeSet"@,
                        ),
                        provenance_verdict(
                            records,
                            x,
                            workspace_id,
                            artifact_sequence,
                            layer_sequence,
                            a,
                            c.files[k],
                        ),
                    ),
                ),
            }
        },
    }
}

/// The check of the artifact at `i` of a layer.
pub open spec fn layer_artifact_verdict(
    records: Seq<SessionStreamRecordView>,
    x: IntentExecutionLineageV1View,
    workspace_id: Seq<char>,
    artifact_sequence: u64,
    layer_sequence: u64,
    artifacts: Seq<IntentArtifactBindingV1View>,
    i: int,
) -> Verdict {
    let a = artifacts[i];
    chain(
        check(
            a.ownership == IntentArtifactOwnership::Exclusive && a.availability
                == IntentArtifactAvailability::Available,
            "Initial Intent layer artifacts must be exclusive and available"@,
        ),
        match a.subject {
            BoundedIntentArtifactSubjectV1View::FileHunk {
                before_file_digest,
                after_file_digest,
                ..
            } => chain(
                check(
                    !repeats(artifact_paths(artifacts), i),
                    "Intent layer repeats an artifact file path"@,
                ),
                hunk_verdict(
                    records,
                    x,
                    workspace_id,
                    artifact_sequence,
                    layer_sequence,
                    a,
                    before_file_digest,
                    after_file_digest,
                ),
            ),
            _ => Err("executable layers support only file hunk artifacts"@),
        },
    )
}

/// The checks of all artifacts of a layer.
pub open spec fn layer_artifact_verdicts(
    records: Seq<SessionStreamRecordView>,
    x: IntentExecutionLineageV1View,
    workspace_id: Seq<char>,
    artifact_sequence: u64,
    layer_sequence: u64,
    artifacts: Seq<IntentArtifactBindingV1View>,
) -> Seq<Verdict> {
    Seq::new(
        artifacts.len(),
        |i: int|
            layer_artifact_verdict(
                records,
                x,
                workspace_id,
                artifact_sequence,
                layer_sequence,
                artifacts,
                i,
            ),
    )
}

/// The check that the artifacts of a layer are exactly the changes of its execution.
pub open spec fn cover_verdict(
    records: Seq<SessionStreamRecordView>,
    x: IntentExecutionLineageV1View,
    workspace_id: Seq<char>,
    artifact_sequence: u64,
    layer_sequence: u64,
    artifacts: Seq<IntentArtifactBindingV1View>,
) -> Verdict {
    match execution_paths(records, x.changeset_ids, x.changeset_ids.len() as int) {
        Err(m) => Err(m),
        Ok(paths) => chain(
            first_failure(
                layer_artifact_verdicts(
                    records,
                    x,
                    workspace_id,
                    artifact_sequence,
                    layer_sequence,
                    artifacts,
                ),
            ),
            check(
                same_items(artifact_paths(artifacts), paths),
                "Intent layer artifacts do not cover the exact execution ChangeSets"@,
            ),
        ),
    }
}

/// The check that the attempt behind a layer ended before it, and that the layer builds on the
/// snapshot before its execution.
pub open spec fn layer_evidence_verdict(
    records: Seq<SessionStreamRecordView>,
    x: IntentExecutionLineageV1View,
    workspace_id: Seq<char>,
    artifact_sequence: u64,
    base_snapshot_id: Seq<char>,
) -> Verdict {
    match terminal_sequence(records, x) {
        Err(m) => Err(m),
        Ok(end) => chain(
            check(end < artifact_sequence, "Intent layer precedes its exact terminal attempt"@),
            match base_snapshot(records, x, workspace_id, Some(artifact_sequence)) {
                Err(m) => Err(m),
                Ok(base) => check(
                    base == base_snapshot_id,
                    "Intent layer base snapshot does not match execution evidence"@,
                ),
            },
        ),
    }
}

/// The check of a complete layer.
pub open spec fn complete_layer_verdict(
    records: Seq<SessionStreamRecordView>,
    layer: IntentLayerManifestV1View,
    artifacts: IntentArtifactManifestV1View,
    x: IntentExecutionLineageV1View,
    accepted: AcceptedIntentPlanProjectionV1View,
    artifact_sequence: u64,
    layer_sequence: u64,
) -> Verdict {
    chain(
        layer_manifest_verdict(layer),
        chain(
            artifact_manifest_verdict(artifacts),
            chain(
                layer_fit_verdict(layer, artifacts, x, accepted),
                chain(
                    layer_evidence_verdict(
                        records,
                        x,
                        accepted.plan.workspace_id,
                        artifact_sequence,
                        layer.core.base_snapshot_id,
                    ),
                    chain(
                        check(
                            layer.core.operation_ids.len() == 0,
                            "Initial Intent layer cannot contain operation lineage"@,
                        ),
                        cover_verdict(
                            records,
                            x,
                            accepted.plan.workspace_id,
                            artifact_sequence,
                            layer_sequence,
                            artifacts.artifacts,
                        ),
                    ),
                ),
            ),
        ),
    )
}

proof fn lemma_set_paths_fail(
    files: Seq<ChangeSetFileView>,
    n: int,
    end: int,
    others: Seq<Seq<char>>,
)
    requires
        0 <= n <= end,
        set_paths(files, n, others) is Err,
    ensures
        set_paths(files, end, others) == set_paths(files, n, others),
    decreases end - n,
{
    if n < end {
        lemma_set_paths_fail(files, n, end - 1, others);
    }
}

proof fn lemma_execution_paths_fail(
    records: Seq<SessionStreamRecordView>,
    ids: Seq<Seq<char>>,
    n: int,
    end: int,
)
    requires
        0 <= n <= end,
        execution_paths(records, ids, n) is Err,
    ensures
        execution_paths(records, ids, end) == execution_paths(records, ids, n),
    decreases end - n,
{
    if n < end {
        lemma_execution_paths_fail(records, ids, n, end - 1);
    }
}

fn add_set_paths(files: &Vec<ChangeSetFile>, others: Vec<String>) -> (r: Result<
    Vec<String>,
    KernelError,
>)
    ensures
        outcome(r) == set_paths(files.deep_view(), files.len() as int, others.deep_view()),
{
    let ghost fv = files.deep_view();
    let ghost ov = others.deep_view();
    let mut list = others;
    let mut i: usize = 0;
    while i < files.len()
        invariant
            i <= files.len(),
            fv == files.deep_view(),
            ov == others.deep_view(),
            set_paths(fv, i as int, ov) == Ok::<Seq<Seq<char>>, Seq<char>>(list.deep_view()),
        decreases files.len() - i,
    {
        assert(fv[i as int] == files@[i as int].deep_view());
        if files[i].action == ChangeSetFileAction::Rename || holds(&list, &files[i].path) {
            proof {
                lemma_set_paths_fail(fv, i + 1, fv.len() as int, ov);
            }
            return Err(
                KernelError::new(
                    "Intent layer execution has unsupported or overlapping file changes",
                ),
            );
        }
        let ghost had = list;
        let path = files[i].path.duplicate();
        list.push(path);
        proof {
            lemma_push_view(had, path, list);
        }
        i = i + 1;
    }
    Ok(list)
}

fn collect_execution_paths(records: &Vec<SessionStreamRecord>, ids: &Vec<String>) -> (r: Result<
    Vec<String>,
    KernelError,
>)
    ensures
        outcome(r) == execution_paths(records.deep_view(), ids.deep_view(), ids.len() as int),
{
    let ghost rv = records.deep_view();
    let ghost iv = ids.deep_view();
    let mut list: Vec<String> = Vec::new();
    assert(list.deep_view() =~= Seq::empty());
    let mut i: usize = 0;
    while i < ids.len()
        invariant
            i <= ids.len(),
            rv == records.deep_view(),
            iv == ids.deep_view(),
            execution_paths(rv, iv, i as int) == Ok::<Seq<Seq<char>>, Seq<char>>(list.deep_view()),
        decreases ids.len() - i,
    {
        assert(iv[i as int] == ids@[i as int]@);
        let c = match find_proposal(records, ids[i].as_str()) {
            None => {
                proof {
                    lemma_execution_paths_fail(rv, iv, i + 1, iv.len() as int);
                }
                return Err(KernelError::new("Intent layer execution ChangeSet is unavailable"));
            },
            Some(c) => c,
        };
        match add_set_paths(&c.files, list) {
            Ok(more) => {
                list = more;
            },
            Err(e) => {
                proof {
                    lemma_execution_paths_fail(rv, iv, i + 1, iv.len() as int);
                }
                return Err(e);
            },
        }
        i = i + 1;
    }
    Ok(list)
}

/// The path of the file that an artifact belongs to.
pub(crate) fn artifact_path(a: &IntentArtifactBindingV1) -> (r: String)
    ensures
        r@ == artifact_path_of(a.deep_view()),
{
    match &a.subject {
        BoundedIntentArtifactSubjectV1::FileHunk { normalized_relative_path, .. } => {
            normalized_relative_path.duplicate()
        },
        _ => String::new(),
    }
}

fn collect_artifact_paths(artifacts: &Vec<IntentArtifactBindingV1>) -> (r: Vec<String>)
    ensures
        r.deep_view() == artifact_paths(artifacts.deep_view()),
{
    let ghost all = artifact_paths(artifacts.deep_view());
    let mut r: Vec<String> = Vec::new();
    let mut i: usize = 0;
    while i < artifacts.len()
        invariant
            i <= artifacts.len(),
            all == artifact_paths(artifacts.deep_view()),
            r.deep_view() =~= all.take(i as int),
        decreases artifacts.len() - i,
    {
        assert(artifacts.deep_view()[i as int] == artifacts@[i as int].deep_view());
        let path = artifact_path(&artifacts[i]);
        let ghost had = r;
        r.push(path);
        proof {
            lemma_push_view(had, path, r);
        }
        i = i + 1;
    }
    assert(r.deep_view() =~= all);
    r
}

fn validate_provenance(
    records: &Vec<SessionStreamRecord>,
    x: &IntentExecutionLineageV1,
    workspace_id: &str,
    artifact_sequence: u64,
    layer_sequence: u64,
    a: &IntentArtifactBindingV1,
    file: &ChangeSetFile,
) -> (r: Result<(), KernelError>)
    ensures
        verdict(r) == provenance_verdict(
            records.deep_view(),
            x.deep_view(),
            workspace_id@,
            artifact_sequence,
            layer_sequence,
            a.deep_view(),
            file.deep_view(),
        ),
{
    proof {
        lemma_mutation_pair(records.deep_view(), x.deep_view(), workspace_id@, file.deep_view());
    }
    let (i, k) = match mutation_pair_for_file(records, x, workspace_id, file) {
        None => {
            return reject("Intent layer artifact has no exact mutation pair");
        },
        Some(pair) => pair,
    };
    assert(records.deep_view()[i as int] == records@[i as int].deep_view());
    assert(records.deep_view()[k as int] == records@[k as int].deep_view());
    let same_batch = match prepared_of(&records[i]) {
        Some(p) => {
            let identity = match &p.batch_id {
                Some(id) => id,
                None => &p.operation_id,
            };
            match &a.provenance.mutation_batch_id {
                Some(id) => *id == *identity,
                None => false,
            }
        },
        None => {
            assert(false);
            false
        },
    };
    if records[k].event_id != a.provenance.source_event_id || !same_batch
        || records[k].stream_sequence >= artifact_sequence || artifact_sequence >= layer_sequence {
        return reject("Intent layer artifact provenance does not match its exact mutation");
    }
    Ok(())
}

fn validate_hunk(
    records: &Vec<SessionStreamRecord>,
    x: &IntentExecutionLineageV1,
    workspace_id: &str,
    artifact_sequence: u64,
    layer_sequence: u64,
    a: &IntentArtifactBindingV1,
    before: &IntentContentDigest,
    after: &IntentContentDigest,
) -> (r: Result<(), KernelError>)
    ensures
        verdict(r) == hunk_verdict(
            records.deep_view(),
            x.deep_view(),
            workspace_id@,
            artifact_sequence,
            layer_sequence,
            a.deep_view(),
            before.deep_view(),
            after.deep_view(),
        ),
{
    let id = match &a.provenance.changeset_id {
        None => {
            return reject("Intent layer artifact has no ChangeSet lineage");
        },
        Some(id) => id,
    };
    if !holds(&x.changeset_ids, id) {
        return reject("Intent layer artifact references another execution ChangeSet");
    }
    let at = match find_proposal_record(records, id.as_str()) {
        None => {
            return reject("Intent layer artifact references another execution ChangeSet");
        },
        Some(at) => at,
    };
    assert(records.deep_view()[at as int] == records@[at as int].deep_view());
    let c = match proposal_of(&records[at]) {
        None => {
            return reject("Intent layer artifact references another execution ChangeSet");
        },
        Some(c) => c,
    };
    let settled = match find_result_record(records, id.as_str()) {
        None => {
            return reject("Intent layer artifact has no ChangeSet result");
        },
        Some(k) => k,
    };
    assert(records.deep_view()[settled as int] == records@[settled as int].deep_view());
    let result = match change_result_of(&records[settled]) {
        None => {
            return reject("Intent layer artifact has no ChangeSet result");
        },
        Some(result) => result,
    };
    let path = artifact_path(a);
    let place = match position_by_key(&c.files, path.as_str()) {
        None => {
            return reject("Intent layer artifact path is absent from its ChangeSet");
        },
        Some(k) => k,
    };
    let file = &c.files[place];
    assert(c.files.deep_view()[place as int] == file.deep_view());
    if records[at].stream_sequence >= artifact_sequence || records[settled].stream_sequence
        >= artifact_sequence || result.status != ChangeSetResultStatus::Applied
        || !change_set_file_is_applied(result, file) {
        return reject("Intent layer artifact precedes its applied ChangeSet evidence");
    }
    if !change_set_hashes_match(file, before, after) {
        return reject("Intent layer artifact hashes do not match its ChangeSet");
    }
    validate_provenance(
        records,
        x,
        workspace_id,
        artifact_sequence,
        layer_sequence,
        a,
        file,
    )
}

fn validate_layer_artifacts(
    records: &Vec<SessionStreamRecord>,
    x: &IntentExecutionLineageV1,
    workspace_id: &str,
    artifact_sequence: u64,
    layer_sequence: u64,
    artifacts: &Vec<IntentArtifactBindingV1>,
    paths: &Vec<String>,
) -> (r: Result<(), KernelError>)
    requires
        paths.deep_view() == artifact_paths(artifacts.deep_view()),
    ensures
        verdict(r) == first_failure(
            layer_artifact_verdicts(
                records.deep_view(),
                x.deep_view(),
                workspace_id@,
                artifact_sequence,
                layer_sequence,
                artifacts.deep_view(),
            ),
        ),
{
    let ghost all = layer_artifact_verdicts(
        records.deep_view(),
        x.deep_view(),
        workspace_id@,
        artifact_sequence,
        layer_sequence,
        artifacts.deep_view(),
    );
    let mut i: usize = 0;
    proof {
        lemma_failures_begin(all);
    }
    while i < artifacts.len()
        invariant
            i <= artifacts.len(),
            paths.deep_view() == artifact_paths(artifacts.deep_view()),
            all == layer_artifact_verdicts(
                records.deep_view(),
                x.deep_view(),
                workspace_id@,
                artifact_sequence,
                layer_sequence,
                artifacts.deep_view(),
            ),
            first_failure(all) == first_failure(all.skip(i as int)),
        decreases artifacts.len() - i,
    {
        proof {
            lemma_failures_step(all, i as int);
        }
        let a = &artifacts[i];
        assert(artifacts.deep_view()[i as int] == a.deep_view());
        assert(paths.deep_view().len() == artifacts.deep_view().len());
        if a.ownership != IntentArtifactOwnership::Exclusive || a.availability
            != IntentArtifactAvailability::Available {
            return reject("Initial Intent layer artifacts must be exclusive and available");
        }
        match &a.subject {
            BoundedIntentArtifactSubjectV1::FileHunk {
                before_file_digest,
                after_file_digest,
                ..
            } => {
                if repeated_at(paths, i) {
                    return reject("Intent layer repeats an artifact file path");
                }
                validate_hunk(
                    records,
                    x,
                    workspace_id,
                    artifact_sequence,
                    layer_sequence,
                    a,
                    before_file_digest,
                    after_file_digest,
                )?;
            },
            _ => {
                return reject("executable layers support only file hunk artifacts");
            },
        }
        i = i + 1;
    }
    proof {
        lemma_failures_end(all);
    }
    Ok(())
}

fn validate_layer_fit(
    layer: &IntentLayerManifestV1,
    artifacts: &IntentArtifactManifestV1,
    x: &IntentExecutionLineageV1,
    accepted: &AcceptedIntentPlanProjectionV1,
) -> (r: Result<(), KernelError>)
    ensures
        verdict(r) == layer_fit_verdict(
            layer.deep_view(),
            artifacts.deep_view(),
            x.deep_view(),
            accepted.deep_view(),
        ),
{
    let misfit = "Intent layer manifest does not match accepted execution lineage";
    if !layer.core.intent_ref.same(&x.binding.intent_ref) || !layer.core.execution_id.same(
        &x.binding.execution_id,
    ) || !layer.core.execution_origin.same(&x.binding.origin) {
        return reject(misfit);
    }
    let same_snapshot = match &x.parent_snapshot_id {
        None => {
            return reject("Intent layer execution has no parent snapshot");
        },
        Some(id) => layer.core.result_snapshot_id == *id,
    };
    if !same_snapshot || !layer.core.changeset_ids.same(&x.changeset_ids)
        || !artifacts.intent_ref.same(&layer.core.intent_ref) || !artifacts.execution_id.same(
        &layer.core.execution_id,
    ) || !artifacts.layer_core_digest.same(&layer.core.core_digest)
        || !layer.artifact_manifest_digest.same(&artifacts.manifest_digest) || !plan_holds(
        &accepted.plan,
        &layer.core.intent_ref,
    ) {
        return reject(misfit);
    }
    Ok(())
}

/// Checks a complete layer.
pub(crate) fn validate_complete_layer(
    records: &Vec<SessionStreamRecord>,
    layer: &IntentLayerManifestV1,
    artifacts: &IntentArtifactManifestV1,
    x: &IntentExecutionLineageV1,
    accepted: &AcceptedIntentPlanProjectionV1,
    artifact_sequence: u64,
    layer_sequence: u64,
) -> (r: Result<(), KernelError>)
    ensures
        verdict(r) == complete_layer_verdict(
            records.deep_view(),
            layer.deep_view(),
            artifacts.deep_view(),
            x.deep_view(),
            accepted.deep_view(),
            artifact_sequence,
            layer_sequence,
        ),
{
    layer.validate_contract()?;
    artifacts.validate_contract()?;
    validate_layer_fit(layer, artifacts, x, accepted)?;
    let workspace_id = accepted.plan.workspace_id.as_str();
    let end = terminal_attempt_sequence(records, x)?;
    if end >= artifact_sequence {
        return reject("Intent layer precedes its exact terminal attempt");
    }
    let base = base_snapshot_id(records, x, workspace_id, Some(artifact_sequence))?;
    if base != layer.core.base_snapshot_id {
        return reject("Intent layer base snapshot does not match execution evidence");
    }
    if layer.core.operation_ids.len() != 0 {
        return reject("Initial Intent layer cannot contain operation lineage");
    }
    let expected = collect_execution_paths(records, &x.changeset_ids)?;
    let paths = collect_artifact_paths(&artifacts.artifacts);
    validate_layer_artifacts(
        records,
        x,
        workspace_id,
        artifact_sequence,
        layer_sequence,
        &artifacts.artifacts,
        &paths,
    )?;
    if !same_texts(&paths, &expected) {
        return reject("Intent layer artifacts do not cover the exact execution ChangeSets");
    }
    Ok(())
}

// Replay.

/// What is known of layers while a stream is replayed.
#[verifier::ext_equal]
pub struct LayerReplay {
    /// Artifact manifests that wait for their layer manifests.
    pub pending: Seq<PendingArtifactManifestV1View>,
    /// Complete layers, in the order of their completion.
    pub layers: Seq<IntentLayerStateV1View>,
}

/// An artifact as a new layer holds it.
pub open spec fn fresh_artifact(a: IntentArtifactBindingV1View) -> EffectiveIntentArtifactV1View {
    EffectiveIntentArtifactV1View {
        binding: a,
        ownership: a.ownership,
        availability: a.availability,
    }
}

/// The artifacts as a new layer holds them.
pub open spec fn fresh_artifacts(artifacts: Seq<IntentArtifactBindingV1View>) -> Seq<
    EffectiveIntentArtifactV1View,
> {
    Seq::new(artifacts.len(), |i: int| fresh_artifact(artifacts[i]))
}

/// The replay after an artifact manifest.
pub open spec fn after_artifact_manifest(
    lineage: IntentLineageProjectionV1View,
    s: LayerReplay,
    record: SessionStreamRecordView,
    manifest: IntentArtifactManifestV1View,
) -> Result<LayerReplay, Seq<char>> {
    match execution_with(lineage, manifest.execution_id) {
        None => Err("Intent artifact manifest has no execution lineage"@),
        Some(x) => yields(
            chain(
                manifest_lineage_verdict(manifest, x),
                check(
                    find_key::<PendingArtifactManifestV1>(s.pending, manifest.execution_id) is None,
                    "Intent execution repeats an artifact manifest"@,
                ),
            ),
            LayerReplay {
                pending: s.pending.push(
                    PendingArtifactManifestV1View {
                        manifest,
                        event_id: record.event_id,
                        stream_sequence: record.stream_sequence,
                    },
                ),
                ..s
            },
        ),
    }
}

/// The layer that a layer manifest completes.
pub open spec fn completed_layer(
    p: PendingArtifactManifestV1View,
    record: SessionStreamRecordView,
    manifest: IntentLayerManifestV1View,
) -> IntentLayerStateV1View {
    IntentLayerStateV1View {
        artifact_manifest: p.manifest,
        layer_manifest: manifest,
        artifact_event_id: p.event_id,
        layer_event_id: record.event_id,
        layer_stream_sequence: record.stream_sequence,
        artifacts: fresh_artifacts(p.manifest.artifacts),
    }
}

/// The replay after a layer manifest.
pub open spec fn after_layer_manifest(
    records: Seq<SessionStreamRecordView>,
    admission: IntentStackProjectionV1View,
    lineage: IntentLineageProjectionV1View,
    s: LayerReplay,
    record: SessionStreamRecordView,
    manifest: IntentLayerManifestV1View,
) -> Result<LayerReplay, Seq<char>> {
    let id = manifest.core.execution_id;
    match execution_with(lineage, id) {
        None => Err("Intent layer manifest has no execution lineage"@),
        Some(x) => match find_key::<PendingArtifactManifestV1>(s.pending, id) {
            None => Err("Intent layer manifest precedes its artifact manifest"@),
            Some(i) => if next_number(s.pending[i].stream_sequence) != record.stream_sequence {
                Err("Intent layer manifest is not adjacent to its artifact manifest"@)
            } else {
                match accepted_version(admission, x.stack_version) {
                    None => Err("Intent layer requires its accepted IntentPlan version"@),
                    Some(accepted) => yields(
                        chain(
                            complete_layer_verdict(
                                records,
                                manifest,
                                s.pending[i].manifest,
                                x,
                                accepted,
                                s.pending[i].stream_sequence,
                                record.stream_sequence,
                            ),
                            check(
                                find_key::<IntentLayerStateV1>(s.layers, id) is None,
                                "Intent execution repeats a final layer manifest"@,
                            ),
                        ),
                        LayerReplay {
                            pending: s.pending.remove(i),
                            layers: s.layers.push(
                                completed_layer(s.pending[i], record, manifest),
                            ),
                        },
                    ),
                }
            },
        },
    }
}

/// The replay after the first `n` records.
pub open spec fn layers_after(
    records: Seq<SessionStreamRecordView>,
    admission: IntentStackProjectionV1View,
    lineage: IntentLineageProjectionV1View,
    n: int,
) -> Result<LayerReplay, Seq<char>>
    decreases n,
{
    if n <= 0 {
        Ok(LayerReplay { pending: Seq::empty(), layers: Seq::empty() })
    } else {
        match layers_after(records, admission, lineage, n - 1) {
            Err(m) => Err(m),
            Ok(s) => match intent_event_in(records[n - 1]) {
                Some(IntentEventV1View::ArtifactBindingsRecorded { manifest, .. }) => {
                    after_artifact_manifest(lineage, s, records[n - 1], manifest)
                },
                Some(IntentEventV1View::LayerManifestRecorded { manifest, .. }) => {
                    after_layer_manifest(
                        records,
                        admission,
                        lineage,
                        s,
                        records[n - 1],
                        manifest,
                    )
                },
                _ => Ok(s),
            },
        }
    }
}

proof fn lemma_layers_fail(
    records: Seq<SessionStreamRecordView>,
    admission: IntentStackProjectionV1View,
    lineage: IntentLineageProjectionV1View,
    n: int,
    end: int,
)
    requires
        0 <= n <= end,
        layers_after(records, admission, lineage, n) is Err,
    ensures
        layers_after(records, admission, lineage, end) == layers_after(
            records,
            admission,
            lineage,
            n,
        ),
    decreases end - n,
{
    if n < end {
        lemma_layers_fail(records, admission, lineage, n, end - 1);
    }
}

// What became of artifacts.

/// The record tells what became of an artifact.
pub open spec fn tells_of_artifact(id: Seq<char>) -> spec_fn(SessionStreamRecordView) -> bool {
    |r: SessionStreamRecordView|
        r.body matches RecordBodyView::ArtifactLifecycle(l) && l.artifact_id == id
}

/// Whether an artifact can be had after its state has changed.
pub open spec fn availability_after(status: MutationArtifactLifecycleStatus) -> IntentArtifactAvailability {
    match status {
        MutationArtifactLifecycleStatus::Deleted => IntentArtifactAvailability::Deleted,
        MutationArtifactLifecycleStatus::Expired => IntentArtifactAvailability::Expired,
        MutationArtifactLifecycleStatus::Unavailable => IntentArtifactAvailability::Corrupted,
    }
}

/// What the stream tells last of an artifact, if it tells it after a layer was completed.
pub open spec fn told_after(records: Seq<SessionStreamRecordView>, id: Seq<char>, sequence: u64) -> Option<
    IntentArtifactAvailability,
> {
    match last_where(records, tells_of_artifact(id)) {
        Some(i) => match records[i].body {
            RecordBodyView::ArtifactLifecycle(l) => if records[i].stream_sequence > sequence {
                Some(availability_after(l.status))
            } else {
                None
            },
            _ => None,
        },
        None => None,
    }
}

/// What the stream tells of the artifacts that a whole layer rests on.
pub open spec fn layer_told(records: Seq<SessionStreamRecordView>, layer: IntentLayerStateV1View) -> Option<
    IntentArtifactAvailability,
> {
    let at = layer.layer_stream_sequence;
    match told_after(records, layer.layer_manifest.core.forward_patch_artifact_id, at) {
        Some(a) => Some(a),
        None => match told_after(records, layer.layer_manifest.core.reverse_patch_artifact_id, at) {
            Some(a) => Some(a),
            None => told_after(records, layer.layer_manifest.artifact_manifest_id, at),
        },
    }
}

/// An artifact with what the stream tells of it.
pub open spec fn artifact_told(
    records: Seq<SessionStreamRecordView>,
    layer: IntentLayerStateV1View,
    a: EffectiveIntentArtifactV1View,
) -> EffectiveIntentArtifactV1View {
    EffectiveIntentArtifactV1View {
        availability: match told_after(
            records,
            a.binding.artifact_id,
            layer.layer_stream_sequence,
        ) {
            Some(told) => told,
            None => match layer_told(records, layer) {
                Some(told) => told,
                None => a.availability,
            },
        },
        ..a
    }
}

/// The events that layers come from.
pub open spec fn is_source_event(layers: Seq<IntentLayerStateV1View>, id: Seq<char>) -> bool {
    exists|i: int, k: int|
        0 <= i < layers.len() && 0 <= k < layers[i].artifacts.len() && (
        #[trigger] layers[i].artifacts[k]).binding.provenance.source_event_id == id
}

/// A record, later than a layer, changes the file of an artifact: a mutation that no layer comes from
/// left other contents, or the workspace was changed by unknown hands.
pub open spec fn drifts(
    layers: Seq<IntentLayerStateV1View>,
    sequence: u64,
    path: Seq<char>,
    after: Seq<char>,
) -> spec_fn(SessionStreamRecordView) -> bool {
    |r: SessionStreamRecordView|
        r.stream_sequence > sequence && match r.body {
            RecordBodyView::MutationCommitted(c) => !is_source_event(layers, r.event_id)
                && changes_plain_path(c.committed_subject, path) && c.observed_after_hash != Some(
                after,
            ),
            RecordBodyView::WorkspaceMutation(d) => d.unknown_dirty,
            _ => false,
        }
}

/// An artifact with the word whether its file has drifted away from it.
pub open spec fn artifact_drifted(
    records: Seq<SessionStreamRecordView>,
    layers: Seq<IntentLayerStateV1View>,
    sequence: u64,
    a: EffectiveIntentArtifactV1View,
) -> EffectiveIntentArtifactV1View {
    match a.binding.subject {
        BoundedIntentArtifactSubjectV1View::FileHunk {
            normalized_relative_path,
            after_file_digest,
            ..
        } => if any_where(
            records,
            drifts(layers, sequence, normalized_relative_path, after_file_digest),
        ) {
            EffectiveIntentArtifactV1View { ownership: IntentArtifactOwnership::Drifted, ..a }
        } else {
            a
        },
        _ => a,
    }
}

/// A layer with what became of its artifacts since it was completed.
pub open spec fn aged_layer(
    records: Seq<SessionStreamRecordView>,
    layers: Seq<IntentLayerStateV1View>,
    layer: IntentLayerStateV1View,
) -> IntentLayerStateV1View {
    IntentLayerStateV1View {
        artifacts: Seq::new(
            layer.artifacts.len(),
            |k: int|
                artifact_drifted(
                    records,
                    layers,
                    layer.layer_stream_sequence,
                    artifact_told(records, layer, layer.artifacts[k]),
                ),
        ),
        ..layer
    }
}

/// All layers with what became of their artifacts.
pub open spec fn aged_layers(
    records: Seq<SessionStreamRecordView>,
    layers: Seq<IntentLayerStateV1View>,
) -> Seq<IntentLayerStateV1View> {
    Seq::new(layers.len(), |i: int| aged_layer(records, layers, layers[i]))
}

// Ownership.

/// The layer at `i` is the latest of its intent, and the intent is accepted.
pub open spec fn is_latest_layer(
    layers: Seq<IntentLayerStateV1View>,
    refs: Seq<IntentVersionRefView>,
    i: int,
) -> bool {
    &&& refs.contains(layers[i].layer_manifest.core.intent_ref)
    &&& forall|j: int|
        i < j < layers.len() ==> (#[trigger] layers[j]).layer_manifest.core.intent_ref
            != layers[i].layer_manifest.core.intent_ref
}

/// The artifact is one of a file at a path.
pub open spec fn is_hunk_at(path: Seq<char>) -> spec_fn(EffectiveIntentArtifactV1View) -> bool {
    |a: EffectiveIntentArtifactV1View|
        a.binding.subject matches BoundedIntentArtifactSubjectV1View::FileHunk {
            normalized_relative_path,
            ..
        } && normalized_relative_path == path
}

/// The latest layer of another intent holds an artifact of the file at a path too.
pub open spec fn claimed_by_other(
    layers: Seq<IntentLayerStateV1View>,
    refs: Seq<IntentVersionRefView>,
    intent_ref: IntentVersionRefView,
    path: Seq<char>,
) -> bool {
    exists|j: int|
        0 <= j < layers.len() && (#[trigger] layers[j]).layer_manifest.core.intent_ref != intent_ref
            && is_latest_layer(layers, refs, j) && any_where(layers[j].artifacts, is_hunk_at(path))
}

/// An artifact with the word whether another intent owns its file too.
pub open spec fn artifact_shared(
    layers: Seq<IntentLayerStateV1View>,
    refs: Seq<IntentVersionRefView>,
    intent_ref: IntentVersionRefView,
    a: EffectiveIntentArtifactV1View,
) -> EffectiveIntentArtifactV1View {
    match a.binding.subject {
        BoundedIntentArtifactSubjectV1View::FileHunk { normalized_relative_path, .. } => if a.ownership
            != IntentArtifactOwnership::Drifted && claimed_by_other(
            layers,
            refs,
            intent_ref,
            normalized_relative_path,
        ) {
            EffectiveIntentArtifactV1View { ownership: IntentArtifactOwnership::Shared, ..a }
        } else {
            a
        },
        _ => a,
    }
}

/// The layer at `i` with the word which of its artifacts are shared: only a latest layer shares.
pub open spec fn owned_layer(
    layers: Seq<IntentLayerStateV1View>,
    refs: Seq<IntentVersionRefView>,
    i: int,
) -> IntentLayerStateV1View {
    if is_latest_layer(layers, refs, i) {
        IntentLayerStateV1View {
            artifacts: Seq::new(
                layers[i].artifacts.len(),
                |k: int|
                    artifact_shared(
                        layers,
                        refs,
                        layers[i].layer_manifest.core.intent_ref,
                        layers[i].artifacts[k],
                    ),
            ),
            ..layers[i]
        }
    } else {
        layers[i]
    }
}

/// All layers with the word which of their artifacts are shared.
pub open spec fn owned_layers(
    layers: Seq<IntentLayerStateV1View>,
    accepted: Option<AcceptedIntentPlanProjectionV1View>,
) -> Seq<IntentLayerStateV1View> {
    match accepted {
        None => layers,
        Some(a) => Seq::new(layers.len(), |i: int| owned_layer(layers, plan_refs(a.plan), i)),
    }
}

/// The layers that a stream tells.
pub open spec fn layers_of(
    records: Seq<SessionStreamRecordView>,
    admission: IntentStackProjectionV1View,
    lineage: IntentLineageProjectionV1View,
) -> Result<IntentLayerProjectionV1View, Seq<char>> {
    match layer_facts_verdict(records) {
        Err(m) => Err(m),
        Ok(_) => match layers_after(records, admission, lineage, records.len() as int) {
            Err(m) => Err(m),
            Ok(s) => if s.pending.len() > 0 {
                Err("Intent artifact manifest is missing its adjacent final layer manifest"@)
            } else {
                Ok(
                    IntentLayerProjectionV1View {
                        layers: owned_layers(
                            aged_layers(records, s.layers),
                            latest_accepted(admission),
                        ),
                    },
                )
            },
        },
    }
}

/// The layer of an execution.
pub open spec fn layer_with(p: IntentLayerProjectionV1View, id: Seq<char>) -> Option<
    IntentLayerStateV1View,
> {
    match find_key::<IntentLayerStateV1>(p.layers, id) {
        Some(i) => Some(p.layers[i]),
        None => None,
    }
}

/// The layer is one of an intent.
pub open spec fn is_layer_of(intent_ref: IntentVersionRefView) -> spec_fn(
    IntentLayerStateV1View,
) -> bool {
    |l: IntentLayerStateV1View| l.layer_manifest.core.intent_ref == intent_ref
}

/// The layer of an intent that was completed last.
pub open spec fn latest_layer(
    p: IntentLayerProjectionV1View,
    intent_ref: IntentVersionRefView,
) -> Option<IntentLayerStateV1View> {
    match last_where(p.layers, is_layer_of(intent_ref)) {
        Some(i) => Some(p.layers[i]),
        None => None,
    }
}

// What is said of a layer.

/// How many artifacts of a layer are owned in a way.
pub open spec fn count_owned(
    artifacts: Seq<EffectiveIntentArtifactV1View>,
    ownership: IntentArtifactOwnership,
) -> nat
    decreases artifacts.len(),
{
    if artifacts.len() == 0 {
        0
    } else {
        count_owned(artifacts.drop_last(), ownership) + if artifacts.last().ownership == ownership {
            1nat
        } else {
            0nat
        }
    }
}

/// How many artifacts of a layer cannot be had.
pub open spec fn count_unavailable(artifacts: Seq<EffectiveIntentArtifactV1View>) -> nat
    decreases artifacts.len(),
{
    if artifacts.len() == 0 {
        0
    } else {
        count_unavailable(artifacts.drop_last()) + if artifacts.last().availability
            != IntentArtifactAvailability::Available {
            1nat
        } else {
            0nat
        }
    }
}

/// Why an artifact makes its layer read-only.
pub open spec fn artifact_reason(a: EffectiveIntentArtifactV1View) -> Option<
    IntentLayerReadOnlyReasonV1,
> {
    if a.availability != IntentArtifactAvailability::Available {
        Some(IntentLayerReadOnlyReasonV1::ArtifactUnavailable)
    } else {
        match a.ownership {
            IntentArtifactOwnership::Exclusive => None,
            IntentArtifactOwnership::Shared => Some(IntentLayerReadOnlyReasonV1::SharedOwnership),
            IntentArtifactOwnership::Unowned => Some(IntentLayerReadOnlyReasonV1::UnownedArtifact),
            IntentArtifactOwnership::Drifted => Some(IntentLayerReadOnlyReasonV1::DriftedArtifact),
        }
    }
}

/// Why a layer is read-only: the reason of the last artifact that has one.
pub open spec fn layer_reason(artifacts: Seq<EffectiveIntentArtifactV1View>) -> Option<
    IntentLayerReadOnlyReasonV1,
>
    decreases artifacts.len(),
{
    if artifacts.len() == 0 {
        None
    } else {
        match artifact_reason(artifacts.last()) {
            Some(reason) => Some(reason),
            None => layer_reason(artifacts.drop_last()),
        }
    }
}

/// What the public sees of an artifact.
pub open spec fn public_artifact(a: EffectiveIntentArtifactV1View) -> PublicIntentArtifactSummaryV1View {
    PublicIntentArtifactSummaryV1View {
        artifact_id: a.binding.artifact_id,
        artifact_kind: a.binding.artifact_kind,
        ownership: a.ownership,
        availability: a.availability,
        normalized_relative_path: match a.binding.subject {
            BoundedIntentArtifactSubjectV1View::FileHunk { normalized_relative_path, .. } => Some(
                normalized_relative_path,
            ),
            _ => None,
        },
    }
}

/// What is said of an intent without a layer.
pub open spec fn no_layer_summary() -> IntentLayerSummaryV1View {
    IntentLayerSummaryV1View {
        application_state: None,
        exclusive_artifact_count: 0,
        shared_artifact_count: 0,
        unowned_artifact_count: 0,
        drifted_artifact_count: 0,
        unavailable_artifact_count: 0,
        artifacts: Seq::empty(),
        read_only_reason: None,
    }
}

/// What is said of the artifacts of a layer.
pub open spec fn artifacts_summary(artifacts: Seq<EffectiveIntentArtifactV1View>) -> IntentLayerSummaryV1View {
    IntentLayerSummaryV1View {
        application_state: Some(
            if layer_reason(artifacts) is Some {
                IntentApplicationState::ReadOnly
            } else {
                IntentApplicationState::Applied
            },
        ),
        exclusive_artifact_count: clamped(
            count_owned(artifacts, IntentArtifactOwnership::Exclusive),
        ),
        shared_artifact_count: clamped(count_owned(artifacts, IntentArtifactOwnership::Shared)),
        unowned_artifact_count: clamped(count_owned(artifacts, IntentArtifactOwnership::Unowned)),
        drifted_artifact_count: clamped(count_owned(artifacts, IntentArtifactOwnership::Drifted)),
        unavailable_artifact_count: clamped(count_unavailable(artifacts)),
        artifacts: Seq::new(artifacts.len(), |i: int| public_artifact(artifacts[i])),
        read_only_reason: layer_reason(artifacts),
    }
}

/// What is said of the layer of an intent: it is applied unless an artifact makes it read-only.
pub open spec fn layer_summary(
    p: IntentLayerProjectionV1View,
    intent_ref: IntentVersionRefView,
) -> IntentLayerSummaryV1View {
    match latest_layer(p, intent_ref) {
        None => no_layer_summary(),
        Some(l) => artifacts_summary(l.artifacts),
    }
}

// Stored artifacts.

/// The contents of an artifact, where it can be read.
pub open spec fn content_of(contents: Seq<ArtifactContentV1View>, id: Seq<char>) -> Option<Seq<u8>> {
    match find_key::<ArtifactContentV1>(contents, id) {
        Some(i) => Some(contents[i].content),
        None => None,
    }
}

/// Every artifact of a layer can be read.
pub open spec fn artifacts_readable(
    contents: Seq<ArtifactContentV1View>,
    artifacts: Seq<IntentArtifactBindingV1View>,
) -> bool {
    forall|k: int|
        0 <= k < artifacts.len() ==> content_of(
            contents,
            (#[trigger] artifacts[k]).artifact_id,
        ) is Some
}

/// A layer rests on artifacts that can be read: both patches, the manifest with exactly its canonical
/// text, and every artifact.
pub open spec fn layer_is_readable(
    contents: Seq<ArtifactContentV1View>,
    layer: IntentLayerStateV1View,
) -> bool {
    &&& content_of(contents, layer.layer_manifest.artifact_manifest_id) == Some(
        vstd::utf8::encode_utf8(IntentArtifactManifestV1::json(layer.artifact_manifest)),
    )
    &&& content_of(contents, layer.layer_manifest.core.forward_patch_artifact_id) is Some
    &&& content_of(contents, layer.layer_manifest.core.reverse_patch_artifact_id) is Some
    &&& artifacts_readable(contents, layer.artifact_manifest.artifacts)
}

/// An artifact of a layer that cannot be read.
pub open spec fn degraded_artifact(a: EffectiveIntentArtifactV1View) -> EffectiveIntentArtifactV1View {
    EffectiveIntentArtifactV1View {
        availability: if a.availability == IntentArtifactAvailability::Available {
            IntentArtifactAvailability::Corrupted
        } else {
            a.availability
        },
        ..a
    }
}

/// A layer after its artifacts have been looked for.
pub open spec fn refreshed_layer(
    contents: Seq<ArtifactContentV1View>,
    layer: IntentLayerStateV1View,
) -> IntentLayerStateV1View {
    if layer_is_readable(contents, layer) {
        layer
    } else {
        IntentLayerStateV1View {
            artifacts: Seq::new(
                layer.artifacts.len(),
                |k: int| degraded_artifact(layer.artifacts[k]),
            ),
            ..layer
        }
    }
}

/// All layers after their artifacts have been looked for.
pub open spec fn refreshed_layers(
    contents: Seq<ArtifactContentV1View>,
    layers: Seq<IntentLayerStateV1View>,
) -> Seq<IntentLayerStateV1View> {
    Seq::new(layers.len(), |i: int| refreshed_layer(contents, layers[i]))
}

fn told_of(records: &Vec<SessionStreamRecord>, id: &str, sequence: u64) -> (r: Option<
    IntentArtifactAvailability,
>)
    ensures
        r == told_after(records.deep_view(), id@, sequence),
{
    let ghost p = tells_of_artifact(id@);
    let found = find_last(
        records,
        |r: &SessionStreamRecord| -> (b: bool)
            ensures
                b == p(r.deep_view())
            {
                match &r.body {
                    RecordBody::ArtifactLifecycle(l) => same_text(l.artifact_id.as_str(), id),
                    _ => false,
                }
            },
        Ghost(p),
    );
    match found {
        Some(i) => {
            assert(records.deep_view()[i as int] == records@[i as int].deep_view());
            match &records[i].body {
                RecordBody::ArtifactLifecycle(l) => {
                    if records[i].stream_sequence > sequence {
                        Some(
                            match l.status {
                                MutationArtifactLifecycleStatus::Deleted => {
                                    IntentArtifactAvailability::Deleted
                                },
                                MutationArtifactLifecycleStatus::Expired => {
                                    IntentArtifactAvailability::Expired
                                },
                                MutationArtifactLifecycleStatus::Unavailable => {
                                    IntentArtifactAvailability::Corrupted
                                },
                            },
                        )
                    } else {
                        None
                    }
                },
                _ => None,
            }
        },
        None => None,
    }
}

fn told_of_layer(records: &Vec<SessionStreamRecord>, layer: &IntentLayerStateV1) -> (r: Option<
    IntentArtifactAvailability,
>)
    ensures
        r == layer_told(records.deep_view(), layer.deep_view()),
{
    let at = layer.layer_stream_sequence;
    match told_of(records, layer.layer_manifest.core.forward_patch_artifact_id.as_str(), at) {
        Some(a) => Some(a),
        None => match told_of(
            records,
            layer.layer_manifest.core.reverse_patch_artifact_id.as_str(),
            at,
        ) {
            Some(a) => Some(a),
            None => told_of(records, layer.layer_manifest.artifact_manifest_id.as_str(), at),
        },
    }
}

fn source_event(layers: &Vec<IntentLayerStateV1>, id: &String) -> (r: bool)
    ensures
        r == is_source_event(layers.deep_view(), id@),
{
    let ghost v = layers.deep_view();
    let mut i: usize = 0;
    while i < layers.len()
        invariant
            i <= layers.len(),
            v == layers.deep_view(),
            forall|j: int, k: int|
                0 <= j < i && 0 <= k < v[j].artifacts.len() ==> (
                #[trigger] v[j].artifacts[k]).binding.provenance.source_event_id != id@,
        decreases layers.len() - i,
    {
        assert(v[i as int] == layers@[i as int].deep_view());
        let artifacts = &layers[i].artifacts;
        let mut n: usize = 0;
        while n < artifacts.len()
            invariant
                i < layers.len(),
                n <= artifacts.len(),
                v == layers.deep_view(),
                v[i as int].artifacts == artifacts.deep_view(),
                forall|k: int|
                    0 <= k < n ==> (
                    #[trigger] v[i as int].artifacts[k]).binding.provenance.source_event_id != id@,
            decreases artifacts.len() - n,
        {
            assert(v[i as int].artifacts[n as int] == artifacts@[n as int].deep_view());
            if artifacts[n].binding.provenance.source_event_id == *id {
                return true;
            }
            n = n + 1;
        }
        i = i + 1;
    }
    false
}

fn has_drifted(
    records: &Vec<SessionStreamRecord>,
    layers: &Vec<IntentLayerStateV1>,
    sequence: u64,
    path: &String,
    after: &IntentContentDigest,
) -> (r: bool)
    ensures
        r == any_where(
            records.deep_view(),
            drifts(layers.deep_view(), sequence, path@, after.deep_view()),
        ),
{
    let ghost p = drifts(layers.deep_view(), sequence, path@, after.deep_view());
    has_any(
        records,
        |r: &SessionStreamRecord| -> (b: bool)
            ensures
                b == p(r.deep_view())
            {
                r.stream_sequence > sequence && match &r.body {
                    RecordBody::MutationCommitted(c) => !source_event(layers, &r.event_id)
                        && subject_is_plain_path(&c.committed_subject, path.as_str())
                        && !matches_digest(&c.observed_after_hash, after),
                    RecordBody::WorkspaceMutation(d) => d.unknown_dirty,
                    _ => false,
                }
            },
        Ghost(p),
    )
}

fn age_artifact(
    records: &Vec<SessionStreamRecord>,
    layers: &Vec<IntentLayerStateV1>,
    layer: &IntentLayerStateV1,
    told: Option<IntentArtifactAvailability>,
    a: &EffectiveIntentArtifactV1,
) -> (r: EffectiveIntentArtifactV1)
    requires
        told == layer_told(records.deep_view(), layer.deep_view()),
    ensures
        r.deep_view() == artifact_drifted(
            records.deep_view(),
            layers.deep_view(),
            layer.layer_stream_sequence,
            artifact_told(records.deep_view(), layer.deep_view(), a.deep_view()),
        ),
{
    let at = layer.layer_stream_sequence;
    let mut r = a.duplicate();
    match told_of(records, a.binding.artifact_id.as_str(), at) {
        Some(own) => {
            r.availability = own;
        },
        None => {
            if let Some(of_layer) = told {
                r.availability = of_layer;
            }
        },
    }
    let drifted = match &a.binding.subject {
        BoundedIntentArtifactSubjectV1::FileHunk {
            normalized_relative_path,
            after_file_digest,
            ..
        } => has_drifted(records, layers, at, normalized_relative_path, after_file_digest),
        _ => false,
    };
    if drifted {
        r.ownership = IntentArtifactOwnership::Drifted;
    }
    r
}

fn age_layer(
    records: &Vec<SessionStreamRecord>,
    layers: &Vec<IntentLayerStateV1>,
    layer: &IntentLayerStateV1,
) -> (r: IntentLayerStateV1)
    ensures
        r.deep_view() == aged_layer(records.deep_view(), layers.deep_view(), layer.deep_view()),
{
    let ghost expected = aged_layer(records.deep_view(), layers.deep_view(), layer.deep_view());
    let told = told_of_layer(records, layer);
    let mut artifacts: Vec<EffectiveIntentArtifactV1> = Vec::new();
    let mut k: usize = 0;
    while k < layer.artifacts.len()
        invariant
            k <= layer.artifacts.len(),
            told == layer_told(records.deep_view(), layer.deep_view()),
            expected == aged_layer(records.deep_view(), layers.deep_view(), layer.deep_view()),
            artifacts.deep_view() =~= expected.artifacts.take(k as int),
        decreases layer.artifacts.len() - k,
    {
        assert(layer.deep_view().artifacts[k as int] == layer.artifacts@[k as int].deep_view());
        let a = age_artifact(records, layers, layer, told, &layer.artifacts[k]);
        let ghost had = artifacts;
        artifacts.push(a);
        proof {
            lemma_push_view(had, a, artifacts);
        }
        k = k + 1;
    }
    assert(artifacts.deep_view() =~= expected.artifacts);
    let mut r = layer.duplicate();
    r.artifacts = artifacts;
    r
}

fn age_layers(records: &Vec<SessionStreamRecord>, layers: &Vec<IntentLayerStateV1>) -> (r: Vec<
    IntentLayerStateV1,
>)
    ensures
        r.deep_view() == aged_layers(records.deep_view(), layers.deep_view()),
{
    let ghost expected = aged_layers(records.deep_view(), layers.deep_view());
    let mut r: Vec<IntentLayerStateV1> = Vec::new();
    let mut i: usize = 0;
    while i < layers.len()
        invariant
            i <= layers.len(),
            expected == aged_layers(records.deep_view(), layers.deep_view()),
            r.deep_view() =~= expected.take(i as int),
        decreases layers.len() - i,
    {
        assert(layers.deep_view()[i as int] == layers@[i as int].deep_view());
        let l = age_layer(records, layers, &layers[i]);
        let ghost had = r;
        r.push(l);
        proof {
            lemma_push_view(had, l, r);
        }
        i = i + 1;
    }
    assert(r.deep_view() =~= expected);
    r
}

fn latest_layer_at(layers: &Vec<IntentLayerStateV1>, refs: &Vec<IntentVersionRef>, i: usize) -> (r: bool)
    requires
        i < layers.len(),
    ensures
        r == is_latest_layer(layers.deep_view(), refs.deep_view(), i as int),
{
    let ghost v = layers.deep_view();
    assert(v[i as int] == layers@[i as int].deep_view());
    if !holds(refs, &layers[i].layer_manifest.core.intent_ref) {
        return false;
    }
    let mut j: usize = i + 1;
    while j < layers.len()
        invariant
            i < j <= layers.len(),
            v == layers.deep_view(),
            forall|k: int|
                i < k < j ==> (#[trigger] v[k]).layer_manifest.core.intent_ref
                    != v[i as int].layer_manifest.core.intent_ref,
        decreases layers.len() - j,
    {
        assert(v[j as int] == layers@[j as int].deep_view());
        assert(v[i as int] == layers@[i as int].deep_view());
        if layers[j].layer_manifest.core.intent_ref.same(&layers[i].layer_manifest.core.intent_ref) {
            return false;
        }
        j = j + 1;
    }
    true
}

fn holds_path(artifacts: &Vec<EffectiveIntentArtifactV1>, path: &String) -> (r: bool)
    ensures
        r == any_where(artifacts.deep_view(), is_hunk_at(path@)),
{
    let ghost p = is_hunk_at(path@);
    has_any(
        artifacts,
        |a: &EffectiveIntentArtifactV1| -> (b: bool)
            ensures
                b == p(a.deep_view())
            {
                match &a.binding.subject {
                    BoundedIntentArtifactSubjectV1::FileHunk { normalized_relative_path, .. } => {
                        same_text(normalized_relative_path.as_str(), path.as_str())
                    },
                    _ => false,
                }
            },
        Ghost(p),
    )
}

fn other_claims(
    layers: &Vec<IntentLayerStateV1>,
    refs: &Vec<IntentVersionRef>,
    intent_ref: &IntentVersionRef,
    path: &String,
) -> (r: bool)
    ensures
        r == claimed_by_other(
            layers.deep_view(),
            refs.deep_view(),
            intent_ref.deep_view(),
            path@,
        ),
{
    let ghost v = layers.deep_view();
    let mut j: usize = 0;
    while j < layers.len()
        invariant
            j <= layers.len(),
            v == layers.deep_view(),
            forall|k: int|
                0 <= k < j ==> !((#[trigger] v[k]).layer_manifest.core.intent_ref
                    != intent_ref.deep_view() && is_latest_layer(v, refs.deep_view(), k)
                    && any_where(v[k].artifacts, is_hunk_at(path@))),
        decreases layers.len() - j,
    {
        assert(v[j as int] == layers@[j as int].deep_view());
        if !layers[j].layer_manifest.core.intent_ref.same(intent_ref) && latest_layer_at(
            layers,
            refs,
            j,
        ) && holds_path(&layers[j].artifacts, path) {
            return true;
        }
        j = j + 1;
    }
    false
}

fn share_artifact(
    layers: &Vec<IntentLayerStateV1>,
    refs: &Vec<IntentVersionRef>,
    intent_ref: &IntentVersionRef,
    a: &EffectiveIntentArtifactV1,
) -> (r: EffectiveIntentArtifactV1)
    ensures
        r.deep_view() == artifact_shared(
            layers.deep_view(),
            refs.deep_view(),
            intent_ref.deep_view(),
            a.deep_view(),
        ),
{
    let mut r = a.duplicate();
    let shared = match &a.binding.subject {
        BoundedIntentArtifactSubjectV1::FileHunk { normalized_relative_path, .. } => a.ownership
            != IntentArtifactOwnership::Drifted && other_claims(
            layers,
            refs,
            intent_ref,
            normalized_relative_path,
        ),
        _ => false,
    };
    if shared {
        r.ownership = IntentArtifactOwnership::Shared;
    }
    r
}

fn own_layer(layers: &Vec<IntentLayerStateV1>, refs: &Vec<IntentVersionRef>, i: usize) -> (r:
    IntentLayerStateV1)
    requires
        i < layers.len(),
    ensures
        r.deep_view() == owned_layer(layers.deep_view(), refs.deep_view(), i as int),
{
    let layer = &layers[i];
    assert(layers.deep_view()[i as int] == layer.deep_view());
    if !latest_layer_at(layers, refs, i) {
        return layer.duplicate();
    }
    let ghost expected = owned_layer(layers.deep_view(), refs.deep_view(), i as int);
    let mut artifacts: Vec<EffectiveIntentArtifactV1> = Vec::new();
    let mut k: usize = 0;
    while k < layer.artifacts.len()
        invariant
            i < layers.len(),
            layer.deep_view() == layers.deep_view()[i as int],
            k <= layer.artifacts.len(),
            is_latest_layer(layers.deep_view(), refs.deep_view(), i as int),
            expected == owned_layer(layers.deep_view(), refs.deep_view(), i as int),
            artifacts.deep_view() =~= expected.artifacts.take(k as int),
        decreases layer.artifacts.len() - k,
    {
        assert(layer.deep_view().artifacts[k as int] == layer.artifacts@[k as int].deep_view());
        let a = share_artifact(
            layers,
            refs,
            &layer.layer_manifest.core.intent_ref,
            &layer.artifacts[k],
        );
        let ghost had = artifacts;
        artifacts.push(a);
        proof {
            lemma_push_view(had, a, artifacts);
        }
        k = k + 1;
    }
    assert(artifacts.deep_view() =~= expected.artifacts);
    let mut r = layer.duplicate();
    r.artifacts = artifacts;
    r
}

fn own_layers(layers: Vec<IntentLayerStateV1>, accepted: Option<&AcceptedIntentPlanProjectionV1>) -> (r:
    Vec<IntentLayerStateV1>)
    ensures
        r.deep_view() == owned_layers(layers.deep_view(), accepted.deep_view()),
{
    let accepted = match accepted {
        None => {
            return layers;
        },
        Some(a) => a,
    };
    let refs = refs_of_plan(&accepted.plan);
    let ghost expected = owned_layers(layers.deep_view(), Some(accepted.deep_view()));
    let mut r: Vec<IntentLayerStateV1> = Vec::new();
    let mut i: usize = 0;
    while i < layers.len()
        invariant
            i <= layers.len(),
            refs.deep_view() == plan_refs(accepted.deep_view().plan),
            expected == owned_layers(layers.deep_view(), Some(accepted.deep_view())),
            r.deep_view() =~= expected.take(i as int),
        decreases layers.len() - i,
    {
        let l = own_layer(&layers, &refs, i);
        let ghost had = r;
        r.push(l);
        proof {
            lemma_push_view(had, l, r);
        }
        i = i + 1;
    }
    assert(r.deep_view() =~= expected);
    r
}

fn freshen(artifacts: &Vec<IntentArtifactBindingV1>) -> (r: Vec<EffectiveIntentArtifactV1>)
    ensures
        r.deep_view() == fresh_artifacts(artifacts.deep_view()),
{
    let ghost expected = fresh_artifacts(artifacts.deep_view());
    let mut r: Vec<EffectiveIntentArtifactV1> = Vec::new();
    let mut i: usize = 0;
    while i < artifacts.len()
        invariant
            i <= artifacts.len(),
            expected == fresh_artifacts(artifacts.deep_view()),
            r.deep_view() =~= expected.take(i as int),
        decreases artifacts.len() - i,
    {
        assert(artifacts.deep_view()[i as int] == artifacts@[i as int].deep_view());
        let a = EffectiveIntentArtifactV1 {
            binding: artifacts[i].duplicate(),
            ownership: artifacts[i].ownership,
            availability: artifacts[i].availability,
        };
        let ghost had = r;
        r.push(a);
        proof {
            lemma_push_view(had, a, r);
        }
        i = i + 1;
    }
    assert(r.deep_view() =~= expected);
    r
}

fn take_artifact_manifest(
    lineage: &IntentLineageProjectionV1,
    pending: &mut Vec<PendingArtifactManifestV1>,
    layers: &Vec<IntentLayerStateV1>,
    record: &SessionStreamRecord,
    manifest: &IntentArtifactManifestV1,
) -> (r: Result<(), KernelError>)
    ensures
        match after_artifact_manifest(
            lineage.deep_view(),
            LayerReplay { pending: old(pending).deep_view(), layers: layers.deep_view() },
            record.deep_view(),
            manifest.deep_view(),
        ) {
            Ok(s) => r is Ok && s.pending == final(pending).deep_view() && s.layers
                == layers.deep_view(),
            Err(m) => verdict(r) == Err::<(), Seq<char>>(m),
        },
{
    let x = match lineage.execution(&manifest.execution_id) {
        None => {
            return reject("Intent artifact manifest has no execution lineage");
        },
        Some(x) => x,
    };
    validate_artifact_manifest_lineage(manifest, x)?;
    if position_by_key(pending, manifest.execution_id.as_str()).is_some() {
        return reject("Intent execution repeats an artifact manifest");
    }
    let ghost had = *pending;
    let p = PendingArtifactManifestV1 {
        manifest: manifest.duplicate(),
        event_id: record.event_id.duplicate(),
        stream_sequence: record.stream_sequence,
    };
    pending.push(p);
    proof {
        lemma_push_view(had, p, *pending);
    }
    Ok(())
}

#[verifier::rlimit(40)]
fn take_layer_manifest(
    records: &Vec<SessionStreamRecord>,
    admission: &IntentStackProjectionV1,
    lineage: &IntentLineageProjectionV1,
    pending: &mut Vec<PendingArtifactManifestV1>,
    layers: &mut Vec<IntentLayerStateV1>,
    record: &SessionStreamRecord,
    manifest: &IntentLayerManifestV1,
) -> (r: Result<(), KernelError>)
    ensures
        match after_layer_manifest(
            records.deep_view(),
            admission.deep_view(),
            lineage.deep_view(),
            LayerReplay { pending: old(pending).deep_view(), layers: old(layers).deep_view() },
            record.deep_view(),
            manifest.deep_view(),
        ) {
            Ok(s) => r is Ok && s.pending == final(pending).deep_view() && s.layers
                == final(layers).deep_view(),
            Err(m) => verdict(r) == Err::<(), Seq<char>>(m),
        },
{
    let x = match lineage.execution(&manifest.core.execution_id) {
        None => {
            return reject("Intent layer manifest has no execution lineage");
        },
        Some(x) => x,
    };
    let i = match position_by_key(pending, manifest.core.execution_id.as_str()) {
        None => {
            return reject("Intent layer manifest precedes its artifact manifest");
        },
        Some(i) => i,
    };
    assert(pending.deep_view()[i as int] == pending@[i as int].deep_view());
    if following(pending[i].stream_sequence) != record.stream_sequence {
        return reject("Intent layer manifest is not adjacent to its artifact manifest");
    }
    let accepted = match admission.accepted_plan(x.stack_version) {
        None => {
            return reject("Intent layer requires its accepted IntentPlan version");
        },
        Some(accepted) => accepted,
    };
    validate_complete_layer(
        records,
        manifest,
        &pending[i].manifest,
        x,
        accepted,
        pending[i].stream_sequence,
        record.stream_sequence,
    )?;
    if position_by_key(layers, manifest.core.execution_id.as_str()).is_some() {
        return reject("Intent execution repeats a final layer manifest");
    }
    let ghost waiting = pending.deep_view();
    let ghost had = *layers;
    let p = pending.remove(i);
    assert(p.deep_view() == waiting[i as int]);
    assert(pending.deep_view() =~= waiting.remove(i as int));
    let layer = IntentLayerStateV1 {
        artifacts: freshen(&p.manifest.artifacts),
        artifact_manifest: p.manifest,
        layer_manifest: manifest.duplicate(),
        artifact_event_id: p.event_id,
        layer_event_id: record.event_id.duplicate(),
        layer_stream_sequence: record.stream_sequence,
    };
    layers.push(layer);
    proof {
        lemma_push_view(had, layer, *layers);
    }
    Ok(())
}

/// The contents of a stored artifact.
pub(crate) fn readable<'a>(contents: &'a Vec<ArtifactContentV1>, id: &str) -> (r: Option<&'a Vec<u8>>)
    ensures
        match content_of(contents.deep_view(), id@) {
            Some(bytes) => r matches Some(v) && v@ == bytes,
            None => r is None,
        },
{
    match position_by_key(contents, id) {
        Some(i) => {
            assert(contents.deep_view()[i as int] == contents@[i as int].deep_view());
            assert(contents[i as int].content.deep_view() =~= contents[i as int].content@);
            Some(&contents[i].content)
        },
        None => None,
    }
}

fn same_bytes(a: &Vec<u8>, b: &[u8]) -> (r: bool)
    ensures
        r == (a@ == b@),
{
    if a.len() != b.len() {
        return false;
    }
    let mut i: usize = 0;
    while i < b.len()
        invariant
            i <= b.len(),
            a.len() == b.len(),
            forall|j: int| 0 <= j < i ==> a@[j] == b@[j],
        decreases b.len() - i,
    {
        if a[i] != b[i] {
            assert(a@[i as int] != b@[i as int]);
            return false;
        }
        i = i + 1;
    }
    assert(a@ =~= b@);
    true
}

fn all_readable(contents: &Vec<ArtifactContentV1>, artifacts: &Vec<IntentArtifactBindingV1>) -> (r: bool)
    ensures
        r == artifacts_readable(contents.deep_view(), artifacts.deep_view()),
{
    let ghost v = artifacts.deep_view();
    let mut k: usize = 0;
    while k < artifacts.len()
        invariant
            k <= artifacts.len(),
            v == artifacts.deep_view(),
            forall|j: int|
                0 <= j < k ==> content_of(
                    contents.deep_view(),
                    (#[trigger] v[j]).artifact_id,
                ) is Some,
        decreases artifacts.len() - k,
    {
        assert(v[k as int] == artifacts@[k as int].deep_view());
        if readable(contents, artifacts[k].artifact_id.as_str()).is_none() {
            return false;
        }
        k = k + 1;
    }
    true
}

fn readable_layer(contents: &Vec<ArtifactContentV1>, layer: &IntentLayerStateV1) -> (r: bool)
    ensures
        r == layer_is_readable(contents.deep_view(), layer.deep_view()),
{
    let expected = layer.artifact_manifest.to_json();
    let manifest_matches = match readable(
        contents,
        layer.layer_manifest.artifact_manifest_id.as_str(),
    ) {
        Some(bytes) => same_bytes(bytes, expected.as_str().as_bytes()),
        None => false,
    };
    manifest_matches && readable(
        contents,
        layer.layer_manifest.core.forward_patch_artifact_id.as_str(),
    ).is_some() && readable(
        contents,
        layer.layer_manifest.core.reverse_patch_artifact_id.as_str(),
    ).is_some() && all_readable(contents, &layer.artifact_manifest.artifacts)
}

#[verifier::rlimit(60)]
#[verifier::spinoff_prover]
fn refresh_layer(contents: &Vec<ArtifactContentV1>, layer: &IntentLayerStateV1) -> (r:
    IntentLayerStateV1)
    ensures
        r.deep_view() == refreshed_layer(contents.deep_view(), layer.deep_view()),
{
    if readable_layer(contents, layer) {
        return layer.duplicate();
    }
    let ghost expected = refreshed_layer(contents.deep_view(), layer.deep_view());
    let mut artifacts: Vec<EffectiveIntentArtifactV1> = Vec::new();
    let mut k: usize = 0;
    while k < layer.artifacts.len()
        invariant
            k <= layer.artifacts.len(),
            !layer_is_readable(contents.deep_view(), layer.deep_view()),
            expected == refreshed_layer(contents.deep_view(), layer.deep_view()),
            artifacts.deep_view() =~= expected.artifacts.take(k as int),
        decreases layer.artifacts.len() - k,
    {
        assert(layer.deep_view().artifacts[k as int] == layer.artifacts@[k as int].deep_view());
        let mut a = layer.artifacts[k].duplicate();
        if a.availability == IntentArtifactAvailability::Available {
            a.availability = IntentArtifactAvailability::Corrupted;
        }
        assert(expected.artifacts[k as int] == a.deep_view());
        let ghost had = artifacts;
        artifacts.push(a);
        proof {
            lemma_push_view(had, a, artifacts);
        }
        k = k + 1;
    }
    assert(artifacts.deep_view() =~= expected.artifacts);
    let mut r = layer.duplicate();
    r.artifacts = artifacts;
    r
}

fn count_up(n: u32, yes: bool, Ghost(total): Ghost<nat>) -> (r: u32)
    requires
        n == clamped(total),
    ensures
        r == clamped(
            total + if yes {
                1nat
            } else {
                0nat
            },
        ),
{
    if yes && n < u32::MAX {
        n + 1
    } else {
        n
    }
}

fn reason_of(a: &EffectiveIntentArtifactV1) -> (r: Option<IntentLayerReadOnlyReasonV1>)
    ensures
        r.deep_view() == artifact_reason(a.deep_view()),
{
    if a.availability != IntentArtifactAvailability::Available {
        return Some(IntentLayerReadOnlyReasonV1::ArtifactUnavailable);
    }
    match a.ownership {
        IntentArtifactOwnership::Exclusive => None,
        IntentArtifactOwnership::Shared => Some(IntentLayerReadOnlyReasonV1::SharedOwnership),
        IntentArtifactOwnership::Unowned => Some(IntentLayerReadOnlyReasonV1::UnownedArtifact),
        IntentArtifactOwnership::Drifted => Some(IntentLayerReadOnlyReasonV1::DriftedArtifact),
    }
}

fn show_artifact(a: &EffectiveIntentArtifactV1) -> (r: PublicIntentArtifactSummaryV1)
    ensures
        r.deep_view() == public_artifact(a.deep_view()),
{
    PublicIntentArtifactSummaryV1 {
        artifact_id: a.binding.artifact_id.duplicate(),
        artifact_kind: a.binding.artifact_kind,
        ownership: a.ownership,
        availability: a.availability,
        normalized_relative_path: match &a.binding.subject {
            BoundedIntentArtifactSubjectV1::FileHunk { normalized_relative_path, .. } => Some(
                normalized_relative_path.duplicate(),
            ),
            _ => None,
        },
    }
}

fn summarize(artifacts: &Vec<EffectiveIntentArtifactV1>) -> (r: IntentLayerSummaryV1)
    ensures
        r.deep_view() == artifacts_summary(artifacts.deep_view()),
{
    let ghost v = artifacts.deep_view();
    let ghost expected = artifacts_summary(v);
    let mut exclusive: u32 = 0;
    let mut shared: u32 = 0;
    let mut unowned: u32 = 0;
    let mut drifted: u32 = 0;
    let mut unavailable: u32 = 0;
    let mut reason: Option<IntentLayerReadOnlyReasonV1> = None;
    let mut shown: Vec<PublicIntentArtifactSummaryV1> = Vec::new();
    let mut i: usize = 0;
    assert(v.take(0) =~= Seq::empty());
    while i < artifacts.len()
        invariant
            i <= artifacts.len(),
            v == artifacts.deep_view(),
            expected == artifacts_summary(v),
            exclusive == clamped(
                count_owned(v.take(i as int), IntentArtifactOwnership::Exclusive),
            ),
            shared == clamped(count_owned(v.take(i as int), IntentArtifactOwnership::Shared)),
            unowned == clamped(count_owned(v.take(i as int), IntentArtifactOwnership::Unowned)),
            drifted == clamped(count_owned(v.take(i as int), IntentArtifactOwnership::Drifted)),
            unavailable == clamped(count_unavailable(v.take(i as int))),
            reason.deep_view() == layer_reason(v.take(i as int)),
            shown.deep_view() =~= expected.artifacts.take(i as int),
        decreases artifacts.len() - i,
    {
        let a = &artifacts[i];
        let ghost before = v.take(i as int);
        assert(v[i as int] == a.deep_view());
        assert(v.take(i + 1).drop_last() =~= before);
        assert(v.take(i + 1).last() == a.deep_view());
        exclusive = count_up(
            exclusive,
            a.ownership == IntentArtifactOwnership::Exclusive,
            Ghost(count_owned(before, IntentArtifactOwnership::Exclusive)),
        );
        shared = count_up(
            shared,
            a.ownership == IntentArtifactOwnership::Shared,
            Ghost(count_owned(before, IntentArtifactOwnership::Shared)),
        );
        unowned = count_up(
            unowned,
            a.ownership == IntentArtifactOwnership::Unowned,
            Ghost(count_owned(before, IntentArtifactOwnership::Unowned)),
        );
        drifted = count_up(
            drifted,
            a.ownership == IntentArtifactOwnership::Drifted,
            Ghost(count_owned(before, IntentArtifactOwnership::Drifted)),
        );
        unavailable = count_up(
            unavailable,
            a.availability != IntentArtifactAvailability::Available,
            Ghost(count_unavailable(before)),
        );
        let own = reason_of(a);
        if own.is_some() {
            reason = own;
        }
        let item = show_artifact(a);
        let ghost had = shown;
        shown.push(item);
        proof {
            lemma_push_view(had, item, shown);
        }
        i = i + 1;
    }
    assert(v.take(i as int) =~= v);
    assert(shown.deep_view() =~= expected.artifacts);
    IntentLayerSummaryV1 {
        application_state: Some(
            if reason.is_some() {
                IntentApplicationState::ReadOnly
            } else {
                IntentApplicationState::Applied
            },
        ),
        exclusive_artifact_count: exclusive,
        shared_artifact_count: shared,
        unowned_artifact_count: unowned,
        drifted_artifact_count: drifted,
        unavailable_artifact_count: unavailable,
        artifacts: shown,
        read_only_reason: reason,
    }
}

impl IntentLayerProjectionV1 {
    /// Replays complete pairs of artifact manifest and layer manifest, and tells carefully who owns
    /// what: an artifact whose file changed since has drifted, and a file of two intents is shared.
    pub fn from_records(
        records: &Vec<SessionStreamRecord>,
        admission: &IntentStackProjectionV1,
        lineage: &IntentLineageProjectionV1,
    ) -> (r: Result<Self, KernelError>)
        ensures
            outcome(r) == layers_of(
                records.deep_view(),
                admission.deep_view(),
                lineage.deep_view(),
            ),
    {
        validate_layer_facts(records)?;
        let ghost rv = records.deep_view();
        let ghost av = admission.deep_view();
        let ghost lv = lineage.deep_view();
        let mut pending: Vec<PendingArtifactManifestV1> = Vec::new();
        let mut layers: Vec<IntentLayerStateV1> = Vec::new();
        assert(pending.deep_view() =~= Seq::empty());
        assert(layers.deep_view() =~= Seq::empty());
        let mut i: usize = 0;
        while i < records.len()
            invariant
                i <= records.len(),
                rv == records.deep_view(),
                av == admission.deep_view(),
                lv == lineage.deep_view(),
                layer_facts_verdict(rv) is Ok,
                layers_after(rv, av, lv, i as int) == Ok::<LayerReplay, Seq<char>>(
                    LayerReplay { pending: pending.deep_view(), layers: layers.deep_view() },
                ),
            decreases records.len() - i,
        {
            assert(rv[i as int] == records@[i as int].deep_view());
            let step = match intent_event_of(&records[i]) {
                Some(IntentEventV1::ArtifactBindingsRecorded { manifest, .. }) => {
                    take_artifact_manifest(lineage, &mut pending, &layers, &records[i], manifest)
                },
                Some(IntentEventV1::LayerManifestRecorded { manifest, .. }) => take_layer_manifest(
                    records,
                    admission,
                    lineage,
                    &mut pending,
                    &mut layers,
                    &records[i],
                    manifest,
                ),
                _ => Ok(()),
            };
            match step {
                Ok(_) => {},
                Err(e) => {
                    proof {
                        lemma_layers_fail(rv, av, lv, i + 1, rv.len() as int);
                    }
                    return Err(e);
                },
            }
            i = i + 1;
        }
        if pending.len() > 0 {
            return Err(
                KernelError::new(
                    "Intent artifact manifest is missing its adjacent final layer manifest",
                ),
            );
        }
        let aged = age_layers(records, &layers);
        Ok(
            IntentLayerProjectionV1 {
                layers: own_layers(aged, admission.latest_accepted_plan()),
            },
        )
    }

    /// The layer of an execution.
    pub fn layer(&self, execution_id: &IntentExecutionId) -> (r: Option<&IntentLayerStateV1>)
        ensures
            r.deep_view() == layer_with(self.deep_view(), execution_id.deep_view()),
    {
        match position_by_key(&self.layers, execution_id.as_str()) {
            Some(i) => {
                assert(self.layers.deep_view()[i as int] == self.layers@[i as int].deep_view());
                Some(&self.layers[i])
            },
            None => None,
        }
    }

    /// The layer of an intent that was completed last.
    pub fn latest_layer_for(&self, intent_ref: &IntentVersionRef) -> (r: Option<&IntentLayerStateV1>)
        ensures
            r.deep_view() == latest_layer(self.deep_view(), intent_ref.deep_view()),
    {
        let ghost p = is_layer_of(intent_ref.deep_view());
        let found = find_last(
            &self.layers,
            |l: &IntentLayerStateV1| -> (b: bool)
                ensures
                    b == p(l.deep_view())
                { l.layer_manifest.core.intent_ref.same(intent_ref) },
            Ghost(p),
        );
        match found {
            Some(i) => {
                assert(self.layers.deep_view()[i as int] == self.layers@[i as int].deep_view());
                Some(&self.layers[i])
            },
            None => None,
        }
    }

    /// Takes in which stored artifacts can be read. A layer that rests on one that cannot, or on a
    /// manifest with other contents, loses its artifacts; nothing gives them back from elsewhere.
    pub fn refresh_artifact_availability(&mut self, contents: &Vec<ArtifactContentV1>)
        ensures
            final(self).deep_view().layers == refreshed_layers(
                contents.deep_view(),
                old(self).deep_view().layers,
            ),
    {
        let ghost expected = refreshed_layers(contents.deep_view(), self.layers.deep_view());
        let mut r: Vec<IntentLayerStateV1> = Vec::new();
        let mut i: usize = 0;
        while i < self.layers.len()
            invariant
                i <= self.layers.len(),
                expected == refreshed_layers(contents.deep_view(), self.layers.deep_view()),
                r.deep_view() =~= expected.take(i as int),
            decreases self.layers.len() - i,
        {
            assert(self.layers.deep_view()[i as int] == self.layers@[i as int].deep_view());
            let l = refresh_layer(contents, &self.layers[i]);
            let ghost had = r;
            r.push(l);
            proof {
                lemma_push_view(had, l, r);
            }
            i = i + 1;
        }
        assert(r.deep_view() =~= expected);
        self.layers = r;
    }

    /// What is said of the layer of an intent.
    pub fn summary_for(&self, intent_ref: &IntentVersionRef) -> (r: IntentLayerSummaryV1)
        ensures
            r.deep_view() == layer_summary(self.deep_view(), intent_ref.deep_view()),
    {
        match self.latest_layer_for(intent_ref) {
            None => IntentLayerSummaryV1::default(),
            Some(l) => summarize(&l.artifacts),
        }
    }
}

/// The layers of a session, with what can be read of their artifacts where that is known.
pub open spec fn session_layers(
    session: SessionView,
    contents: Option<Seq<ArtifactContentV1View>>,
) -> Result<IntentLayerProjectionV1View, Seq<char>> {
    match session.durable_records {
        None => Err("Intent layer projection requires a durable session"@),
        Some(records) => match stack_of(records) {
            Err(m) => Err(m),
            Ok(admission) => match lineage_of(records, admission, session.tasks) {
                Err(m) => Err(m),
                Ok(lineage) => match layers_of(records, admission, lineage) {
                    Err(m) => Err(m),
                    Ok(p) => match contents {
                        None => Ok(p),
                        Some(c) => Ok(
                            IntentLayerProjectionV1View { layers: refreshed_layers(c, p.layers) },
                        ),
                    },
                },
            },
        },
    }
}

impl Session {
    /// Replays the layers of the session and takes in which stored artifacts can be read.
    pub fn intent_layer_projection(&self, contents: Option<&Vec<ArtifactContentV1>>) -> (r: Result<
        IntentLayerProjectionV1,
        KernelError,
    >)
        ensures
            outcome(r) == session_layers(self.deep_view(), contents.deep_view()),
    {
        let records = match &self.durable_records {
            None => {
                return Err(KernelError::new("Intent layer projection requires a durable session"));
            },
            Some(records) => records,
        };
        let admission = IntentStackProjectionV1::from_records(records)?;
        let lineage = IntentLineageProjectionV1::from_records(records, &admission, &self.tasks)?;
        let mut layers = IntentLayerProjectionV1::from_records(records, &admission, &lineage)?;
        if let Some(contents) = contents {
            layers.refresh_artifact_availability(contents);
        }
        Ok(layers)
    }
}

// Laws.

/// An intent is applied only where every artifact of its latest layer is exclusive and available.
pub proof fn law_applied_layers_are_exclusive(
    p: IntentLayerProjectionV1View,
    intent_ref: IntentVersionRefView,
    l: IntentLayerStateV1View,
    k: int,
)
    requires
        latest_layer(p, intent_ref) == Some(l),
        layer_summary(p, intent_ref).application_state == Some(IntentApplicationState::Applied),
        0 <= k < l.artifacts.len(),
    ensures
        l.artifacts[k].ownership == IntentArtifactOwnership::Exclusive,
        l.artifacts[k].availability == IntentArtifactAvailability::Available,
{
    lemma_no_reason(l.artifacts, k);
}

proof fn lemma_no_reason(artifacts: Seq<EffectiveIntentArtifactV1View>, k: int)
    requires
        layer_reason(artifacts) is None,
        0 <= k < artifacts.len(),
    ensures
        artifact_reason(artifacts[k]) is None,
    decreases artifacts.len(),
{
    if k < artifacts.len() - 1 {
        lemma_no_reason(artifacts.drop_last(), k);
        assert(artifacts.drop_last()[k] == artifacts[k]);
    }
}

/// Looking for artifacts never gives authority back: what could not be had before cannot be had after,
/// and ownership stays as it is.
pub proof fn law_refreshing_never_restores(
    contents: Seq<ArtifactContentV1View>,
    layer: IntentLayerStateV1View,
    k: int,
)
    requires
        0 <= k < layer.artifacts.len(),
    ensures
        ({
            let after = refreshed_layer(contents, layer).artifacts[k];
            &&& after.ownership == layer.artifacts[k].ownership
            &&& layer.artifacts[k].availability != IntentArtifactAvailability::Available
                ==> after.availability == layer.artifacts[k].availability
            &&& after.availability == IntentArtifactAvailability::Available ==> layer_is_readable(
                contents,
                layer,
            )
        }),
{
}

/// Two accepted intents never own one file exclusively: in their latest layers, an artifact of a file
/// that both hold is shared or has drifted.
pub proof fn law_no_file_has_two_owners(
    layers: Seq<IntentLayerStateV1View>,
    refs: Seq<IntentVersionRefView>,
    i: int,
    j: int,
    k: int,
    n: int,
    path: Seq<char>,
)
    requires
        0 <= i < layers.len(),
        0 <= j < layers.len(),
        is_latest_layer(layers, refs, i),
        is_latest_layer(layers, refs, j),
        layers[i].layer_manifest.core.intent_ref != layers[j].layer_manifest.core.intent_ref,
        0 <= k < layers[i].artifacts.len(),
        0 <= n < layers[j].artifacts.len(),
        is_hunk_at(path)(layers[i].artifacts[k]),
        is_hunk_at(path)(layers[j].artifacts[n]),
    ensures
        owned_layer(layers, refs, i).artifacts[k].ownership == IntentArtifactOwnership::Shared
            || owned_layer(layers, refs, i).artifacts[k].ownership
            == IntentArtifactOwnership::Drifted,
{
    assert(any_where(layers[j].artifacts, is_hunk_at(path)));
    assert(claimed_by_other(layers, refs, layers[i].layer_manifest.core.intent_ref, path));
}

/// A file that unknown hands may have changed after a layer was completed is no longer owned by it.
pub proof fn law_unknown_changes_are_drift(
    records: Seq<SessionStreamRecordView>,
    layers: Seq<IntentLayerStateV1View>,
    layer: IntentLayerStateV1View,
    k: int,
    i: int,
)
    requires
        0 <= k < layer.artifacts.len(),
        layer.artifacts[k].binding.subject is FileHunk,
        0 <= i < records.len(),
        records[i].stream_sequence > layer.layer_stream_sequence,
        detected_in(records[i]) matches Some(d) && d.unknown_dirty,
    ensures
        aged_layer(records, layers, layer).artifacts[k].ownership
            == IntentArtifactOwnership::Drifted,
{
    let a = artifact_told(records, layer, layer.artifacts[k]);
    match a.binding.subject {
        BoundedIntentArtifactSubjectV1View::FileHunk {
            normalized_relative_path,
            after_file_digest,
            ..
        } => {
            let p = drifts(
                layers,
                layer.layer_stream_sequence,
                normalized_relative_path,
                after_file_digest,
            );
            assert(p(records[i]));
            assert(any_where(records, p));
        },
        _ => {},
    }
}

/// The layer is the one of an artifact manifest and its event.
pub open spec fn has_artifacts_of(
    manifest: IntentArtifactManifestV1View,
    record: SessionStreamRecordView,
) -> spec_fn(IntentLayerStateV1View) -> bool {
    |l: IntentLayerStateV1View|
        l.artifact_manifest == manifest && l.artifact_event_id == record.event_id
}

/// The layer is the one that a layer manifest and its event completed.
pub open spec fn was_completed_by(
    manifest: IntentLayerManifestV1View,
    record: SessionStreamRecordView,
) -> spec_fn(IntentLayerStateV1View) -> bool {
    |l: IntentLayerStateV1View|
        l.layer_manifest == manifest && l.layer_event_id == record.event_id
            && l.layer_stream_sequence == record.stream_sequence
}

/// The layers hold what a manifest in the stream tells.
pub open spec fn tells_layer(
    layers: Seq<IntentLayerStateV1View>,
    record: SessionStreamRecordView,
) -> bool {
    match intent_event_in(record) {
        Some(IntentEventV1View::ArtifactBindingsRecorded { manifest, .. }) => any_where(
            layers,
            has_artifacts_of(manifest, record),
        ),
        Some(IntentEventV1View::LayerManifestRecorded { manifest, .. }) => any_where(
            layers,
            was_completed_by(manifest, record),
        ),
        _ => true,
    }
}

/// The artifact manifest of a record waits for its layer manifest.
spec fn waits(s: LayerReplay, record: SessionStreamRecordView) -> bool {
    intent_event_in(record) matches Some(
        IntentEventV1View::ArtifactBindingsRecorded { manifest, .. },
    ) && exists|k: int|
        0 <= k < s.pending.len() && (#[trigger] s.pending[k]).manifest == manifest
            && s.pending[k].event_id == record.event_id
}

proof fn lemma_same_layers_tell(
    before: Seq<IntentLayerStateV1View>,
    after: Seq<IntentLayerStateV1View>,
    record: SessionStreamRecordView,
)
    requires
        tells_layer(before, record),
        before.len() <= after.len(),
        forall|i: int|
            0 <= i < before.len() ==> {
                &&& (#[trigger] after[i]).artifact_manifest == before[i].artifact_manifest
                &&& after[i].layer_manifest == before[i].layer_manifest
                &&& after[i].artifact_event_id == before[i].artifact_event_id
                &&& after[i].layer_event_id == before[i].layer_event_id
                &&& after[i].layer_stream_sequence == before[i].layer_stream_sequence
            },
    ensures
        tells_layer(after, record),
{
    match intent_event_in(record) {
        Some(IntentEventV1View::ArtifactBindingsRecorded { manifest, .. }) => {
            let p = has_artifacts_of(manifest, record);
            let i = choose|i: int| 0 <= i < before.len() && p(#[trigger] before[i]);
            assert(p(after[i]));
        },
        Some(IntentEventV1View::LayerManifestRecorded { manifest, .. }) => {
            let p = was_completed_by(manifest, record);
            let i = choose|i: int| 0 <= i < before.len() && p(#[trigger] before[i]);
            assert(p(after[i]));
        },
        _ => {},
    }
}

proof fn lemma_manifests_are_told(
    records: Seq<SessionStreamRecordView>,
    admission: IntentStackProjectionV1View,
    lineage: IntentLineageProjectionV1View,
    n: int,
    i: int,
)
    requires
        0 <= i < n <= records.len(),
    ensures
        layers_after(records, admission, lineage, n) matches Ok(s) ==> tells_layer(
            s.layers,
            records[i],
        ) || waits(s, records[i]),
    decreases n,
{
    if let Ok(s) = layers_after(records, admission, lineage, n - 1) {
        if let Ok(t) = layers_after(records, admission, lineage, n) {
            let record = records[n - 1];
            if i < n - 1 {
                lemma_manifests_are_told(records, admission, lineage, n - 1, i);
            }
            match intent_event_in(record) {
                Some(IntentEventV1View::ArtifactBindingsRecorded { manifest, .. }) => {
                    let m = s.pending.len() as int;
                    assert(t.pending[m].manifest == manifest);
                    if i < n - 1 {
                        if tells_layer(s.layers, records[i]) {
                            lemma_same_layers_tell(s.layers, t.layers, records[i]);
                        } else {
                            let wanted = intent_event_in(
                                records[i],
                            )->Some_0->ArtifactBindingsRecorded_manifest;
                            let k = choose|k: int|
                                0 <= k < s.pending.len() && (#[trigger] s.pending[k]).manifest
                                    == wanted && s.pending[k].event_id == records[i].event_id;
                            assert(t.pending[k] == s.pending[k]);
                        }
                    }
                },
                Some(IntentEventV1View::LayerManifestRecorded { manifest, .. }) => {
                    let id = manifest.core.execution_id;
                    lemma_find_key::<PendingArtifactManifestV1>(s.pending, id);
                    let at = find_key::<PendingArtifactManifestV1>(s.pending, id)->0;
                    let new = completed_layer(s.pending[at], record, manifest);
                    let m = s.layers.len() as int;
                    assert(t.layers[m] == new);
                    if i == n - 1 {
                        assert(was_completed_by(manifest, record)(t.layers[m]));
                    } else if tells_layer(s.layers, records[i]) {
                        lemma_same_layers_tell(s.layers, t.layers, records[i]);
                    } else {
                        let wanted = intent_event_in(
                            records[i],
                        )->Some_0->ArtifactBindingsRecorded_manifest;
                        let k = choose|k: int|
                            0 <= k < s.pending.len() && (#[trigger] s.pending[k]).manifest == wanted
                                && s.pending[k].event_id == records[i].event_id;
                        if k == at {
                            assert(has_artifacts_of(wanted, records[i])(t.layers[m]));
                        } else if k < at {
                            assert(t.pending[k] == s.pending[k]);
                        } else {
                            assert(t.pending[k - 1] == s.pending[k]);
                        }
                    }
                },
                _ => {},
            }
        }
    }
}

/// No layer is lost: what the manifests in a stream tell is what a replay of the stream shows, each
/// artifact manifest and each layer manifest with its event.
pub proof fn law_no_layer_is_lost(
    records: Seq<SessionStreamRecordView>,
    admission: IntentStackProjectionV1View,
    lineage: IntentLineageProjectionV1View,
    p: IntentLayerProjectionV1View,
    i: int,
)
    requires
        layers_of(records, admission, lineage) == Ok::<_, Seq<char>>(p),
        0 <= i < records.len(),
    ensures
        tells_layer(p.layers, records[i]),
{
    let n = records.len() as int;
    lemma_manifests_are_told(records, admission, lineage, n, i);
    let s = layers_after(records, admission, lineage, n)->Ok_0;
    lemma_same_layers_tell(s.layers, p.layers, records[i]);
}

} // verus!
