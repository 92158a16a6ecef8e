//! The materialization of layers: from the proven changes of an execution to exact patches, hunks and
//! manifests, and to the pair of events that completes a layer.

use vstd::prelude::*;

use crate::intent::{
    content_digest_of, stable_identity_verdict, zero_digest_text, BoundedIntentArtifactSubjectV1,
    BoundedIntentArtifactSubjectV1View, IntentArtifactAvailability, IntentArtifactBindingV1,
    IntentArtifactBindingV1View, IntentArtifactId, IntentArtifactKind, IntentArtifactManifestV1,
    IntentArtifactManifestV1View, IntentArtifactOwnership, IntentArtifactProvenanceV1,
    IntentArtifactProvenanceV1View, IntentByteRangeV1View, IntentContentDigest, IntentDigest,
    IntentEventV1, IntentEventV1View, IntentExecutionId, IntentExecutionOriginV1,
    IntentExecutionOriginV1View, IntentLayerCoreV1, IntentLayerCoreV1View, IntentLayerManifestV1,
    IntentLayerManifestV1View, IntentVersionRef, IntentVersionRefView,
    INTENT_CONTRACT_SCHEMA_VERSION,
};
use crate::intent_admission::plan_refs;
use crate::intent_event_contract::event_verdict;
use crate::intent_layer::{
    artifact_path, artifact_path_of, artifact_paths, change_set_file_is_applied,
    complete_layer_verdict, execution_paths, file_is_applied, hashes_match, hunk_verdict,
    layer_artifact_verdicts, layer_evidence_verdict, layer_with, layers_of,
    manifest_lineage_verdict, mutation_identity, session_layers, set_paths,
    validate_artifact_manifest_lineage,
};
use crate::intent_layer_contract::{
    artifact_manifest_digest_of, artifact_manifest_verdict, core_digest_of,
    layer_manifest_digest_of, layer_manifest_verdict,
};
use crate::intent_lineage::{execution_with, lineage_of, IntentLineageProjectionV1};
use crate::intent_patch::{
    canonical_changed_ranges, changed_ranges, encode_hunk, encode_patch, encoded_patch, hunk_bytes,
    lemma_ranges_fit, utf8_text, MaterializedIntentFile, MaterializedIntentFileView, PatchDirection,
    MAX_WORKSPACE_SNAPSHOT_FILE_BYTES,
};
use crate::intent_stack::{latest_accepted, plan_holds, stack_of, IntentStackProjectionV1};
use crate::intent_state::{
    AcceptedIntentPlanProjectionV1View, IntentExecutionLineageV1, IntentExecutionLineageV1View,
    IntentLayerMaterializationOutcomeV1, IntentLayerMaterializationOutcomeV1View,
    IntentLayerProjectionV1, IntentLayerProjectionV1View, IntentLayerReadOnlyReasonV1,
    IntentLayerStateV1View,
};
use crate::layer_facts::{
    base_snapshot, base_snapshot_id, completes_attempt, completes_run, is_applied_batch,
    layer_facts_verdict, lemma_mutation_pair, mutation_pair, mutation_pair_for_file, promotes_into,
    terminal_attempt_sequence, terminal_sequence, touched_files, touched_sets, validate_layer_facts,
    TouchedFileBaseV1View,
};
use crate::lineage_facts::{
    change_result, find_change_result, find_proposal, proposal, proposes, settles,
};
use crate::order::{items_in_order, lemma_ordered_items, sort_items};
use crate::records::{
    ChangeSetFile, ChangeSetFileAction, ChangeSetFileView, ChangeSetResult, ChangeSetResultStatus,
    ChangeSetResultView, Session, SessionStreamRecord, SessionStreamRecordView, SessionView,
    SnapshotCoverage, SnapshotCoverageView,
};
use crate::search::{all_where, first_where, lemma_first_where};
use crate::stream::{committed_in, committed_of, prepared_in, prepared_of};
use crate::text::{
    characters, is_plain_relative_path, joined, plain_relative_path, precedes, same_text,
    text_precedes,
};
use crate::value::{
    chain, distinct, find_key, first_failure, lemma_all_pass, lemma_failures_begin,
    lemma_failures_end, lemma_failures_step, lemma_find_key, lemma_push_view, outcome,
    position_by_key, repeats, yields, KernelError, Keyed, Value, Verdict,
};

verus! {

/// What was found at the path of a file. A plain file has the size that its metadata tells, the
/// word whether it lies within the workspace, and its contents.
#[derive(Debug, Clone, PartialEq, Eq)]
pub enum WorkspaceFileStateV1 {
    Absent,
    Plain {
        size: u64,
        inside_workspace: bool,
        content: Vec<u8>,
    },
    Other,
}

/// What a [`WorkspaceFileStateV1`] holds.
#[verifier::ext_equal]
pub enum WorkspaceFileStateV1View {
    Absent,
    Plain {
        size: u64,
        inside_workspace: bool,
        content: Seq<u8>,
    },
    Other,
}

impl DeepView for WorkspaceFileStateV1 {
    type V = WorkspaceFileStateV1View;

    open spec fn deep_view(&self) -> WorkspaceFileStateV1View {
        match self {
            WorkspaceFileStateV1::Absent => WorkspaceFileStateV1View::Absent,
            WorkspaceFileStateV1::Plain { size, inside_workspace, content } => WorkspaceFileStateV1View::Plain {
                size: size.deep_view(),
                inside_workspace: inside_workspace.deep_view(),
                content: content.deep_view(),
            },
            WorkspaceFileStateV1::Other => WorkspaceFileStateV1View::Other,
        }
    }
}

impl Value for WorkspaceFileStateV1 {
    fn same(&self, other: &Self) -> (r: bool) {
        match (self, other) {
            (
                WorkspaceFileStateV1::Absent,
                WorkspaceFileStateV1::Absent,
            ) => true,
            (
                WorkspaceFileStateV1::Plain { size, inside_workspace, content },
                WorkspaceFileStateV1::Plain { size: size2, inside_workspace: inside_workspace2, content: content2 },
            ) => size.same(size2)
                && inside_workspace.same(inside_workspace2)
                && content.same(content2),
            (
                WorkspaceFileStateV1::Other,
                WorkspaceFileStateV1::Other,
            ) => true,
            _ => false,
        }
    }

    fn duplicate(&self) -> (r: Self) {
        match self {
            WorkspaceFileStateV1::Absent => WorkspaceFileStateV1::Absent,
            WorkspaceFileStateV1::Plain { size, inside_workspace, content } => WorkspaceFileStateV1::Plain {
                size: size.duplicate(),
                inside_workspace: inside_workspace.duplicate(),
                content: content.duplicate(),
            },
            WorkspaceFileStateV1::Other => WorkspaceFileStateV1::Other,
        }
    }
}

/// What was found of one file when a layer is materialized: where it is, whether its path is one of
/// sensitive content, the captured contents before the change where they could be read, whether its directory
/// lies within the workspace, what is at its path, whether either text holds a secret, and why it
/// could not be looked at where that failed.
#[derive(Debug, Clone, PartialEq, Eq)]
pub struct IntentFileObservationV1 {
    pub path: String,
    pub absolute_path: String,
    pub sensitive_path: bool,
    pub captured: Option<Vec<u8>>,
    pub parent_inside_workspace: bool,
    pub state: WorkspaceFileStateV1,
    pub secret_before: bool,
    pub secret_after: bool,
    pub failure: Option<String>,
}

/// What a [`IntentFileObservationV1`] holds.
#[verifier::ext_equal]
pub struct IntentFileObservationV1View {
    pub path: Seq<char>,
    pub absolute_path: Seq<char>,
    pub sensitive_path: bool,
    pub captured: Option<Seq<u8>>,
    pub parent_inside_workspace: bool,
    pub state: WorkspaceFileStateV1View,
    pub secret_before: bool,
    pub secret_after: bool,
    pub failure: Option<Seq<char>>,
}

impl DeepView for IntentFileObservationV1 {
    type V = IntentFileObservationV1View;

    open spec fn deep_view(&self) -> IntentFileObservationV1View {
        IntentFileObservationV1View {
            path: self.path.deep_view(),
            absolute_path: self.absolute_path.deep_view(),
            sensitive_path: self.sensitive_path.deep_view(),
            captured: self.captured.deep_view(),
            parent_inside_workspace: self.parent_inside_workspace.deep_view(),
            state: self.state.deep_view(),
            secret_before: self.secret_before.deep_view(),
            secret_after: self.secret_after.deep_view(),
            failure: self.failure.deep_view(),
        }
    }
}

impl Value for IntentFileObservationV1 {
    fn same(&self, other: &Self) -> (r: bool) {
        self.path.same(&other.path)
            && self.absolute_path.same(&other.absolute_path)
            && self.sensitive_path.same(&other.sensitive_path)
            && self.captured.same(&other.captured)
            && self.parent_inside_workspace.same(&other.parent_inside_workspace)
            && self.state.same(&other.state)
            && self.secret_before.same(&other.secret_before)
            && self.secret_after.same(&other.secret_after)
            && self.failure.same(&other.failure)
    }

    fn duplicate(&self) -> (r: Self) {
        IntentFileObservationV1 {
            path: self.path.duplicate(),
            absolute_path: self.absolute_path.duplicate(),
            sensitive_path: self.sensitive_path.duplicate(),
            captured: self.captured.duplicate(),
            parent_inside_workspace: self.parent_inside_workspace.duplicate(),
            state: self.state.duplicate(),
            secret_before: self.secret_before.duplicate(),
            secret_after: self.secret_after.duplicate(),
            failure: self.failure.duplicate(),
        }
    }
}

/// What became of the files of an execution.
#[derive(Debug, Clone, PartialEq, Eq)]
pub enum MaterializedFiles {
    Ready(Vec<MaterializedIntentFile>),
    ReadOnly(IntentLayerReadOnlyReasonV1),
}

/// What a [`MaterializedFiles`] holds.
#[verifier::ext_equal]
pub enum MaterializedFilesView {
    Ready(Seq<MaterializedIntentFileView>),
    ReadOnly(IntentLayerReadOnlyReasonV1),
}

impl DeepView for MaterializedFiles {
    type V = MaterializedFilesView;

    open spec fn deep_view(&self) -> MaterializedFilesView {
        match self {
            MaterializedFiles::Ready(x) => MaterializedFilesView::Ready(x.deep_view()),
            MaterializedFiles::ReadOnly(x) => MaterializedFilesView::ReadOnly(x.deep_view()),
        }
    }
}

impl Value for MaterializedFiles {
    fn same(&self, other: &Self) -> (r: bool) {
        match (self, other) {
            (
                MaterializedFiles::Ready(x),
                MaterializedFiles::Ready(x2),
            ) => x.same(x2),
            (
                MaterializedFiles::ReadOnly(x),
                MaterializedFiles::ReadOnly(x2),
            ) => x.same(x2),
            _ => false,
        }
    }

    fn duplicate(&self) -> (r: Self) {
        match self {
            MaterializedFiles::Ready(x) => MaterializedFiles::Ready(x.duplicate()),
            MaterializedFiles::ReadOnly(x) => MaterializedFiles::ReadOnly(x.duplicate()),
        }
    }
}

/// A layer before its artifacts are stored.
#[derive(Debug, Clone, PartialEq, Eq)]
pub struct IntentLayerDraftV1 {
    pub workspace_id: String,
    pub intent_ref: IntentVersionRef,
    pub execution_id: IntentExecutionId,
    pub execution_origin: IntentExecutionOriginV1,
    pub base_snapshot_id: String,
    pub result_snapshot_id: String,
    pub changeset_ids: Vec<String>,
    pub files: Vec<MaterializedIntentFile>,
}

/// What a [`IntentLayerDraftV1`] holds.
#[verifier::ext_equal]
pub struct IntentLayerDraftV1View {
    pub workspace_id: Seq<char>,
    pub intent_ref: IntentVersionRefView,
    pub execution_id: Seq<char>,
    pub execution_origin: IntentExecutionOriginV1View,
    pub base_snapshot_id: Seq<char>,
    pub result_snapshot_id: Seq<char>,
    pub changeset_ids: Seq<Seq<char>>,
    pub files: Seq<MaterializedIntentFileView>,
}

impl DeepView for IntentLayerDraftV1 {
    type V = IntentLayerDraftV1View;

    open spec fn deep_view(&self) -> IntentLayerDraftV1View {
        IntentLayerDraftV1View {
            workspace_id: self.workspace_id.deep_view(),
            intent_ref: self.intent_ref.deep_view(),
            execution_id: self.execution_id.deep_view(),
            execution_origin: self.execution_origin.deep_view(),
            base_snapshot_id: self.base_snapshot_id.deep_view(),
            result_snapshot_id: self.result_snapshot_id.deep_view(),
            changeset_ids: self.changeset_ids.deep_view(),
            files: self.files.deep_view(),
        }
    }
}

impl Value for IntentLayerDraftV1 {
    fn same(&self, other: &Self) -> (r: bool) {
        self.workspace_id.same(&other.workspace_id)
            && self.intent_ref.same(&other.intent_ref)
            && self.execution_id.same(&other.execution_id)
            && self.execution_origin.same(&other.execution_origin)
            && self.base_snapshot_id.same(&other.base_snapshot_id)
            && self.result_snapshot_id.same(&other.result_snapshot_id)
            && self.changeset_ids.same(&other.changeset_ids)
            && self.files.same(&other.files)
    }

    fn duplicate(&self) -> (r: Self) {
        IntentLayerDraftV1 {
            workspace_id: self.workspace_id.duplicate(),
            intent_ref: self.intent_ref.duplicate(),
            execution_id: self.execution_id.duplicate(),
            execution_origin: self.execution_origin.duplicate(),
            base_snapshot_id: self.base_snapshot_id.duplicate(),
            result_snapshot_id: self.result_snapshot_id.duplicate(),
            changeset_ids: self.changeset_ids.duplicate(),
            files: self.files.duplicate(),
        }
    }
}

/// Where the materialization of a layer stands: it is settled, or its artifacts are to be stored.
#[derive(Debug, Clone, PartialEq, Eq)]
pub enum IntentLayerMaterializationV1 {
    Settled(IntentLayerMaterializationOutcomeV1),
    Draft(IntentLayerDraftV1),
}

/// What a [`IntentLayerMaterializationV1`] holds.
#[verifier::ext_equal]
pub enum IntentLayerMaterializationV1View {
    Settled(IntentLayerMaterializationOutcomeV1View),
    Draft(IntentLayerDraftV1View),
}

impl DeepView for IntentLayerMaterializationV1 {
    type V = IntentLayerMaterializationV1View;

    open spec fn deep_view(&self) -> IntentLayerMaterializationV1View {
        match self {
            IntentLayerMaterializationV1::Settled(x) => IntentLayerMaterializationV1View::Settled(x.deep_view()),
            IntentLayerMaterializationV1::Draft(x) => IntentLayerMaterializationV1View::Draft(x.deep_view()),
        }
    }
}

impl Value for IntentLayerMaterializationV1 {
    fn same(&self, other: &Self) -> (r: bool) {
        match (self, other) {
            (
                IntentLayerMaterializationV1::Settled(x),
                IntentLayerMaterializationV1::Settled(x2),
            ) => x.same(x2),
            (
                IntentLayerMaterializationV1::Draft(x),
                IntentLayerMaterializationV1::Draft(x2),
            ) => x.same(x2),
            _ => false,
        }
    }

    fn duplicate(&self) -> (r: Self) {
        match self {
            IntentLayerMaterializationV1::Settled(x) => IntentLayerMaterializationV1::Settled(x.duplicate()),
            IntentLayerMaterializationV1::Draft(x) => IntentLayerMaterializationV1::Draft(x.duplicate()),
        }
    }
}

/// What is to be appended for a layer, and what the writer then reports.
#[derive(Debug, Clone, PartialEq, Eq)]
pub struct IntentLayerAppendV1 {
    pub events: Vec<IntentEventV1>,
    pub outcome: IntentLayerMaterializationOutcomeV1,
}

/// What a [`IntentLayerAppendV1`] holds.
#[verifier::ext_equal]
pub struct IntentLayerAppendV1View {
    pub events: Seq<IntentEventV1View>,
    pub outcome: IntentLayerMaterializationOutcomeV1View,
}

impl DeepView for IntentLayerAppendV1 {
    type V = IntentLayerAppendV1View;

    open spec fn deep_view(&self) -> IntentLayerAppendV1View {
        IntentLayerAppendV1View {
            events: self.events.deep_view(),
            outcome: self.outcome.deep_view(),
        }
    }
}

impl Value for IntentLayerAppendV1 {
    fn same(&self, other: &Self) -> (r: bool) {
        self.events.same(&other.events)
            && self.outcome.same(&other.outcome)
    }

    fn duplicate(&self) -> (r: Self) {
        IntentLayerAppendV1 {
            events: self.events.duplicate(),
            outcome: self.outcome.duplicate(),
        }
    }
}

impl Keyed for IntentFileObservationV1 {
    open spec fn key(v: IntentFileObservationV1View) -> Seq<char> {
        v.path
    }

    fn key_text(&self) -> (r: &str) {
        self.path.as_str()
    }
}

/// What a step of the materialization came to: a value, a reason why the layer stays read-only, or a
/// failure.
#[verifier::ext_equal]
pub enum Step<T> {
    /// The value.
    Goes(T),
    /// The reason why the layer stays read-only.
    ReadOnly(IntentLayerReadOnlyReasonV1),
    /// The message of the failure.
    Fails(Seq<char>),
}

/// What a step came to, to hand back.
enum Progress<T> {
    Goes(T),
    ReadOnly(IntentLayerReadOnlyReasonV1),
    Fails(KernelError),
}

spec fn step<T: DeepView>(p: Progress<T>) -> Step<T::V> {
    match p {
        Progress::Goes(v) => Step::Goes(v.deep_view()),
        Progress::ReadOnly(reason) => Step::ReadOnly(reason),
        Progress::Fails(e) => Step::Fails(e.deep_view()),
    }
}

/// A character in lower case, where it is an ASCII letter.
pub open spec fn lowered(c: char) -> char {
    if 'A' <= c <= 'Z' {
        (c as u32 + 32) as char
    } else {
        c
    }
}

/// A text with its ASCII letters in lower case.
pub open spec fn lower_case(s: Seq<char>) -> Seq<char> {
    Seq::new(s.len(), |i: int| lowered(s[i]))
}

fn lower_text(s: &str) -> (r: String)
    ensures
        r@ == lower_case(s@),
{
    let chars = characters(s);
    let mut r = String::new();
    let mut i: usize = 0;
    while i < chars.len()
        invariant
            i <= chars.len(),
            chars@ == s@,
            r@ =~= lower_case(s@).take(i as int),
        decreases chars.len() - i,
    {
        let c = chars[i];
        if 'A' <= c && c <= 'Z' {
            let low: u8 = c as u8 + 32;
            r.push(low as char);
        } else {
            r.push(c);
        }
        i = i + 1;
    }
    assert(r@ =~= lower_case(s@));
    r
}

/// Contents have a digest, whatever the case of its letters; no contents have none.
pub open spec fn has_digest(bytes: Option<Seq<u8>>, expected: Option<Seq<char>>) -> bool {
    match (bytes, expected) {
        (None, None) => true,
        (Some(b), Some(e)) => lower_case(content_digest_of(b)) == lower_case(e),
        _ => false,
    }
}

fn digest_matches(bytes: &Option<Vec<u8>>, expected: &Option<String>) -> (r: bool)
    ensures
        r == has_digest(bytes.deep_view(), expected.deep_view()),
{
    match (bytes, expected) {
        (None, None) => true,
        (Some(b), Some(e)) => {
            assert(b.deep_view() =~= b@);
            let own = IntentContentDigest::from_bytes(b.as_slice());
            let a = lower_text(own.as_str());
            let c = lower_text(e.as_str());
            a == c
        },
        _ => false,
    }
}

// One file.

/// The contents of a file before its change.
pub open spec fn contents_before(
    coverage: SnapshotCoverageView,
    action: ChangeSetFileAction,
    o: IntentFileObservationV1View,
) -> Step<Option<Seq<u8>>> {
    match coverage {
        SnapshotCoverageView::Captured(_) => match o.captured {
            None => Step::ReadOnly(IntentLayerReadOnlyReasonV1::ArtifactUnavailable),
            Some(bytes) => if bytes.len() > MAX_WORKSPACE_SNAPSHOT_FILE_BYTES {
                Step::ReadOnly(IntentLayerReadOnlyReasonV1::UnsupportedFileKind)
            } else {
                Step::Goes(Some(bytes))
            },
        },
        SnapshotCoverageView::NoPriorContent => if action == ChangeSetFileAction::Create {
            Step::Goes(None)
        } else {
            Step::ReadOnly(IntentLayerReadOnlyReasonV1::MissingMutationArtifact)
        },
        SnapshotCoverageView::SkippedSensitive => if action != ChangeSetFileAction::Rename {
            Step::ReadOnly(IntentLayerReadOnlyReasonV1::SensitiveContent)
        } else {
            Step::ReadOnly(IntentLayerReadOnlyReasonV1::MissingMutationArtifact)
        },
        SnapshotCoverageView::NotCaptured => Step::ReadOnly(
            IntentLayerReadOnlyReasonV1::MissingMutationArtifact,
        ),
    }
}

/// The contents of a file after its change, as they are found in the workspace.
pub open spec fn contents_after(action: ChangeSetFileAction, o: IntentFileObservationV1View) -> Step<
    Option<Seq<u8>>,
> {
    if o.failure is Some {
        Step::Fails(o.failure->0)
    } else if !o.parent_inside_workspace {
        Step::ReadOnly(IntentLayerReadOnlyReasonV1::UnsupportedFileKind)
    } else if action == ChangeSetFileAction::Delete {
        if o.state is Absent {
            Step::Goes(None)
        } else {
            Step::ReadOnly(IntentLayerReadOnlyReasonV1::DriftedArtifact)
        }
    } else {
        match o.state {
            WorkspaceFileStateV1View::Absent => Step::Fails(
                "failed to inspect Intent layer file "@ + o.absolute_path,
            ),
            WorkspaceFileStateV1View::Other => Step::ReadOnly(
                IntentLayerReadOnlyReasonV1::UnsupportedFileKind,
            ),
            WorkspaceFileStateV1View::Plain { size, inside_workspace, content } => {
                if size > MAX_WORKSPACE_SNAPSHOT_FILE_BYTES || !inside_workspace {
                    Step::ReadOnly(IntentLayerReadOnlyReasonV1::UnsupportedFileKind)
                } else {
                    Step::Goes(Some(content))
                }
            },
        }
    }
}

/// Contents that are there, or nothing.
pub open spec fn bytes_or_none(bytes: Option<Seq<u8>>) -> Seq<u8> {
    match bytes {
        Some(b) => b,
        None => Seq::empty(),
    }
}

/// Contents are text, where they are there.
pub open spec fn is_text(bytes: Option<Seq<u8>>) -> bool {
    bytes matches Some(b) ==> vstd::utf8::valid_utf8(b)
}

/// The exact change of a file.
pub open spec fn change_of(
    path: Seq<char>,
    before: Option<Seq<u8>>,
    after: Option<Seq<u8>>,
    old_range: IntentByteRangeV1View,
    new_range: IntentByteRangeV1View,
    source_event_id: Seq<char>,
    mutation: Seq<char>,
    changeset_id: Seq<char>,
) -> MaterializedIntentFileView {
    let b = bytes_or_none(before);
    let a = bytes_or_none(after);
    let old_bytes = b.subrange(old_range.start as int, old_range.end as int);
    let new_bytes = a.subrange(new_range.start as int, new_range.end as int);
    MaterializedIntentFileView {
        path,
        before,
        after,
        before_digest: content_digest_of(b),
        after_digest: content_digest_of(a),
        old_range,
        new_range,
        old_content_digest: content_digest_of(old_bytes),
        new_content_digest: content_digest_of(new_bytes),
        old_changed_bytes: old_bytes,
        new_changed_bytes: new_bytes,
        source_event_id,
        mutation_identity: mutation,
        changeset_id,
    }
}

/// The exact change of a file whose contents are known: they are those of the change set, text without
/// secrets, and not the same.
pub open spec fn exact_change(
    file: ChangeSetFileView,
    before: Option<Seq<u8>>,
    after: Option<Seq<u8>>,
    o: IntentFileObservationV1View,
    source_event_id: Seq<char>,
    observed_after: Option<Seq<char>>,
    mutation: Seq<char>,
    changeset_id: Seq<char>,
) -> Step<MaterializedIntentFileView> {
    if !has_digest(before, file.before_hash) || !has_digest(after, file.after_hash)
        || observed_after != file.after_hash {
        Step::ReadOnly(IntentLayerReadOnlyReasonV1::DriftedArtifact)
    } else if !is_text(before) || !is_text(after) {
        Step::ReadOnly(IntentLayerReadOnlyReasonV1::UnsupportedFileKind)
    } else if (before is Some && o.secret_before) || (after is Some && o.secret_after) {
        Step::ReadOnly(IntentLayerReadOnlyReasonV1::SensitiveContent)
    } else {
        match changed_ranges(bytes_or_none(before), bytes_or_none(after)) {
            Err(m) => Step::Fails(m),
            Ok((old_range, new_range)) => Step::Goes(
                change_of(
                    file.path,
                    before,
                    after,
                    old_range,
                    new_range,
                    source_event_id,
                    mutation,
                    changeset_id,
                ),
            ),
        }
    }
}

/// The exact change of a file whose proposal stands among those of the execution.
#[verifier::opaque]
pub open spec fn observed_change(
    records: Seq<SessionStreamRecordView>,
    x: IntentExecutionLineageV1View,
    workspace_id: Seq<char>,
    changeset_id: Seq<char>,
    result: ChangeSetResultView,
    file: ChangeSetFileView,
    o: IntentFileObservationV1View,
) -> Step<MaterializedIntentFileView> {
    if o.sensitive_path {
        Step::ReadOnly(IntentLayerReadOnlyReasonV1::SensitiveContent)
    } else if !file_is_applied(result, file) {
        Step::ReadOnly(IntentLayerReadOnlyReasonV1::MissingMutationArtifact)
    } else {
        match mutation_pair(records, x, workspace_id, file) {
            None => Step::ReadOnly(IntentLayerReadOnlyReasonV1::MissingMutationArtifact),
            Some(pair) => {
                let p = prepared_in(records[pair.0])->0;
                let c = committed_in(records[pair.1])->0;
                match contents_before(p.snapshot_coverage, file.action, o) {
                    Step::ReadOnly(reason) => Step::ReadOnly(reason),
                    Step::Fails(m) => Step::Fails(m),
                    Step::Goes(before) => match contents_after(file.action, o) {
                        Step::ReadOnly(reason) => Step::ReadOnly(reason),
                        Step::Fails(m) => Step::Fails(m),
                        Step::Goes(after) => exact_change(
                            file,
                            before,
                            after,
                            o,
                            records[pair.1].event_id,
                            c.observed_after_hash,
                            mutation_identity(p),
                            changeset_id,
                        ),
                    },
                }
            },
        }
    }
}

/// The paths of changed files.
pub open spec fn changed_paths(files: Seq<MaterializedIntentFileView>) -> Seq<Seq<char>> {
    Seq::new(files.len(), |i: int| files[i].path)
}

/// The exact changes of the first `n` files of a change set, behind others.
pub open spec fn file_changes(
    records: Seq<SessionStreamRecordView>,
    x: IntentExecutionLineageV1View,
    workspace_id: Seq<char>,
    observations: Seq<IntentFileObservationV1View>,
    changeset_id: Seq<char>,
    result: ChangeSetResultView,
    files: Seq<ChangeSetFileView>,
    n: int,
    others: Seq<MaterializedIntentFileView>,
) -> Step<Seq<MaterializedIntentFileView>>
    decreases n,
{
    if n <= 0 {
        Step::Goes(others)
    } else {
        match file_changes(
            records,
            x,
            workspace_id,
            observations,
            changeset_id,
            result,
            files,
            n - 1,
            others,
        ) {
            Step::ReadOnly(reason) => Step::ReadOnly(reason),
            Step::Fails(m) => Step::Fails(m),
            Step::Goes(list) => {
                let file = files[n - 1];
                if file.action == ChangeSetFileAction::Rename || changed_paths(list).contains(
                    file.path,
                ) || !is_plain_relative_path(file.path) {
                    Step::ReadOnly(IntentLayerReadOnlyReasonV1::UnownedArtifact)
                } else {
                    match find_key::<IntentFileObservationV1>(observations, file.path) {
                        None => Step::Fails("Intent layer file was not observed: "@ + file.path),
                        Some(k) => match observed_change(
                            records,
                            x,
                            workspace_id,
                            changeset_id,
                            result,
                            file,
                            observations[k],
                        ) {
                            Step::ReadOnly(reason) => Step::ReadOnly(reason),
                            Step::Fails(m) => Step::Fails(m),
                            Step::Goes(change) => Step::Goes(list.push(change)),
                        },
                    }
                }
            },
        }
    }
}

/// The exact changes of the first `n` change sets of an execution.
pub open spec fn set_changes(
    records: Seq<SessionStreamRecordView>,
    x: IntentExecutionLineageV1View,
    workspace_id: Seq<char>,
    observations: Seq<IntentFileObservationV1View>,
    n: int,
) -> Step<Seq<MaterializedIntentFileView>>
    decreases n,
{
    if n <= 0 {
        Step::Goes(Seq::empty())
    } else {
        match set_changes(records, x, workspace_id, observations, n - 1) {
            Step::ReadOnly(reason) => Step::ReadOnly(reason),
            Step::Fails(m) => Step::Fails(m),
            Step::Goes(list) => {
                let id = x.changeset_ids[n - 1];
                match proposal(records, id) {
                    None => Step::Fails("Intent layer ChangeSet proposal is unavailable"@),
                    Some(c) => match change_result(records, id) {
                        None => Step::ReadOnly(
                            IntentLayerReadOnlyReasonV1::MissingMutationArtifact,
                        ),
                        Some(result) => if result.status != ChangeSetResultStatus::Applied {
                            Step::ReadOnly(IntentLayerReadOnlyReasonV1::MissingMutationArtifact)
                        } else {
                            file_changes(
                                records,
                                x,
                                workspace_id,
                                observations,
                                id,
                                result,
                                c.files,
                                c.files.len() as int,
                                list,
                            )
                        },
                    },
                }
            },
        }
    }
}

/// One change stands before another: by its path.
pub open spec fn path_order() -> spec_fn(
    MaterializedIntentFileView,
    MaterializedIntentFileView,
) -> bool {
    |a: MaterializedIntentFileView, b: MaterializedIntentFileView| precedes(a.path, b.path)
}

/// The exact changes of an execution, in the order of their paths.
pub open spec fn execution_changes(
    records: Seq<SessionStreamRecordView>,
    x: IntentExecutionLineageV1View,
    workspace_id: Seq<char>,
    observations: Seq<IntentFileObservationV1View>,
) -> Step<Seq<MaterializedIntentFileView>> {
    match set_changes(
        records,
        x,
        workspace_id,
        observations,
        x.changeset_ids.len() as int,
    ) {
        Step::ReadOnly(reason) => Step::ReadOnly(reason),
        Step::Fails(m) => Step::Fails(m),
        Step::Goes(list) => if list.len() == 0 {
            Step::ReadOnly(IntentLayerReadOnlyReasonV1::MissingMutationArtifact)
        } else {
            Step::Goes(items_in_order(list, path_order()))
        },
    }
}

proof fn lemma_file_changes_stop(
    records: Seq<SessionStreamRecordView>,
    x: IntentExecutionLineageV1View,
    workspace_id: Seq<char>,
    observations: Seq<IntentFileObservationV1View>,
    changeset_id: Seq<char>,
    result: ChangeSetResultView,
    files: Seq<ChangeSetFileView>,
    n: int,
    end: int,
    others: Seq<MaterializedIntentFileView>,
)
    requires
        0 <= n <= end,
        file_changes(
            records,
            x,
            workspace_id,
            observations,
            changeset_id,
            result,
            files,
            n,
            others,
        ) !is Goes,
    ensures
        file_changes(
            records,
            x,
            workspace_id,
            observations,
            changeset_id,
            result,
            files,
            end,
            others,
        ) == file_changes(
            records,
            x,
            workspace_id,
            observations,
            changeset_id,
            result,
            files,
            n,
            others,
        ),
    decreases end - n,
{
    if n < end {
        lemma_file_changes_stop(
            records,
            x,
            workspace_id,
            observations,
            changeset_id,
            result,
            files,
            n,
            end - 1,
            others,
        );
    }
}

proof fn lemma_set_changes_stop(
    records: Seq<SessionStreamRecordView>,
    x: IntentExecutionLineageV1View,
    workspace_id: Seq<char>,
    observations: Seq<IntentFileObservationV1View>,
    n: int,
    end: int,
)
    requires
        0 <= n <= end,
        set_changes(records, x, workspace_id, observations, n) !is Goes,
    ensures
        set_changes(records, x, workspace_id, observations, end) == set_changes(
            records,
            x,
            workspace_id,
            observations,
            n,
        ),
    decreases end - n,
{
    if n < end {
        lemma_set_changes_stop(records, x, workspace_id, observations, n, end - 1);
    }
}

fn find_before(
    coverage: &SnapshotCoverage,
    action: ChangeSetFileAction,
    o: &IntentFileObservationV1,
) -> (r: Progress<Option<Vec<u8>>>)
    ensures
        step(r) == contents_before(coverage.deep_view(), action, o.deep_view()),
{
    match coverage {
        SnapshotCoverage::Captured(_) => match &o.captured {
            None => Progress::ReadOnly(IntentLayerReadOnlyReasonV1::ArtifactUnavailable),
            Some(bytes) => {
                assert(bytes.deep_view() =~= bytes@);
                if bytes.len() as u64 > MAX_WORKSPACE_SNAPSHOT_FILE_BYTES {
                    Progress::ReadOnly(IntentLayerReadOnlyReasonV1::UnsupportedFileKind)
                } else {
                    Progress::Goes(Some(bytes.duplicate()))
                }
            },
        },
        SnapshotCoverage::NoPriorContent => if action == ChangeSetFileAction::Create {
            Progress::Goes(None)
        } else {
            Progress::ReadOnly(IntentLayerReadOnlyReasonV1::MissingMutationArtifact)
        },
        SnapshotCoverage::SkippedSensitive => if action != ChangeSetFileAction::Rename {
            Progress::ReadOnly(IntentLayerReadOnlyReasonV1::SensitiveContent)
        } else {
            Progress::ReadOnly(IntentLayerReadOnlyReasonV1::MissingMutationArtifact)
        },
        SnapshotCoverage::NotCaptured => Progress::ReadOnly(
            IntentLayerReadOnlyReasonV1::MissingMutationArtifact,
        ),
    }
}

fn find_after(action: ChangeSetFileAction, o: &IntentFileObservationV1) -> (r: Progress<
    Option<Vec<u8>>,
>)
    ensures
        step(r) == contents_after(action, o.deep_view()),
{
    if let Some(m) = &o.failure {
        return Progress::Fails(KernelError { message: m.duplicate() });
    }
    if !o.parent_inside_workspace {
        return Progress::ReadOnly(IntentLayerReadOnlyReasonV1::UnsupportedFileKind);
    }
    if action == ChangeSetFileAction::Delete {
        return match &o.state {
            WorkspaceFileStateV1::Absent => Progress::Goes(None),
            _ => Progress::ReadOnly(IntentLayerReadOnlyReasonV1::DriftedArtifact),
        };
    }
    match &o.state {
        WorkspaceFileStateV1::Absent => Progress::Fails(
            KernelError {
                message: joined(
                    "failed to inspect Intent layer file ",
                    o.absolute_path.as_str(),
                ),
            },
        ),
        WorkspaceFileStateV1::Other => Progress::ReadOnly(
            IntentLayerReadOnlyReasonV1::UnsupportedFileKind,
        ),
        WorkspaceFileStateV1::Plain { size, inside_workspace, content } => {
            if *size > MAX_WORKSPACE_SNAPSHOT_FILE_BYTES || !*inside_workspace {
                Progress::ReadOnly(IntentLayerReadOnlyReasonV1::UnsupportedFileKind)
            } else {
                Progress::Goes(Some(content.duplicate()))
            }
        },
    }
}

fn text_or_none(bytes: &Option<Vec<u8>>) -> (r: bool)
    ensures
        r == is_text(bytes.deep_view()),
{
    match bytes {
        None => true,
        Some(b) => {
            assert(b.deep_view() =~= b@);
            utf8_text(b.as_slice()).is_some()
        },
    }
}

fn copy_range(bytes: &Vec<u8>, from: usize, to: usize) -> (r: Vec<u8>)
    requires
        from <= to <= bytes.len(),
    ensures
        r@ == bytes@.subrange(from as int, to as int),
{
    let mut r: Vec<u8> = Vec::new();
    let mut i: usize = from;
    while i < to
        invariant
            from <= i <= to <= bytes.len(),
            r@ =~= bytes@.subrange(from as int, i as int),
        decreases to - i,
    {
        r.push(bytes[i]);
        i = i + 1;
    }
    r
}

fn take_or_none(bytes: &Option<Vec<u8>>) -> (r: Vec<u8>)
    ensures
        r@ == bytes_or_none(bytes.deep_view()),
        r.deep_view() == r@,
{
    match bytes {
        Some(b) => {
            let r = b.duplicate();
            assert(b.deep_view() =~= b@);
            assert(r.deep_view() =~= r@);
            r
        },
        None => {
            let r: Vec<u8> = Vec::new();
            assert(r@ =~= Seq::empty());
            assert(r.deep_view() =~= r@);
            r
        },
    }
}

fn find_change(
    file: &ChangeSetFile,
    before: Option<Vec<u8>>,
    after: Option<Vec<u8>>,
    o: &IntentFileObservationV1,
    source_event_id: &String,
    observed_after: &Option<String>,
    mutation: &String,
    changeset_id: &String,
) -> (r: Progress<MaterializedIntentFile>)
    ensures
        step(r) == exact_change(
            file.deep_view(),
            before.deep_view(),
            after.deep_view(),
            o.deep_view(),
            source_event_id@,
            observed_after.deep_view(),
            mutation@,
            changeset_id@,
        ),
{
    if !digest_matches(&before, &file.before_hash) || !digest_matches(&after, &file.after_hash)
        || !observed_after.same(&file.after_hash) {
        return Progress::ReadOnly(IntentLayerReadOnlyReasonV1::DriftedArtifact);
    }
    if !text_or_none(&before) || !text_or_none(&after) {
        return Progress::ReadOnly(IntentLayerReadOnlyReasonV1::UnsupportedFileKind);
    }
    if (before.is_some() && o.secret_before) || (after.is_some() && o.secret_after) {
        return Progress::ReadOnly(IntentLayerReadOnlyReasonV1::SensitiveContent);
    }
    let b = take_or_none(&before);
    let a = take_or_none(&after);
    let (old_range, new_range) = match canonical_changed_ranges(b.as_slice(), a.as_slice()) {
        Err(e) => {
            return Progress::Fails(e);
        },
        Ok(ranges) => ranges,
    };
    proof {
        assert(b@.len() == b.len() && a@.len() == a.len());
        lemma_ranges_fit(b@, a@);
    }
    let old_bytes = copy_range(&b, old_range.start as usize, old_range.end as usize);
    let new_bytes = copy_range(&a, new_range.start as usize, new_range.end as usize);
    assert(old_bytes.deep_view() =~= old_bytes@);
    assert(new_bytes.deep_view() =~= new_bytes@);
    let change = MaterializedIntentFile {
        path: file.path.duplicate(),
        before_digest: IntentContentDigest::from_bytes(b.as_slice()),
        after_digest: IntentContentDigest::from_bytes(a.as_slice()),
        old_content_digest: IntentContentDigest::from_bytes(old_bytes.as_slice()),
        new_content_digest: IntentContentDigest::from_bytes(new_bytes.as_slice()),
        old_range,
        new_range,
        old_changed_bytes: old_bytes,
        new_changed_bytes: new_bytes,
        before,
        after,
        source_event_id: source_event_id.duplicate(),
        mutation_identity: mutation.duplicate(),
        changeset_id: changeset_id.duplicate(),
    };
    Progress::Goes(change)
}

fn observe_change(
    records: &Vec<SessionStreamRecord>,
    x: &IntentExecutionLineageV1,
    workspace_id: &str,
    changeset_id: &String,
    result: &ChangeSetResult,
    file: &ChangeSetFile,
    o: &IntentFileObservationV1,
) -> (r: Progress<MaterializedIntentFile>)
    ensures
        step(r) == observed_change(
            records.deep_view(),
            x.deep_view(),
            workspace_id@,
            changeset_id@,
            result.deep_view(),
            file.deep_view(),
            o.deep_view(),
        ),
{
    proof {
        reveal(observed_change);
        lemma_mutation_pair(records.deep_view(), x.deep_view(), workspace_id@, file.deep_view());
    }
    if o.sensitive_path {
        return Progress::ReadOnly(IntentLayerReadOnlyReasonV1::SensitiveContent);
    }
    if !change_set_file_is_applied(result, file) {
        return Progress::ReadOnly(IntentLayerReadOnlyReasonV1::MissingMutationArtifact);
    }
    let (i, k) = match mutation_pair_for_file(records, x, workspace_id, file) {
        None => {
            return Progress::ReadOnly(IntentLayerReadOnlyReasonV1::MissingMutationArtifact);
        },
        Some(pair) => pair,
    };
    assert(records.deep_view()[i as int] == records@[i as int].deep_view());
    assert(records.deep_view()[k as int] == records@[k as int].deep_view());
    let (p, c) = match (prepared_of(&records[i]), committed_of(&records[k])) {
        (Some(p), Some(c)) => (p, c),
        _ => {
            assert(false);
            return Progress::ReadOnly(IntentLayerReadOnlyReasonV1::MissingMutationArtifact);
        },
    };
    let before = match find_before(&p.snapshot_coverage, file.action, o) {
        Progress::Goes(before) => before,
        Progress::ReadOnly(reason) => {
            return Progress::ReadOnly(reason);
        },
        Progress::Fails(e) => {
            return Progress::Fails(e);
        },
    };
    let after = match find_after(file.action, o) {
        Progress::Goes(after) => after,
        Progress::ReadOnly(reason) => {
            return Progress::ReadOnly(reason);
        },
        Progress::Fails(e) => {
            return Progress::Fails(e);
        },
    };
    let mutation = match &p.batch_id {
        Some(id) => id,
        None => &p.operation_id,
    };
    find_change(
        file,
        before,
        after,
        o,
        &records[k].event_id,
        &c.observed_after_hash,
        mutation,
        changeset_id,
    )
}

fn changes_path_already(files: &Vec<MaterializedIntentFile>, path: &String) -> (r: bool)
    ensures
        r == changed_paths(files.deep_view()).contains(path@),
{
    let ghost all = changed_paths(files.deep_view());
    let mut i: usize = 0;
    while i < files.len()
        invariant
            i <= files.len(),
            all == changed_paths(files.deep_view()),
            forall|j: int| 0 <= j < i ==> all[j] != path@,
        decreases files.len() - i,
    {
        assert(all[i as int] == files@[i as int].path@);
        if files[i].path == *path {
            return true;
        }
        i = i + 1;
    }
    false
}

#[verifier::rlimit(40)]
fn add_file_changes(
    records: &Vec<SessionStreamRecord>,
    x: &IntentExecutionLineageV1,
    workspace_id: &str,
    observations: &Vec<IntentFileObservationV1>,
    changeset_id: &String,
    result: &ChangeSetResult,
    files: &Vec<ChangeSetFile>,
    others: Vec<MaterializedIntentFile>,
) -> (r: Progress<Vec<MaterializedIntentFile>>)
    ensures
        step(r) == file_changes(
            records.deep_view(),
            x.deep_view(),
            workspace_id@,
            observations.deep_view(),
            changeset_id@,
            result.deep_view(),
            files.deep_view(),
            files.len() as int,
            others.deep_view(),
        ),
{
    let ghost rv = records.deep_view();
    let ghost xv = x.deep_view();
    let ghost ov = observations.deep_view();
    let ghost wv = workspace_id@;
    let ghost cv = changeset_id@;
    let ghost sv = result.deep_view();
    let ghost fv = files.deep_view();
    let ghost start = others.deep_view();
    let mut list = others;
    let mut i: usize = 0;
    while i < files.len()
        invariant
            i <= files.len(),
            rv == records.deep_view(),
            xv == x.deep_view(),
            ov == observations.deep_view(),
            wv == workspace_id@,
            cv == changeset_id@,
            sv == result.deep_view(),
            fv == files.deep_view(),
            start == others.deep_view(),
            file_changes(rv, xv, wv, ov, cv, sv, fv, i as int, start) == Step::Goes(
                list.deep_view(),
            ),
        decreases files.len() - i,
    {
        let file = &files[i];
        assert(fv[i as int] == file.deep_view());
        let ghost next = file_changes(rv, xv, wv, ov, cv, sv, fv, i + 1, start);
        proof {
            if next !is Goes {
                lemma_file_changes_stop(
                    rv,
                    xv,
                    wv,
                    ov,
                    cv,
                    sv,
                    fv,
                    i + 1,
                    fv.len() as int,
                    start,
                );
            }
        }
        if file.action == ChangeSetFileAction::Rename || changes_path_already(&list, &file.path)
            || !plain_relative_path(file.path.as_str()) {
            return Progress::ReadOnly(IntentLayerReadOnlyReasonV1::UnownedArtifact);
        }
        let k = match position_by_key(observations, file.path.as_str()) {
            None => {
                return Progress::Fails(
                    KernelError {
                        message: joined(
                            "Intent layer file was not observed: ",
                            file.path.as_str(),
                        ),
                    },
                );
            },
            Some(k) => k,
        };
        assert(ov[k as int] == observations@[k as int].deep_view());
        match observe_change(
            records,
            x,
            workspace_id,
            changeset_id,
            result,
            file,
            &observations[k],
        ) {
            Progress::Goes(change) => {
                let ghost had = list;
                list.push(change);
                proof {
                    lemma_push_view(had, change, list);
                }
            },
            Progress::ReadOnly(reason) => {
                return Progress::ReadOnly(reason);
            },
            Progress::Fails(e) => {
                return Progress::Fails(e);
            },
        }
        i = i + 1;
    }
    Progress::Goes(list)
}

fn collect_changes(
    records: &Vec<SessionStreamRecord>,
    x: &IntentExecutionLineageV1,
    workspace_id: &str,
    observations: &Vec<IntentFileObservationV1>,
) -> (r: Progress<Vec<MaterializedIntentFile>>)
    ensures
        step(r) == set_changes(
            records.deep_view(),
            x.deep_view(),
            workspace_id@,
            observations.deep_view(),
            x.changeset_ids.len() as int,
        ),
{
    let ghost rv = records.deep_view();
    let ghost xv = x.deep_view();
    let ghost ov = observations.deep_view();
    let ghost wv = workspace_id@;
    let ids = &x.changeset_ids;
    let mut list: Vec<MaterializedIntentFile> = Vec::new();
    assert(list.deep_view() =~= Seq::empty());
    let mut i: usize = 0;
    while i < ids.len()
        invariant
            i <= ids.len(),
            rv == records.deep_view(),
            xv == x.deep_view(),
            ov == observations.deep_view(),
            wv == workspace_id@,
            ids.deep_view() == xv.changeset_ids,
            ids.len() == x.changeset_ids.len(),
            set_changes(rv, xv, wv, ov, i as int) == Step::Goes(list.deep_view()),
        decreases ids.len() - i,
    {
        assert(xv.changeset_ids[i as int] == ids@[i as int]@);
        proof {
            if set_changes(rv, xv, wv, ov, i + 1) !is Goes {
                lemma_set_changes_stop(rv, xv, wv, ov, i + 1, ids.len() as int);
            }
        }
        let c = match find_proposal(records, ids[i].as_str()) {
            None => {
                return Progress::Fails(
                    KernelError::new("Intent layer ChangeSet proposal is unavailable"),
                );
            },
            Some(c) => c,
        };
        let result = match find_change_result(records, ids[i].as_str()) {
            None => {
                return Progress::ReadOnly(IntentLayerReadOnlyReasonV1::MissingMutationArtifact);
            },
            Some(result) => result,
        };
        if result.status != ChangeSetResultStatus::Applied {
            return Progress::ReadOnly(IntentLayerReadOnlyReasonV1::MissingMutationArtifact);
        }
        match add_file_changes(
            records,
            x,
            workspace_id,
            observations,
            &ids[i],
            result,
            &c.files,
            list,
        ) {
            Progress::Goes(more) => {
                list = more;
            },
            Progress::ReadOnly(reason) => {
                return Progress::ReadOnly(reason);
            },
            Progress::Fails(e) => {
                return Progress::Fails(e);
            },
        }
        i = i + 1;
    }
    Progress::Goes(list)
}

/// What came of the files of an execution.
pub open spec fn files_outcome(s: Step<Seq<MaterializedIntentFileView>>) -> Result<
    MaterializedFilesView,
    Seq<char>,
> {
    match s {
        Step::Goes(files) => Ok(MaterializedFilesView::Ready(files)),
        Step::ReadOnly(reason) => Ok(MaterializedFilesView::ReadOnly(reason)),
        Step::Fails(m) => Err(m),
    }
}

/// Finds the exact changes of the files of an execution from its proven mutations and from what was
/// found of the files. Whatever is not exact, not text, not safe or not within the workspace makes the
/// layer read-only.
pub fn materialize_execution_files(
    records: &Vec<SessionStreamRecord>,
    execution: &IntentExecutionLineageV1,
    workspace_id: &str,
    observations: &Vec<IntentFileObservationV1>,
) -> (r: Result<MaterializedFiles, KernelError>)
    ensures
        outcome(r) == files_outcome(
            execution_changes(
                records.deep_view(),
                execution.deep_view(),
                workspace_id@,
                observations.deep_view(),
            ),
        ),
{
    let list = match collect_changes(records, execution, workspace_id, observations) {
        Progress::Goes(list) => list,
        Progress::ReadOnly(reason) => {
            return Ok(MaterializedFiles::ReadOnly(reason));
        },
        Progress::Fails(e) => {
            return Err(e);
        },
    };
    if list.len() == 0 {
        return Ok(
            MaterializedFiles::ReadOnly(IntentLayerReadOnlyReasonV1::MissingMutationArtifact),
        );
    }
    let ghost p = path_order();
    let files = sort_items(
        &list,
        |a: &MaterializedIntentFile, b: &MaterializedIntentFile| -> (o: bool)
            ensures
                o == p(a.deep_view(), b.deep_view())
            { text_precedes(a.path.as_str(), b.path.as_str()) },
        Ghost(p),
    );
    Ok(MaterializedFiles::Ready(files))
}

// The layer.

/// A layer stays read-only.
pub open spec fn read_only_outcome(
    execution_id: Seq<char>,
    reason: IntentLayerReadOnlyReasonV1,
) -> IntentLayerMaterializationV1View {
    IntentLayerMaterializationV1View::Settled(
        IntentLayerMaterializationOutcomeV1View {
            appended: false,
            execution_id,
            manifest_digest: None,
            read_only_reason: Some(reason),
        },
    )
}

/// A layer is there already.
pub open spec fn existing_outcome(execution_id: Seq<char>, digest: Seq<char>) -> IntentLayerMaterializationV1View {
    IntentLayerMaterializationV1View::Settled(
        IntentLayerMaterializationOutcomeV1View {
            appended: false,
            execution_id,
            manifest_digest: Some(digest),
            read_only_reason: None,
        },
    )
}

/// The materialization of the layer of a known execution under an accepted plan.
pub open spec fn materialized_execution(
    records: Seq<SessionStreamRecordView>,
    x: IntentExecutionLineageV1View,
    workspace_id: Seq<char>,
    execution_id: Seq<char>,
    observations: Seq<IntentFileObservationV1View>,
) -> Result<IntentLayerMaterializationV1View, Seq<char>> {
    if x.read_only_reason is Some || x.changeset_ids.len() == 0 || x.parent_mutation_event_id is None
        || x.parent_snapshot_id is None {
        Ok(
            read_only_outcome(execution_id, IntentLayerReadOnlyReasonV1::MissingMutationArtifact),
        )
    } else {
        match layer_facts_verdict(records) {
            Err(m) => Err(m),
            Ok(_) => if terminal_sequence(records, x) is Err {
                Ok(
                    read_only_outcome(
                        execution_id,
                        IntentLayerReadOnlyReasonV1::MissingTerminalAttempt,
                    ),
                )
            } else {
                match execution_changes(records, x, workspace_id, observations) {
                    Step::Fails(m) => Err(m),
                    Step::ReadOnly(reason) => Ok(read_only_outcome(execution_id, reason)),
                    Step::Goes(files) => match base_snapshot(records, x, workspace_id, None) {
                        Err(m) => Err(m),
                        Ok(base) => Ok(
                            IntentLayerMaterializationV1View::Draft(
                                IntentLayerDraftV1View {
                                    workspace_id,
                                    intent_ref: x.binding.intent_ref,
                                    execution_id,
                                    execution_origin: x.binding.origin,
                                    base_snapshot_id: base,
                                    result_snapshot_id: x.parent_snapshot_id->0,
                                    changeset_ids: x.changeset_ids,
                                    files,
                                },
                            ),
                        ),
                    },
                }
            },
        }
    }
}

/// The materialization of the layer of an execution: settled where the layer is there already or stays
/// read-only, and else a draft whose artifacts are to be stored.
pub open spec fn materialization(
    session: SessionView,
    has_mutation_artifacts: bool,
    workspace_id: Seq<char>,
    execution_id: Seq<char>,
    observations: Seq<IntentFileObservationV1View>,
) -> Result<IntentLayerMaterializationV1View, Seq<char>> {
    match session.durable_records {
        None => Err("Intent layer materialization requires a durable session"@),
        Some(records) => if !has_mutation_artifacts {
            Err("Intent layer materialization requires mutation artifacts"@)
        } else {
            match stack_of(records) {
                Err(m) => Err(m),
                Ok(admission) => match latest_accepted(admission) {
                    None => Err("Intent layer materialization requires an accepted IntentPlan"@),
                    Some(accepted) => if workspace_id != accepted.plan.workspace_id {
                        Err("Intent layer workspace identity does not match the accepted plan"@)
                    } else {
                        match lineage_of(records, admission, session.tasks) {
                            Err(m) => Err(m),
                            Ok(lineage) => match layers_of(records, admission, lineage) {
                                Err(m) => Err(m),
                                Ok(layers) => match layer_with(layers, execution_id) {
                                    Some(l) => Ok(
                                        existing_outcome(
                                            execution_id,
                                            l.layer_manifest.manifest_digest,
                                        ),
                                    ),
                                    None => match execution_with(lineage, execution_id) {
                                        None => Err("Intent layer references an unknown execution"@),
                                        Some(x) => if x.stack_version != accepted.plan.stack_version
                                            || !plan_refs(accepted.plan).contains(
                                            x.binding.intent_ref,
                                        ) {
                                            Err(
                                                "Intent layer materialization cannot use superseded execution authority"@,
                                            )
                                        } else {
                                            materialized_execution(
                                                records,
                                                x,
                                                workspace_id,
                                                execution_id,
                                                observations,
                                            )
                                        },
                                    },
                                },
                            },
                        }
                    },
                },
            }
        },
    }
}

fn settle_read_only(execution_id: &IntentExecutionId, reason: IntentLayerReadOnlyReasonV1) -> (r:
    IntentLayerMaterializationV1)
    ensures
        r.deep_view() == read_only_outcome(execution_id.deep_view(), reason),
{
    IntentLayerMaterializationV1::Settled(
        IntentLayerMaterializationOutcomeV1 {
            appended: false,
            execution_id: execution_id.duplicate(),
            manifest_digest: None,
            read_only_reason: Some(reason),
        },
    )
}

fn materialize_execution(
    records: &Vec<SessionStreamRecord>,
    execution: &IntentExecutionLineageV1,
    workspace_id: &str,
    execution_id: &IntentExecutionId,
    observations: &Vec<IntentFileObservationV1>,
) -> (r: Result<IntentLayerMaterializationV1, KernelError>)
    ensures
        outcome(r) == materialized_execution(
            records.deep_view(),
            execution.deep_view(),
            workspace_id@,
            execution_id.deep_view(),
            observations.deep_view(),
        ),
{
    let result_snapshot_id = match &execution.parent_snapshot_id {
        Some(id) => id.duplicate(),
        None => {
            return Ok(
                settle_read_only(
                    execution_id,
                    IntentLayerReadOnlyReasonV1::MissingMutationArtifact,
                ),
            );
        },
    };
    if execution.read_only_reason.is_some() || execution.changeset_ids.len() == 0
        || execution.parent_mutation_event_id.is_none() {
        return Ok(
            settle_read_only(execution_id, IntentLayerReadOnlyReasonV1::MissingMutationArtifact),
        );
    }
    validate_layer_facts(records)?;
    if terminal_attempt_sequence(records, execution).is_err() {
        return Ok(
            settle_read_only(execution_id, IntentLayerReadOnlyReasonV1::MissingTerminalAttempt),
        );
    }
    let files = match materialize_execution_files(
        records,
        execution,
        workspace_id,
        observations,
    )? {
        MaterializedFiles::Ready(files) => files,
        MaterializedFiles::ReadOnly(reason) => {
            return Ok(settle_read_only(execution_id, reason));
        },
    };
    let base = base_snapshot_id(records, execution, workspace_id, None)?;
    Ok(
        IntentLayerMaterializationV1::Draft(
            IntentLayerDraftV1 {
                workspace_id: workspace_id.to_owned(),
                intent_ref: execution.binding.intent_ref.duplicate(),
                execution_id: execution_id.duplicate(),
                execution_origin: execution.binding.origin.duplicate(),
                base_snapshot_id: base,
                result_snapshot_id,
                changeset_ids: execution.changeset_ids.duplicate(),
                files,
            },
        ),
    )
}

/// The plain paths of the first `n` files of a change set.
pub open spec fn plain_paths(files: Seq<ChangeSetFileView>, n: int) -> Seq<Seq<char>>
    decreases n,
{
    if n <= 0 {
        Seq::empty()
    } else if is_plain_relative_path(files[n - 1].path) {
        plain_paths(files, n - 1).push(files[n - 1].path)
    } else {
        plain_paths(files, n - 1)
    }
}

/// The plain paths of the files of the first `n` change sets of an execution.
pub open spec fn paths_of_sets(
    records: Seq<SessionStreamRecordView>,
    ids: Seq<Seq<char>>,
    n: int,
) -> Seq<Seq<char>>
    decreases n,
{
    if n <= 0 {
        Seq::empty()
    } else {
        let before = paths_of_sets(records, ids, n - 1);
        match proposal(records, ids[n - 1]) {
            None => before,
            Some(c) => before + plain_paths(c.files, c.files.len() as int),
        }
    }
}

/// Finds the files that have to be looked at when the layer of an execution is materialized. A path
/// that may lead out of the workspace is none of them.
pub fn paths_to_observe(
    records: &Vec<SessionStreamRecord>,
    execution: &IntentExecutionLineageV1,
) -> (r: Vec<String>)
    ensures
        r.deep_view() == paths_of_sets(
            records.deep_view(),
            execution.deep_view().changeset_ids,
            execution.changeset_ids.len() as int,
        ),
{
    let ghost rv = records.deep_view();
    let ghost iv = execution.deep_view().changeset_ids;
    let ids = &execution.changeset_ids;
    let mut r: Vec<String> = Vec::new();
    let mut i: usize = 0;
    assert(r.deep_view() =~= Seq::empty());
    while i < ids.len()
        invariant
            i <= ids.len(),
            rv == records.deep_view(),
            iv == ids.deep_view(),
            r.deep_view() == paths_of_sets(rv, iv, i as int),
        decreases ids.len() - i,
    {
        assert(iv[i as int] == ids@[i as int]@);
        let ghost before = r.deep_view();
        if let Some(c) = find_proposal(records, ids[i].as_str()) {
            let ghost fv = c.files.deep_view();
            let mut k: usize = 0;
            assert(before + plain_paths(fv, 0) =~= before);
            while k < c.files.len()
                invariant
                    k <= c.files.len(),
                    fv == c.files.deep_view(),
                    r.deep_view() == before + plain_paths(fv, k as int),
                decreases c.files.len() - k,
            {
                assert(fv[k as int] == c.files@[k as int].deep_view());
                if plain_relative_path(c.files[k].path.as_str()) {
                    let ghost had = r;
                    let path = c.files[k].path.duplicate();
                    r.push(path);
                    proof {
                        lemma_push_view(had, path, r);
                        assert(r.deep_view() =~= before + plain_paths(fv, k + 1));
                    }
                }
                k = k + 1;
            }
        }
        i = i + 1;
    }
    r
}

/// Materializes the layer of one execution of a workspace, from the durable stream and from what was
/// found of its files. A draft still needs its artifacts stored: its patches, then its hunks, then its
/// artifact manifest.
pub fn materialize_intent_layer(
    session: &Session,
    has_mutation_artifacts: bool,
    workspace_id: &str,
    execution_id: &IntentExecutionId,
    observations: &Vec<IntentFileObservationV1>,
) -> (r: Result<IntentLayerMaterializationV1, KernelError>)
    ensures
        outcome(r) == materialization(
            session.deep_view(),
            has_mutation_artifacts,
            workspace_id@,
            execution_id.deep_view(),
            observations.deep_view(),
        ),
{
    let records = match &session.durable_records {
        None => {
            return Err(KernelError::new("Intent layer materialization requires a durable session"));
        },
        Some(records) => records,
    };
    if !has_mutation_artifacts {
        return Err(
            KernelError::new("Intent layer materialization requires mutation artifacts"),
        );
    }
    let admission = IntentStackProjectionV1::from_records(records)?;
    let accepted = match admission.latest_accepted_plan() {
        None => {
            return Err(
                KernelError::new("Intent layer materialization requires an accepted IntentPlan"),
            );
        },
        Some(accepted) => accepted,
    };
    if !same_text(workspace_id, accepted.plan.workspace_id.as_str()) {
        return Err(
            KernelError::new("Intent layer workspace identity does not match the accepted plan"),
        );
    }
    let lineage = IntentLineageProjectionV1::from_records(records, &admission, &session.tasks)?;
    let layers = IntentLayerProjectionV1::from_records(records, &admission, &lineage)?;
    if let Some(existing) = layers.layer(execution_id) {
        return Ok(
            IntentLayerMaterializationV1::Settled(
                IntentLayerMaterializationOutcomeV1 {
                    appended: false,
                    execution_id: execution_id.duplicate(),
                    manifest_digest: Some(
                        existing.layer_manifest.manifest_digest.as_str().to_owned(),
                    ),
                    read_only_reason: None,
                },
            ),
        );
    }
    let execution = match lineage.execution(execution_id) {
        None => {
            return Err(KernelError::new("Intent layer references an unknown execution"));
        },
        Some(x) => x,
    };
    if !execution.stack_version.same(&accepted.plan.stack_version) || !plan_holds(
        &accepted.plan,
        &execution.binding.intent_ref,
    ) {
        return Err(
            KernelError::new(
                "Intent layer materialization cannot use superseded execution authority",
            ),
        );
    }
    materialize_execution(records, execution, workspace_id, execution_id, observations)
}

// From the draft to the manifests.

/// The core of a layer whose patches are stored.
pub open spec fn core_of(d: IntentLayerDraftV1View, forward: Seq<char>, reverse: Seq<char>) -> IntentLayerCoreV1View {
    let bare = IntentLayerCoreV1View {
        schema_version: INTENT_CONTRACT_SCHEMA_VERSION,
        intent_ref: d.intent_ref,
        execution_id: d.execution_id,
        execution_origin: d.execution_origin,
        base_snapshot_id: d.base_snapshot_id,
        result_snapshot_id: d.result_snapshot_id,
        changeset_ids: d.changeset_ids,
        operation_ids: Seq::empty(),
        forward_patch_artifact_id: forward,
        reverse_patch_artifact_id: reverse,
        core_digest: zero_digest_text(),
    };
    IntentLayerCoreV1View { core_digest: core_digest_of(bare), ..bare }
}

/// The binding of the stored hunk of a changed file.
pub open spec fn binding_of(
    d: IntentLayerDraftV1View,
    core_digest: Seq<char>,
    f: MaterializedIntentFileView,
    artifact_id: Seq<char>,
) -> IntentArtifactBindingV1View {
    IntentArtifactBindingV1View {
        artifact_id,
        artifact_kind: IntentArtifactKind::FileHunk,
        subject: BoundedIntentArtifactSubjectV1View::FileHunk {
            normalized_relative_path: f.path,
            before_file_digest: f.before_digest,
            after_file_digest: f.after_digest,
            old_range: f.old_range,
            new_range: f.new_range,
            old_content_digest: f.old_content_digest,
            new_content_digest: f.new_content_digest,
            layer_core_digest: core_digest,
        },
        ownership: IntentArtifactOwnership::Exclusive,
        availability: IntentArtifactAvailability::Available,
        before_digest: Some(f.old_content_digest),
        after_digest: f.new_content_digest,
        provenance: IntentArtifactProvenanceV1View {
            source_event_id: f.source_event_id,
            execution_id: d.execution_id,
            mutation_batch_id: Some(f.mutation_identity),
            changeset_id: Some(f.changeset_id),
            verification_receipt_id: None,
        },
    }
}

/// The bindings of all stored hunks of a draft.
pub open spec fn bindings_of(
    d: IntentLayerDraftV1View,
    core_digest: Seq<char>,
    ids: Seq<Seq<char>>,
) -> Seq<IntentArtifactBindingV1View> {
    Seq::new(d.files.len(), |i: int| binding_of(d, core_digest, d.files[i], ids[i]))
}

/// One binding stands before another: by the path of its file, then by its identity.
pub open spec fn binding_order() -> spec_fn(
    IntentArtifactBindingV1View,
    IntentArtifactBindingV1View,
) -> bool {
    |a: IntentArtifactBindingV1View, b: IntentArtifactBindingV1View|
        precedes(artifact_path_of(a), artifact_path_of(b)) || (artifact_path_of(a)
            == artifact_path_of(b) && precedes(a.artifact_id, b.artifact_id))
}

/// The checks of the identities of stored hunks.
pub open spec fn hunk_id_verdicts(ids: Seq<Seq<char>>) -> Seq<Verdict> {
    Seq::new(ids.len(), |i: int| stable_identity_verdict("intent artifact id"@, ids[i]))
}

/// The artifact manifest of a layer whose hunks are stored.
pub open spec fn artifact_manifest_of(
    d: IntentLayerDraftV1View,
    core_digest: Seq<char>,
    ids: Seq<Seq<char>>,
) -> IntentArtifactManifestV1View {
    let bare = IntentArtifactManifestV1View {
        schema_version: INTENT_CONTRACT_SCHEMA_VERSION,
        intent_ref: d.intent_ref,
        execution_id: d.execution_id,
        layer_core_digest: core_digest,
        artifacts: items_in_order(bindings_of(d, core_digest, ids), binding_order()),
        manifest_digest: zero_digest_text(),
    };
    IntentArtifactManifestV1View { manifest_digest: artifact_manifest_digest_of(bare), ..bare }
}

/// The layer manifest of a layer whose artifact manifest is stored.
pub open spec fn layer_manifest_of(
    core: IntentLayerCoreV1View,
    manifest_id: Seq<char>,
    manifest_digest: Seq<char>,
) -> IntentLayerManifestV1View {
    let bare = IntentLayerManifestV1View {
        schema_version: INTENT_CONTRACT_SCHEMA_VERSION,
        core,
        artifact_manifest_id: manifest_id,
        artifact_manifest_digest: manifest_digest,
        manifest_digest: zero_digest_text(),
    };
    IntentLayerManifestV1View { manifest_digest: layer_manifest_digest_of(bare), ..bare }
}

fn binding_precedes(a: &IntentArtifactBindingV1, b: &IntentArtifactBindingV1) -> (r: bool)
    ensures
        r == binding_order()(a.deep_view(), b.deep_view()),
{
    let pa = artifact_path(a);
    let pb = artifact_path(b);
    text_precedes(pa.as_str(), pb.as_str()) || (pa == pb && text_precedes(
        a.artifact_id.as_str(),
        b.artifact_id.as_str(),
    ))
}

impl IntentLayerDraftV1 {
    /// The identity under which the artifacts of the layer are stored.
    pub fn operation_id(&self) -> (r: String)
        ensures
            r@ == "intent-layer-"@ + self.deep_view().execution_id,
    {
        joined("intent-layer-", self.execution_id.as_str())
    }

    /// The patch that makes the change.
    pub fn forward_patch(&self) -> (r: Result<Vec<u8>, KernelError>)
        ensures
            match encoded_patch(self.deep_view().files, PatchDirection::Forward) {
                Ok(bytes) => r matches Ok(v) && v@ == bytes,
                Err(m) => r matches Err(e) && e.deep_view() == m,
            },
    {
        encode_patch(&self.files, PatchDirection::Forward)
    }

    /// The patch that takes the change back.
    pub fn reverse_patch(&self) -> (r: Result<Vec<u8>, KernelError>)
        ensures
            match encoded_patch(self.deep_view().files, PatchDirection::Reverse) {
                Ok(bytes) => r matches Ok(v) && v@ == bytes,
                Err(m) => r matches Err(e) && e.deep_view() == m,
            },
    {
        encode_patch(&self.files, PatchDirection::Reverse)
    }

    /// The core of the layer, once both patches are stored.
    pub fn layer_core(&self, forward_patch_artifact_id: &str, reverse_patch_artifact_id: &str) -> (r:
        IntentLayerCoreV1)
        ensures
            r.deep_view() == core_of(
                self.deep_view(),
                forward_patch_artifact_id@,
                reverse_patch_artifact_id@,
            ),
    {
        let mut core = IntentLayerCoreV1 {
            schema_version: INTENT_CONTRACT_SCHEMA_VERSION,
            intent_ref: self.intent_ref.duplicate(),
            execution_id: self.execution_id.duplicate(),
            execution_origin: self.execution_origin.duplicate(),
            base_snapshot_id: self.base_snapshot_id.duplicate(),
            result_snapshot_id: self.result_snapshot_id.duplicate(),
            changeset_ids: self.changeset_ids.duplicate(),
            operation_ids: Vec::new(),
            forward_patch_artifact_id: forward_patch_artifact_id.to_owned(),
            reverse_patch_artifact_id: reverse_patch_artifact_id.to_owned(),
            core_digest: IntentDigest::zero(),
        };
        assert(core.deep_view().operation_ids =~= Seq::empty());
        let digest = core.computed_digest();
        match digest {
            Ok(d) => {
                core.core_digest = d;
            },
            Err(_) => {
                assert(false);
            },
        }
        core
    }

    /// The hunk of the file at `i`.
    pub fn hunk(&self, i: usize, core_digest: &IntentDigest) -> (r: Vec<u8>)
        requires
            i < self.files.len(),
        ensures
            r@ == hunk_bytes(self.deep_view().files[i as int], core_digest.deep_view()),
    {
        assert(self.deep_view().files[i as int] == self.files@[i as int].deep_view());
        encode_hunk(&self.files[i], core_digest)
    }

    fn binding(&self, core_digest: &IntentDigest, f: &MaterializedIntentFile, id: IntentArtifactId) -> (r:
        IntentArtifactBindingV1)
        ensures
            r.deep_view() == binding_of(
                self.deep_view(),
                core_digest.deep_view(),
                f.deep_view(),
                id.deep_view(),
            ),
    {
        IntentArtifactBindingV1 {
            artifact_id: id,
            artifact_kind: IntentArtifactKind::FileHunk,
            subject: BoundedIntentArtifactSubjectV1::FileHunk {
                normalized_relative_path: f.path.duplicate(),
                before_file_digest: f.before_digest.duplicate(),
                after_file_digest: f.after_digest.duplicate(),
                old_range: f.old_range.duplicate(),
                new_range: f.new_range.duplicate(),
                old_content_digest: f.old_content_digest.duplicate(),
                new_content_digest: f.new_content_digest.duplicate(),
                layer_core_digest: core_digest.duplicate(),
            },
            ownership: IntentArtifactOwnership::Exclusive,
            availability: IntentArtifactAvailability::Available,
            before_digest: Some(f.old_content_digest.duplicate()),
            after_digest: f.new_content_digest.duplicate(),
            provenance: IntentArtifactProvenanceV1 {
                source_event_id: f.source_event_id.duplicate(),
                execution_id: self.execution_id.duplicate(),
                mutation_batch_id: Some(f.mutation_identity.duplicate()),
                changeset_id: Some(f.changeset_id.duplicate()),
                verification_receipt_id: None,
            },
        }
    }

    fn bindings(&self, core_digest: &IntentDigest, hunk_ids: &Vec<String>) -> (r: Result<
        Vec<IntentArtifactBindingV1>,
        KernelError,
    >)
        requires
            hunk_ids.len() == self.files.len(),
        ensures
            outcome(r) == yields(
                first_failure(hunk_id_verdicts(hunk_ids.deep_view())),
                bindings_of(self.deep_view(), core_digest.deep_view(), hunk_ids.deep_view()),
            ),
    {
        let ghost v = self.deep_view();
        let ghost ids = hunk_ids.deep_view();
        let ghost all = hunk_id_verdicts(ids);
        let ghost expected = bindings_of(v, core_digest.deep_view(), ids);
        let mut r: Vec<IntentArtifactBindingV1> = Vec::new();
        let mut i: usize = 0;
        proof {
            lemma_failures_begin(all);
        }
        while i < self.files.len()
            invariant
                i <= self.files.len(),
                hunk_ids.len() == self.files.len(),
                v == self.deep_view(),
                ids == hunk_ids.deep_view(),
                all == hunk_id_verdicts(ids),
                expected == bindings_of(v, core_digest.deep_view(), ids),
                first_failure(all) == first_failure(all.skip(i as int)),
                r.deep_view() =~= expected.take(i as int),
            decreases self.files.len() - i,
        {
            proof {
                lemma_failures_step(all, i as int);
                assert(ids[i as int] == hunk_ids@[i as int]@);
                assert(v.files[i as int] == self.files@[i as int].deep_view());
            }
            let id = IntentArtifactId::new(hunk_ids[i].duplicate())?;
            let b = self.binding(core_digest, &self.files[i], id);
            let ghost had = r;
            r.push(b);
            proof {
                lemma_push_view(had, b, r);
            }
            i = i + 1;
        }
        proof {
            lemma_failures_end(all);
        }
        assert(r.deep_view() =~= expected);
        Ok(r)
    }

    /// The artifact manifest of the layer, once its hunks are stored: the bindings of the hunks in the
    /// order of their paths.
    pub fn artifact_manifest(&self, core: &IntentLayerCoreV1, hunk_ids: &Vec<String>) -> (r: Result<
        IntentArtifactManifestV1,
        KernelError,
    >)
        requires
            hunk_ids.len() == self.files.len(),
        ensures
            outcome(r) == yields(
                first_failure(hunk_id_verdicts(hunk_ids.deep_view())),
                artifact_manifest_of(
                    self.deep_view(),
                    core.deep_view().core_digest,
                    hunk_ids.deep_view(),
                ),
            ),
    {
        let bindings = self.bindings(&core.core_digest, hunk_ids)?;
        let ghost p = binding_order();
        let artifacts = sort_items(
            &bindings,
            |a: &IntentArtifactBindingV1, b: &IntentArtifactBindingV1| -> (o: bool)
                ensures
                    o == p(a.deep_view(), b.deep_view())
                { binding_precedes(a, b) },
            Ghost(p),
        );
        let mut manifest = IntentArtifactManifestV1 {
            schema_version: INTENT_CONTRACT_SCHEMA_VERSION,
            intent_ref: self.intent_ref.duplicate(),
            execution_id: self.execution_id.duplicate(),
            layer_core_digest: core.core_digest.duplicate(),
            artifacts,
            manifest_digest: IntentDigest::zero(),
        };
        let digest = manifest.computed_digest()?;
        manifest.manifest_digest = digest;
        Ok(manifest)
    }

    /// The layer manifest, once the artifact manifest is stored.
    pub fn layer_manifest(
        &self,
        core: IntentLayerCoreV1,
        artifact_manifest_id: &str,
        artifact_manifest: &IntentArtifactManifestV1,
    ) -> (r: IntentLayerManifestV1)
        ensures
            r.deep_view() == layer_manifest_of(
                core.deep_view(),
                artifact_manifest_id@,
                artifact_manifest.deep_view().manifest_digest,
            ),
    {
        let mut manifest = IntentLayerManifestV1 {
            schema_version: INTENT_CONTRACT_SCHEMA_VERSION,
            core,
            artifact_manifest_id: artifact_manifest_id.to_owned(),
            artifact_manifest_digest: artifact_manifest.manifest_digest.duplicate(),
            manifest_digest: IntentDigest::zero(),
        };
        match manifest.computed_digest() {
            Ok(d) => {
                manifest.manifest_digest = d;
            },
            Err(_) => {
                assert(false);
            },
        }
        manifest
    }
}

// The append.

/// The event that records an artifact manifest.
pub open spec fn artifact_event(m: IntentArtifactManifestV1View) -> IntentEventV1View {
    IntentEventV1View::ArtifactBindingsRecorded {
        schema_version: INTENT_CONTRACT_SCHEMA_VERSION,
        manifest: m,
    }
}

/// The event that records a layer manifest.
pub open spec fn layer_event(m: IntentLayerManifestV1View) -> IntentEventV1View {
    IntentEventV1View::LayerManifestRecorded {
        schema_version: INTENT_CONTRACT_SCHEMA_VERSION,
        manifest: m,
    }
}

/// What is appended for a layer: both events, next to each other, or nothing where the very same layer
/// is there already.
pub open spec fn layer_append(
    session: SessionView,
    artifacts: IntentArtifactManifestV1View,
    layer: IntentLayerManifestV1View,
) -> Result<IntentLayerAppendV1View, Seq<char>> {
    let id = layer.core.execution_id;
    match chain(event_verdict(artifact_event(artifacts)), event_verdict(layer_event(layer))) {
        Err(m) => Err(m),
        Ok(_) => match session.durable_records {
            None => Err("Intent layer materialization requires a durable session"@),
            Some(records) => match stack_of(records) {
                Err(m) => Err(m),
                Ok(admission) => match lineage_of(records, admission, session.tasks) {
                    Err(m) => Err(m),
                    Ok(lineage) => match layers_of(records, admission, lineage) {
                        Err(m) => Err(m),
                        Ok(layers) => match layer_with(layers, id) {
                            Some(l) => if l.artifact_manifest != artifacts || l.layer_manifest
                                != layer {
                                Err("Intent execution already has a conflicting layer"@)
                            } else {
                                Ok(pair_append(artifacts, layer, false))
                            },
                            None => match execution_with(lineage, id) {
                                None => Err("Intent layer execution disappeared before append"@),
                                Some(x) => yields(
                                    manifest_lineage_verdict(artifacts, x),
                                    pair_append(artifacts, layer, true),
                                ),
                            },
                        },
                    },
                },
            },
        },
    }
}

/// The events of a layer, if they are to be appended, and what is reported of it.
pub open spec fn pair_append(
    artifacts: IntentArtifactManifestV1View,
    layer: IntentLayerManifestV1View,
    appended: bool,
) -> IntentLayerAppendV1View {
    IntentLayerAppendV1View {
        events: if appended {
            seq![artifact_event(artifacts), layer_event(layer)]
        } else {
            Seq::empty()
        },
        outcome: IntentLayerMaterializationOutcomeV1View {
            appended,
            execution_id: layer.core.execution_id,
            manifest_digest: Some(layer.manifest_digest),
            read_only_reason: None,
        },
    }
}

/// Decides what is appended for a layer whose artifacts are all stored.
#[verifier::rlimit(40)]
pub fn append_layer_pair(
    session: &Session,
    artifact_manifest: IntentArtifactManifestV1,
    layer_manifest: IntentLayerManifestV1,
) -> (r: Result<IntentLayerAppendV1, KernelError>)
    ensures
        outcome(r) == layer_append(
            session.deep_view(),
            artifact_manifest.deep_view(),
            layer_manifest.deep_view(),
        ),
{
    let artifacts = IntentEventV1::ArtifactBindingsRecorded {
        schema_version: INTENT_CONTRACT_SCHEMA_VERSION,
        manifest: artifact_manifest.duplicate(),
    };
    let layer = IntentEventV1::LayerManifestRecorded {
        schema_version: INTENT_CONTRACT_SCHEMA_VERSION,
        manifest: layer_manifest.duplicate(),
    };
    assert(artifacts.deep_view() == artifact_event(artifact_manifest.deep_view()));
    assert(layer.deep_view() == layer_event(layer_manifest.deep_view()));
    artifacts.validate_contract()?;
    layer.validate_contract()?;
    let records = match &session.durable_records {
        None => {
            return Err(KernelError::new("Intent layer materialization requires a durable session"));
        },
        Some(records) => records,
    };
    let admission = IntentStackProjectionV1::from_records(records)?;
    let lineage = IntentLineageProjectionV1::from_records(records, &admission, &session.tasks)?;
    let layers = IntentLayerProjectionV1::from_records(records, &admission, &lineage)?;
    let execution_id = &layer_manifest.core.execution_id;
    let mut events: Vec<IntentEventV1> = Vec::new();
    let mut appended = false;
    if let Some(existing) = layers.layer(execution_id) {
        if !existing.artifact_manifest.same(&artifact_manifest) || !existing.layer_manifest.same(
            &layer_manifest,
        ) {
            return Err(KernelError::new("Intent execution already has a conflicting layer"));
        }
        assert(events.deep_view() =~= Seq::empty());
    } else {
        let execution = match lineage.execution(execution_id) {
            None => {
                return Err(
                    KernelError::new("Intent layer execution disappeared before append"),
                );
            },
            Some(x) => x,
        };
        validate_artifact_manifest_lineage(&artifact_manifest, execution)?;
        let ghost a = artifacts.deep_view();
        let ghost l = layer.deep_view();
        events.push(artifacts);
        events.push(layer);
        appended = true;
        assert(events.deep_view() =~= seq![a, l]);
    }
    Ok(
        IntentLayerAppendV1 {
            events,
            outcome: IntentLayerMaterializationOutcomeV1 {
                appended,
                execution_id: execution_id.duplicate(),
                manifest_digest: Some(layer_manifest.manifest_digest.as_str().to_owned()),
                read_only_reason: None,
            },
        },
    )
}

// Laws.

/// A layer that is there already is not materialized again.
pub proof fn law_existing_layers_are_settled(
    session: SessionView,
    has_mutation_artifacts: bool,
    workspace_id: Seq<char>,
    execution_id: Seq<char>,
    observations: Seq<IntentFileObservationV1View>,
    layers: IntentLayerProjectionV1View,
    l: IntentLayerStateV1View,
)
    requires
        session_layers(session, None) == Ok::<IntentLayerProjectionV1View, Seq<char>>(layers),
        layer_with(layers, execution_id) == Some(l),
        materialization(session, has_mutation_artifacts, workspace_id, execution_id, observations) is Ok,
    ensures
        materialization(session, has_mutation_artifacts, workspace_id, execution_id, observations) == Ok::<
            IntentLayerMaterializationV1View,
            Seq<char>,
        >(existing_outcome(execution_id, l.layer_manifest.manifest_digest)),
{
}

/// The very same layer is not appended twice, and another layer of its execution is refused.
pub proof fn law_layers_are_appended_once(
    session: SessionView,
    layers: IntentLayerProjectionV1View,
    l: IntentLayerStateV1View,
    artifacts: IntentArtifactManifestV1View,
    layer: IntentLayerManifestV1View,
)
    requires
        session_layers(session, None) == Ok::<IntentLayerProjectionV1View, Seq<char>>(layers),
        layer_with(layers, layer.core.execution_id) == Some(l),
        layer_append(session, artifacts, layer) is Ok,
    ensures
        layer_append(session, artifacts, layer)->Ok_0.events.len() == 0,
        artifacts == l.artifact_manifest,
        layer == l.layer_manifest,
{
}

/// A draft holds only exact changes: of every file the contents before and after are text with the
/// digests that the change names, and they are not the same.
pub proof fn law_drafted_changes_are_exact(
    records: Seq<SessionStreamRecordView>,
    x: IntentExecutionLineageV1View,
    workspace_id: Seq<char>,
    changeset_id: Seq<char>,
    result: ChangeSetResultView,
    file: ChangeSetFileView,
    o: IntentFileObservationV1View,
    f: MaterializedIntentFileView,
)
    requires
        observed_change(records, x, workspace_id, changeset_id, result, file, o) == Step::Goes(f),
    ensures
        f.path == file.path,
        is_text(f.before),
        is_text(f.after),
        has_digest(f.before, file.before_hash),
        has_digest(f.after, file.after_hash),
        bytes_or_none(f.before) != bytes_or_none(f.after),
        f.before_digest == content_digest_of(bytes_or_none(f.before)),
        f.after_digest == content_digest_of(bytes_or_none(f.after)),
        !o.sensitive_path,
        !(f.before is Some && o.secret_before),
        !(f.after is Some && o.secret_after),
{
    reveal(observed_change);
}

/// The digests that a draft gives its core and its manifests are the ones that their contracts ask
/// for.
pub proof fn law_drafted_digests_match(
    d: IntentLayerDraftV1View,
    forward: Seq<char>,
    reverse: Seq<char>,
    ids: Seq<Seq<char>>,
    manifest_id: Seq<char>,
)
    ensures
        ({
            let core = core_of(d, forward, reverse);
            let artifacts = artifact_manifest_of(d, core.core_digest, ids);
            let layer = layer_manifest_of(core, manifest_id, artifacts.manifest_digest);
            &&& core.core_digest == core_digest_of(core)
            &&& artifacts.manifest_digest == artifact_manifest_digest_of(artifacts)
            &&& artifacts.layer_core_digest == core.core_digest
            &&& layer.manifest_digest == layer_manifest_digest_of(layer)
            &&& layer.artifact_manifest_digest == artifacts.manifest_digest
        }),
{
    reveal(core_digest_of);
    reveal(artifact_manifest_digest_of);
    reveal(layer_manifest_digest_of);
}

/// Every record stands before a place of the stream.
pub open spec fn all_before(records: Seq<SessionStreamRecordView>, sequence: u64) -> bool {
    forall|i: int| 0 <= i < records.len() ==> (#[trigger] records[i]).stream_sequence < sequence
}

/// The change set names the contents of a changed file by their very digests, and only where there are
/// contents.
pub open spec fn names_exactly(file: ChangeSetFileView, f: MaterializedIntentFileView) -> bool {
    &&& file.before_hash matches Some(h) ==> h == f.before_digest
    &&& file.after_hash matches Some(h) ==> h == f.after_digest
    &&& file.action == ChangeSetFileAction::Create ==> file.before_hash is None
}

/// A changed file of a draft is named exactly by its change set.
pub open spec fn is_named_exactly(records: Seq<SessionStreamRecordView>) -> spec_fn(
    MaterializedIntentFileView,
) -> bool {
    |f: MaterializedIntentFileView|
        proposal(records, f.changeset_id) matches Some(c) ==> (find_key::<ChangeSetFile>(
            c.files,
            f.path,
        ) matches Some(k) ==> names_exactly(c.files[k], f))
}

/// The changed file is one that a replay finds again: its change set was applied, and its mutation is
/// the one that the stream tells.
spec fn is_evident(
    records: Seq<SessionStreamRecordView>,
    x: IntentExecutionLineageV1View,
    workspace_id: Seq<char>,
    f: MaterializedIntentFileView,
) -> bool {
    &&& x.changeset_ids.contains(f.changeset_id)
    &&& proposal(records, f.changeset_id) matches Some(c)
    &&& change_result(records, f.changeset_id) matches Some(result)
    &&& result.status == ChangeSetResultStatus::Applied
    &&& find_key::<ChangeSetFile>(c.files, f.path) matches Some(k)
    &&& file_is_applied(result, c.files[k])
    &&& names_exactly(c.files[k], f) ==> hashes_match(c.files[k], f.before_digest, f.after_digest)
    &&& mutation_pair(records, x, workspace_id, c.files[k]) matches Some(pair)
    &&& records[pair.1].event_id == f.source_event_id
    &&& mutation_identity(prepared_in(records[pair.0])->0) == f.mutation_identity
}

proof fn lemma_observed_change_is_evident(
    records: Seq<SessionStreamRecordView>,
    x: IntentExecutionLineageV1View,
    workspace_id: Seq<char>,
    changeset_id: Seq<char>,
    result: ChangeSetResultView,
    file: ChangeSetFileView,
    o: IntentFileObservationV1View,
    f: MaterializedIntentFileView,
)
    requires
        observed_change(records, x, workspace_id, changeset_id, result, file, o) == Step::Goes(f),
        file.action != ChangeSetFileAction::Rename,
    ensures
        f.path == file.path,
        f.changeset_id == changeset_id,
        file_is_applied(result, file),
        names_exactly(file, f) ==> hashes_match(file, f.before_digest, f.after_digest),
        mutation_pair(records, x, workspace_id, file) matches Some(pair)
            && records[pair.1].event_id == f.source_event_id && mutation_identity(
            prepared_in(records[pair.0])->0,
        ) == f.mutation_identity,
{
    reveal(observed_change);
}

/// The changes of files stand behind others, each with the path of its file, and no path occurs twice.
proof fn lemma_file_changes(
    records: Seq<SessionStreamRecordView>,
    x: IntentExecutionLineageV1View,
    workspace_id: Seq<char>,
    observations: Seq<IntentFileObservationV1View>,
    changeset_id: Seq<char>,
    result: ChangeSetResultView,
    files: Seq<ChangeSetFileView>,
    n: int,
    others: Seq<MaterializedIntentFileView>,
    list: Seq<MaterializedIntentFileView>,
)
    requires
        0 <= n <= files.len(),
        distinct(changed_paths(others)),
        file_changes(
            records,
            x,
            workspace_id,
            observations,
            changeset_id,
            result,
            files,
            n,
            others,
        ) == Step::Goes(list),
    ensures
        list.len() == others.len() + n,
        forall|i: int| 0 <= i < others.len() ==> #[trigger] list[i] == others[i],
        forall|j: int| 0 <= j < n ==> list[others.len() + j].path == (#[trigger] files[j]).path,
        distinct(changed_paths(list)),
        set_paths(files, n, changed_paths(others)) == Ok::<_, Seq<char>>(changed_paths(list)),
        forall|j: int| #![trigger files[j]]
            0 <= j < n ==> {
                let f = list[others.len() + j];
                &&& f.changeset_id == changeset_id
                &&& file_is_applied(result, files[j])
                &&& names_exactly(files[j], f) ==> hashes_match(
                    files[j],
                    f.before_digest,
                    f.after_digest,
                )
                &&& mutation_pair(records, x, workspace_id, files[j]) matches Some(pair)
                &&& records[pair.1].event_id == f.source_event_id
                &&& mutation_identity(prepared_in(records[pair.0])->0) == f.mutation_identity
            },
    decreases n,
{
    if n > 0 {
        let before = file_changes(
            records,
            x,
            workspace_id,
            observations,
            changeset_id,
            result,
            files,
            n - 1,
            others,
        )->Goes_0;
        lemma_file_changes(
            records,
            x,
            workspace_id,
            observations,
            changeset_id,
            result,
            files,
            n - 1,
            others,
            before,
        );
        let file = files[n - 1];
        let k = find_key::<IntentFileObservationV1>(observations, file.path)->0;
        let f = list.last();
        lemma_observed_change_is_evident(
            records,
            x,
            workspace_id,
            changeset_id,
            result,
            file,
            observations[k],
            f,
        );
        assert(list =~= before.push(f));
        let old_paths = changed_paths(before);
        let paths = changed_paths(list);
        assert(paths =~= old_paths.push(file.path));
        assert forall|i: int, j: int| 0 <= i < j < paths.len() implies #[trigger] paths[i]
            != #[trigger] paths[j] by {
            assert(paths[i] == old_paths[i]);
            if j < old_paths.len() {
                assert(paths[j] == old_paths[j]);
            } else if paths[i] == paths[j] {
                assert(old_paths.contains(file.path));
            }
        }
    } else {
        assert(list =~= others);
    }
}

proof fn lemma_distinct_files(files: Seq<ChangeSetFileView>, paths: Seq<Seq<char>>, at: int, j: int)
    requires
        0 <= at,
        at + files.len() <= paths.len(),
        distinct(paths),
        forall|i: int| 0 <= i < files.len() ==> paths[at + i] == (#[trigger] files[i]).path,
        0 <= j < files.len(),
    ensures
        find_key::<ChangeSetFile>(files, files[j].path) == Some(j),
{
    let path = files[j].path;
    lemma_find_key::<ChangeSetFile>(files, path);
    assert forall|i: int| 0 <= i < j implies (#[trigger] files[i]).path != path by {
        assert(paths[at + i] != paths[at + j]);
    }
}

proof fn lemma_set_changes(
    records: Seq<SessionStreamRecordView>,
    x: IntentExecutionLineageV1View,
    workspace_id: Seq<char>,
    observations: Seq<IntentFileObservationV1View>,
    n: int,
    list: Seq<MaterializedIntentFileView>,
)
    requires
        0 <= n <= x.changeset_ids.len(),
        set_changes(records, x, workspace_id, observations, n) == Step::Goes(list),
    ensures
        distinct(changed_paths(list)),
        execution_paths(records, x.changeset_ids, n) == Ok::<_, Seq<char>>(changed_paths(list)),
        forall|i: int|
            0 <= i < list.len() ==> is_evident(records, x, workspace_id, #[trigger] list[i]),
    decreases n,
{
    if n > 0 {
        let before = set_changes(records, x, workspace_id, observations, n - 1)->Goes_0;
        lemma_set_changes(records, x, workspace_id, observations, n - 1, before);
        let id = x.changeset_ids[n - 1];
        let c = proposal(records, id)->0;
        let result = change_result(records, id)->0;
        let m = c.files.len() as int;
        lemma_file_changes(
            records,
            x,
            workspace_id,
            observations,
            id,
            result,
            c.files,
            m,
            before,
            list,
        );
        let paths = changed_paths(list);
        let at = before.len() as int;
        assert(x.changeset_ids.contains(id));
        assert forall|i: int| 0 <= i < list.len() implies is_evident(
            records,
            x,
            workspace_id,
            #[trigger] list[i],
        ) by {
            if i < at {
                assert(list[i] == before[i]);
            } else {
                let j = i - at;
                assert(list[at + j].path == c.files[j].path);
                assert forall|h: int| 0 <= h < c.files.len() implies paths[at + h] == (
                #[trigger] c.files[h]).path by {
                    assert(list[at + h].path == c.files[h].path);
                }
                lemma_distinct_files(c.files, paths, at, j);
            }
        }
    } else {
        assert(changed_paths(list) =~= Seq::empty());
    }
}

/// The evidence of a changed file is what a replay asks of the artifact that is bound to it.
proof fn lemma_hunk_is_accepted(
    records: Seq<SessionStreamRecordView>,
    x: IntentExecutionLineageV1View,
    workspace_id: Seq<char>,
    d: IntentLayerDraftV1View,
    core_digest: Seq<char>,
    f: MaterializedIntentFileView,
    id: Seq<char>,
    artifact_sequence: u64,
    layer_sequence: u64,
)
    requires
        is_evident(records, x, workspace_id, f),
        is_named_exactly(records)(f),
        all_before(records, artifact_sequence),
        artifact_sequence < layer_sequence,
    ensures
        hunk_verdict(
            records,
            x,
            workspace_id,
            artifact_sequence,
            layer_sequence,
            binding_of(d, core_digest, f, id),
            f.before_digest,
            f.after_digest,
        ) is Ok,
{
    let c = proposal(records, f.changeset_id)->0;
    let k = find_key::<ChangeSetFile>(c.files, f.path)->0;
    lemma_first_where(records, proposes(f.changeset_id));
    lemma_first_where(records, settles(f.changeset_id));
    lemma_mutation_pair(records, x, workspace_id, c.files[k]);
}

proof fn lemma_same_first<A>(s: Seq<A>, p: spec_fn(A) -> bool, q: spec_fn(A) -> bool)
    requires
        forall|i: int| 0 <= i < s.len() ==> p(#[trigger] s[i]) == q(s[i]),
    ensures
        first_where(s, p) == first_where(s, q),
{
    lemma_first_where(s, p);
    lemma_first_where(s, q);
}

proof fn lemma_touched_files_before(
    records: Seq<SessionStreamRecordView>,
    x: IntentExecutionLineageV1View,
    workspace_id: Seq<char>,
    end: u64,
    files: Seq<ChangeSetFileView>,
    n: int,
    others: Seq<TouchedFileBaseV1View>,
)
    requires
        all_before(records, end),
    ensures
        touched_files(records, x, workspace_id, Some(end), files, n, others) == touched_files(
            records,
            x,
            workspace_id,
            None,
            files,
            n,
            others,
        ),
    decreases n,
{
    if n > 0 {
        lemma_touched_files_before(records, x, workspace_id, end, files, n - 1, others);
        lemma_mutation_pair(records, x, workspace_id, files[n - 1]);
    }
}

proof fn lemma_touched_sets_before(
    records: Seq<SessionStreamRecordView>,
    x: IntentExecutionLineageV1View,
    workspace_id: Seq<char>,
    end: u64,
    n: int,
)
    requires
        all_before(records, end),
    ensures
        touched_sets(records, x, workspace_id, Some(end), n) == touched_sets(
            records,
            x,
            workspace_id,
            None,
            n,
        ),
    decreases n,
{
    if n > 0 {
        lemma_touched_sets_before(records, x, workspace_id, end, n - 1);
        if let Ok(list) = touched_sets(records, x, workspace_id, None, n - 1) {
            if let Some(c) = proposal(records, x.changeset_ids[n - 1]) {
                lemma_touched_files_before(
                    records,
                    x,
                    workspace_id,
                    end,
                    c.files,
                    c.files.len() as int,
                    list,
                );
            }
        }
    }
}

/// What precedes the end of the stream is all that there is.
proof fn lemma_layer_evidence(
    records: Seq<SessionStreamRecordView>,
    x: IntentExecutionLineageV1View,
    workspace_id: Seq<char>,
    end: u64,
    base: Seq<char>,
)
    requires
        all_before(records, end),
        terminal_sequence(records, x) is Ok,
        base_snapshot(records, x, workspace_id, None) == Ok::<_, Seq<char>>(base),
    ensures
        layer_evidence_verdict(records, x, workspace_id, end, base) is Ok,
{
    match x.binding.origin {
        IntentExecutionOriginV1View::Task { task_id, task_plan_version, step_id, attempt_id } => {
            lemma_first_where(
                records,
                completes_attempt(
                    x.binding_stream_sequence,
                    attempt_id->0,
                    task_id,
                    task_plan_version,
                    step_id,
                ),
            );
            let batch = is_applied_batch(x.parent_mutation_event_id->0);
            let i = first_where(records, batch)->0;
            let after = records[i].stream_sequence;
            lemma_same_first(
                records,
                promotes_into(after, Some(end), x.parent_snapshot_id),
                promotes_into(after, None, x.parent_snapshot_id),
            );
        },
        IntentExecutionOriginV1View::Chat { root_logical_run_id, .. } => {
            lemma_first_where(
                records,
                completes_run(x.binding_stream_sequence, root_logical_run_id),
            );
            lemma_touched_sets_before(
                records,
                x,
                workspace_id,
                end,
                x.changeset_ids.len() as int,
            );
        },
    }
}

/// The layer that a draft becomes is one that a replay of the stream so far accepts, once its manifests
/// have the shape that is asked of them, where its change sets name the contents of their files exactly.
pub proof fn law_drafted_layers_are_accepted(
    records: Seq<SessionStreamRecordView>,
    x: IntentExecutionLineageV1View,
    accepted: AcceptedIntentPlanProjectionV1View,
    observations: Seq<IntentFileObservationV1View>,
    d: IntentLayerDraftV1View,
    artifacts: IntentArtifactManifestV1View,
    layer: IntentLayerManifestV1View,
    forward: Seq<char>,
    reverse: Seq<char>,
    ids: Seq<Seq<char>>,
    manifest_id: Seq<char>,
    artifact_sequence: u64,
    layer_sequence: u64,
)
    requires
        materialized_execution(
            records,
            x,
            accepted.plan.workspace_id,
            x.binding.execution_id,
            observations,
        ) == Ok::<_, Seq<char>>(IntentLayerMaterializationV1View::Draft(d)),
        plan_refs(accepted.plan).contains(x.binding.intent_ref),
        ids.len() == d.files.len(),
        artifacts == artifact_manifest_of(d, core_of(d, forward, reverse).core_digest, ids),
        layer == layer_manifest_of(
            core_of(d, forward, reverse),
            manifest_id,
            artifacts.manifest_digest,
        ),
        artifact_manifest_verdict(artifacts) is Ok,
        layer_manifest_verdict(layer) is Ok,
        all_where(d.files, is_named_exactly(records)),
        all_before(records, artifact_sequence),
        artifact_sequence < layer_sequence,
    ensures
        complete_layer_verdict(
            records,
            layer,
            artifacts,
            x,
            accepted,
            artifact_sequence,
            layer_sequence,
        ) is Ok,
{
    let workspace_id = accepted.plan.workspace_id;
    let core_digest = core_of(d, forward, reverse).core_digest;
    let list = set_changes(
        records,
        x,
        workspace_id,
        observations,
        x.changeset_ids.len() as int,
    )->Goes_0;
    lemma_set_changes(
        records,
        x,
        workspace_id,
        observations,
        x.changeset_ids.len() as int,
        list,
    );
    lemma_layer_evidence(records, x, workspace_id, artifact_sequence, d.base_snapshot_id);
    let known = changed_paths(list);
    assert forall|i: int, j: int| 0 <= i < list.len() && 0 <= j < list.len() && i != j implies list[i]
        != list[j] by {
        if i < j {
            assert(known[i] != known[j]);
        } else {
            assert(known[j] != known[i]);
        }
    }
    lemma_ordered_items(list, path_order());
    let files = d.files;
    assert(files == items_in_order(list, path_order()));
    assert forall|i: int| 0 <= i < files.len() implies exists|k: int|
        0 <= k < list.len() && #[trigger] list[k] == #[trigger] files[i] by {
        assert(files.contains(files[i]));
        assert(list.contains(files[i]));
    }
    let bound = bindings_of(d, core_digest, ids);
    assert forall|i: int, j: int| 0 <= i < bound.len() && 0 <= j < bound.len() && i != j implies artifact_path_of(
        #[trigger] bound[i],
    ) != artifact_path_of(#[trigger] bound[j]) by {
        let a = choose|k: int| 0 <= k < list.len() && #[trigger] list[k] == files[i];
        let b = choose|k: int| 0 <= k < list.len() && #[trigger] list[k] == files[j];
        assert(files[i] != files[j]);
        assert(a != b);
        assert(known[a] == files[i].path && known[b] == files[j].path);
        if a < b {
            assert(known[a] != known[b]);
        } else {
            assert(known[b] != known[a]);
        }
    }
    lemma_ordered_items(bound, binding_order());
    let all = artifacts.artifacts;
    assert(all == items_in_order(bound, binding_order()));
    let verdicts = layer_artifact_verdicts(
        records,
        x,
        workspace_id,
        artifact_sequence,
        layer_sequence,
        all,
    );
    let paths = artifact_paths(all);
    assert forall|i: int| 0 <= i < all.len() implies exists|k: int|
        0 <= k < bound.len() && #[trigger] bound[k] == #[trigger] all[i] by {
        assert(all.contains(all[i]));
        assert(bound.contains(all[i]));
    }
    assert forall|i: int| 0 <= i < verdicts.len() implies #[trigger] verdicts[i] is Ok by {
        let k = choose|k: int| 0 <= k < bound.len() && #[trigger] bound[k] == all[i];
        let f = files[k];
        let a = choose|a: int| 0 <= a < list.len() && #[trigger] list[a] == files[k];
        assert(is_evident(records, x, workspace_id, list[a]));
        assert(is_named_exactly(records)(files[k]));
        lemma_hunk_is_accepted(
            records,
            x,
            workspace_id,
            d,
            core_digest,
            f,
            ids[k],
            artifact_sequence,
            layer_sequence,
        );
        assert(!repeats(paths, i)) by {
            if repeats(paths, i) {
                let j = choose|j: int| 0 <= j < i && #[trigger] paths[j] == paths[i];
                let h = choose|h: int| 0 <= h < bound.len() && #[trigger] bound[h] == all[j];
                assert(all[i] != all[j]);
                assert(h != k);
                assert(artifact_path_of(bound[h]) != artifact_path_of(bound[k]));
            }
        }
    }
    lemma_all_pass(verdicts);
    assert forall|i: int| 0 <= i < paths.len() implies known.contains(#[trigger] paths[i]) by {
        let k = choose|k: int| 0 <= k < bound.len() && #[trigger] bound[k] == all[i];
        let a = choose|a: int| 0 <= a < list.len() && #[trigger] list[a] == files[k];
        assert(known[a] == paths[i]);
    }
    assert forall|i: int| 0 <= i < known.len() implies paths.contains(#[trigger] known[i]) by {
        assert(list.contains(list[i]));
        assert(files.contains(list[i]));
        let k = choose|k: int| 0 <= k < files.len() && files[k] == list[i];
        assert(bound.contains(bound[k]));
        assert(all.contains(bound[k]));
        let j = choose|j: int| 0 <= j < all.len() && all[j] == bound[k];
        assert(paths[j] == known[i]);
    }
}

} // verus!
