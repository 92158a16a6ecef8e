//! The drop of an intent: what would happen to files, and why it cannot happen where it cannot.

use vstd::prelude::*;

use crate::intent::{
    content_digest_of, zero_digest_text, BoundedIntentArtifactSubjectV1,
    BoundedIntentArtifactSubjectV1View, IntentArtifactAvailability, IntentArtifactId,
    IntentArtifactOwnership, IntentConflictV1, IntentConflictV1View, IntentContentDigest,
    IntentDigest, IntentOperationErrorCode, IntentOperationFileAction, IntentOperationFileSummaryV1,
    IntentOperationFileSummaryV1View, IntentOperationKind, IntentOperationPreviewV1,
    IntentOperationPreviewV1View, IntentPlanV1, IntentPlanV1View, IntentVerificationImpact,
    IntentVerificationImpactV1, IntentVerificationImpactV1View, IntentVersionRef,
    IntentVersionRefView, INTENT_CONTRACT_SCHEMA_VERSION,
};
use crate::intent_admission::plan_refs;
use crate::intent_layer::{
    artifact_path, artifact_path_of, content_of, is_hunk_at, is_layer_of, latest_layer, layers_of,
    readable, refreshed_layers, ArtifactContentV1, ArtifactContentV1View,
};
use crate::intent_layer_contract::{preview_digest_of, preview_verdict};
use crate::intent_lineage::{
    current_receipts, lineage_of, IntentLineageProjectionV1, IntentLineageProjectionV1View,
};
use crate::intent_operation::{
    artifact_ids_at, drop_operation_id, effects_fit, file_effect_fits, is_covered,
    is_earlier_layer_of, is_file_hunk, is_hunk, is_hunk_of, is_leaf, is_leaf_target, list_ids_at,
    list_retained, operation_id_for_preview_target, operations_of, paths_in_effects,
    requested_preview_verdict, retained_refs, IntentOperationProjectionV1,
};
use crate::intent_patch::{
    decode_exact_intent_patch, lemma_read_patches_have_files, lemma_read_paths_are_distinct,
    patch_paths, read_patch,
};
use crate::intent_stack::{
    latest_accepted, plan_holds, stack_of, IntentStackProjectionV1, IntentStackProjectionV1View,
};
use crate::intent_state::{
    EffectiveIntentArtifactV1, EffectiveIntentArtifactV1View, ExactIntentPatchFileV1,
    ExactIntentPatchFileV1View, IntentLayerProjectionV1, IntentLayerProjectionV1View,
    IntentLayerStateV1, IntentLayerStateV1View,
};
use crate::order::{items_in_order, lemma_in_order, sort_items};
use crate::records::{Session, SessionStreamRecord, SessionStreamRecordView, SessionView};
use crate::search::{all_where, any_where, has_all, has_any, last_where, lemma_selected, selected};
use crate::text::{ascending_of, lemma_ascending_of, precedes, same_text, text_precedes};
use crate::value::{
    distinct, find_key, holds, lemma_push_view, next_number, outcome, position_by_key, yields,
    KernelError, Keyed, Value,
};

verus! {

/// What was found at the path of a file that is to be taken back: a plain file, nothing, or
/// something else.
#[derive(Debug, Clone, Copy, PartialEq, Eq, Structural)]
pub enum DropTargetStateV1 {
    PlainFile,
    Missing,
    Other,
}

impl DeepView for DropTargetStateV1 {
    type V = DropTargetStateV1;

    open spec fn deep_view(&self) -> DropTargetStateV1 {
        *self
    }
}

impl Value for DropTargetStateV1 {
    fn same(&self, other: &Self) -> (r: bool) {
        *self == *other
    }

    fn duplicate(&self) -> (r: Self) {
        *self
    }
}

/// What was found of one file that is to be taken back: what is at its path, whether its directory
/// is a plain one, and the hash of its contents where it has any.
#[derive(Debug, Clone, PartialEq, Eq)]
pub struct DropTargetObservationV1 {
    pub path: String,
    pub state: DropTargetStateV1,
    pub parent_is_plain_directory: bool,
    pub content_hash: Option<String>,
}

/// What a [`DropTargetObservationV1`] holds.
#[verifier::ext_equal]
pub struct DropTargetObservationV1View {
    pub path: Seq<char>,
    pub state: DropTargetStateV1,
    pub parent_is_plain_directory: bool,
    pub content_hash: Option<Seq<char>>,
}

impl DeepView for DropTargetObservationV1 {
    type V = DropTargetObservationV1View;

    open spec fn deep_view(&self) -> DropTargetObservationV1View {
        DropTargetObservationV1View {
            path: self.path.deep_view(),
            state: self.state.deep_view(),
            parent_is_plain_directory: self.parent_is_plain_directory.deep_view(),
            content_hash: self.content_hash.deep_view(),
        }
    }
}

impl Value for DropTargetObservationV1 {
    fn same(&self, other: &Self) -> (r: bool) {
        self.path.same(&other.path)
            && self.state.same(&other.state)
            && self.parent_is_plain_directory.same(&other.parent_is_plain_directory)
            && self.content_hash.same(&other.content_hash)
    }

    fn duplicate(&self) -> (r: Self) {
        DropTargetObservationV1 {
            path: self.path.duplicate(),
            state: self.state.duplicate(),
            parent_is_plain_directory: self.parent_is_plain_directory.duplicate(),
            content_hash: self.content_hash.duplicate(),
        }
    }
}

/// What is to be done to one file: the hash that it must have before, and the contents that it
/// gets, or its deletion.
#[derive(Debug, Clone, PartialEq, Eq)]
pub struct ResolvedDropFile {
    pub path: String,
    pub expected_hash: Option<String>,
    pub target: Option<Vec<u8>>,
}

/// What a [`ResolvedDropFile`] holds.
#[verifier::ext_equal]
pub struct ResolvedDropFileView {
    pub path: Seq<char>,
    pub expected_hash: Option<Seq<char>>,
    pub target: Option<Seq<u8>>,
}

impl DeepView for ResolvedDropFile {
    type V = ResolvedDropFileView;

    open spec fn deep_view(&self) -> ResolvedDropFileView {
        ResolvedDropFileView {
            path: self.path.deep_view(),
            expected_hash: self.expected_hash.deep_view(),
            target: self.target.deep_view(),
        }
    }
}

impl Value for ResolvedDropFile {
    fn same(&self, other: &Self) -> (r: bool) {
        self.path.same(&other.path)
            && self.expected_hash.same(&other.expected_hash)
            && self.target.same(&other.target)
    }

    fn duplicate(&self) -> (r: Self) {
        ResolvedDropFile {
            path: self.path.duplicate(),
            expected_hash: self.expected_hash.duplicate(),
            target: self.target.duplicate(),
        }
    }
}

/// The drop of an intent, resolved against the durable stream and the workspace.
#[derive(Debug, Clone, PartialEq, Eq)]
pub struct ResolvedDrop {
    pub preview: IntentOperationPreviewV1,
    pub artifact_manifest_digest: IntentDigest,
    pub source_frontier_sequence: u64,
    pub files: Vec<ResolvedDropFile>,
}

/// What a [`ResolvedDrop`] holds.
#[verifier::ext_equal]
pub struct ResolvedDropView {
    pub preview: IntentOperationPreviewV1View,
    pub artifact_manifest_digest: Seq<char>,
    pub source_frontier_sequence: u64,
    pub files: Seq<ResolvedDropFileView>,
}

impl DeepView for ResolvedDrop {
    type V = ResolvedDropView;

    open spec fn deep_view(&self) -> ResolvedDropView {
        ResolvedDropView {
            preview: self.preview.deep_view(),
            artifact_manifest_digest: self.artifact_manifest_digest.deep_view(),
            source_frontier_sequence: self.source_frontier_sequence.deep_view(),
            files: self.files.deep_view(),
        }
    }
}

impl Value for ResolvedDrop {
    fn same(&self, other: &Self) -> (r: bool) {
        self.preview.same(&other.preview)
            && self.artifact_manifest_digest.same(&other.artifact_manifest_digest)
            && self.source_frontier_sequence.same(&other.source_frontier_sequence)
            && self.files.same(&other.files)
    }

    fn duplicate(&self) -> (r: Self) {
        ResolvedDrop {
            preview: self.preview.duplicate(),
            artifact_manifest_digest: self.artifact_manifest_digest.duplicate(),
            source_frontier_sequence: self.source_frontier_sequence.duplicate(),
            files: self.files.duplicate(),
        }
    }
}

/// What a reverse patch comes to: the conflicts, the effects on files, and what is to be done to
/// them.
#[derive(Debug, Clone, PartialEq, Eq)]
pub struct DropFilesV1 {
    pub conflicts: Vec<IntentConflictV1>,
    pub effects: Vec<IntentOperationFileSummaryV1>,
    pub files: Vec<ResolvedDropFile>,
}

/// What a [`DropFilesV1`] holds.
#[verifier::ext_equal]
pub struct DropFilesV1View {
    pub conflicts: Seq<IntentConflictV1View>,
    pub effects: Seq<IntentOperationFileSummaryV1View>,
    pub files: Seq<ResolvedDropFileView>,
}

impl DeepView for DropFilesV1 {
    type V = DropFilesV1View;

    open spec fn deep_view(&self) -> DropFilesV1View {
        DropFilesV1View {
            conflicts: self.conflicts.deep_view(),
            effects: self.effects.deep_view(),
            files: self.files.deep_view(),
        }
    }
}

impl Value for DropFilesV1 {
    fn same(&self, other: &Self) -> (r: bool) {
        self.conflicts.same(&other.conflicts)
            && self.effects.same(&other.effects)
            && self.files.same(&other.files)
    }

    fn duplicate(&self) -> (r: Self) {
        DropFilesV1 {
            conflicts: self.conflicts.duplicate(),
            effects: self.effects.duplicate(),
            files: self.files.duplicate(),
        }
    }
}

impl Keyed for DropTargetObservationV1 {
    open spec fn key(v: DropTargetObservationV1View) -> Seq<char> {
        v.path
    }

    fn key_text(&self) -> (r: &str) {
        self.path.as_str()
    }
}

/// The name of an error code by which conflicts are ordered.
pub open spec fn code_name(code: IntentOperationErrorCode) -> Seq<char> {
    match code {
        IntentOperationErrorCode::UnsupportedSchema => "UnsupportedSchema"@,
        IntentOperationErrorCode::IntentHistoryUnavailable => "IntentHistoryUnavailable"@,
        IntentOperationErrorCode::UnknownIntent => "UnknownIntent"@,
        IntentOperationErrorCode::UnknownOperation => "UnknownOperation"@,
        IntentOperationErrorCode::StaleIntentVersion => "StaleIntentVersion"@,
        IntentOperationErrorCode::StaleStackVersion => "StaleStackVersion"@,
        IntentOperationErrorCode::InvalidDependencyGraph => "InvalidDependencyGraph"@,
        IntentOperationErrorCode::TargetNotLeaf => "TargetNotLeaf"@,
        IntentOperationErrorCode::SharedArtifact => "SharedArtifact"@,
        IntentOperationErrorCode::UnownedArtifact => "UnownedArtifact"@,
        IntentOperationErrorCode::DriftedArtifact => "DriftedArtifact"@,
        IntentOperationErrorCode::ArtifactUnavailable => "ArtifactUnavailable"@,
        IntentOperationErrorCode::ArtifactDigestMismatch => "ArtifactDigestMismatch"@,
        IntentOperationErrorCode::UnsupportedArtifact => "UnsupportedArtifact"@,
        IntentOperationErrorCode::UnsupportedSideEffect => "UnsupportedSideEffect"@,
        IntentOperationErrorCode::MissingExecutionLineage => "MissingExecutionLineage"@,
        IntentOperationErrorCode::MissingParentMutationEvidence => "MissingParentMutationEvidence"@,
        IntentOperationErrorCode::MissingCurrentVerificationEvidence => {
            "MissingCurrentVerificationEvidence"@
        },
        IntentOperationErrorCode::PreviewDigestMismatch => "PreviewDigestMismatch"@,
        IntentOperationErrorCode::WorkspaceRevisionMismatch => "WorkspaceRevisionMismatch"@,
        IntentOperationErrorCode::PermissionDenied => "PermissionDenied"@,
        IntentOperationErrorCode::ApprovalAuthorityUnavailable => "ApprovalAuthorityUnavailable"@,
        IntentOperationErrorCode::WorkspaceLeaseUnavailable => "WorkspaceLeaseUnavailable"@,
        IntentOperationErrorCode::WorkspaceOutOfScope => "WorkspaceOutOfScope"@,
        IntentOperationErrorCode::OperationStateConflict => "OperationStateConflict"@,
        IntentOperationErrorCode::IntentStateConflict => "IntentStateConflict"@,
        IntentOperationErrorCode::PartialApplication => "PartialApplication"@,
        IntentOperationErrorCode::ReconciliationRequired => "ReconciliationRequired"@,
    }
}

fn name_of_code(code: IntentOperationErrorCode) -> (r: &'static str)
    ensures
        r@ == code_name(code),
{
    match code {
        IntentOperationErrorCode::UnsupportedSchema => "UnsupportedSchema",
        IntentOperationErrorCode::IntentHistoryUnavailable => "IntentHistoryUnavailable",
        IntentOperationErrorCode::UnknownIntent => "UnknownIntent",
        IntentOperationErrorCode::UnknownOperation => "UnknownOperation",
        IntentOperationErrorCode::StaleIntentVersion => "StaleIntentVersion",
        IntentOperationErrorCode::StaleStackVersion => "StaleStackVersion",
        IntentOperationErrorCode::InvalidDependencyGraph => "InvalidDependencyGraph",
        IntentOperationErrorCode::TargetNotLeaf => "TargetNotLeaf",
        IntentOperationErrorCode::SharedArtifact => "SharedArtifact",
        IntentOperationErrorCode::UnownedArtifact => "UnownedArtifact",
        IntentOperationErrorCode::DriftedArtifact => "DriftedArtifact",
        IntentOperationErrorCode::ArtifactUnavailable => "ArtifactUnavailable",
        IntentOperationErrorCode::ArtifactDigestMismatch => "ArtifactDigestMismatch",
        IntentOperationErrorCode::UnsupportedArtifact => "UnsupportedArtifact",
        IntentOperationErrorCode::UnsupportedSideEffect => "UnsupportedSideEffect",
        IntentOperationErrorCode::MissingExecutionLineage => "MissingExecutionLineage",
        IntentOperationErrorCode::MissingParentMutationEvidence => "MissingParentMutationEvidence",
        IntentOperationErrorCode::MissingCurrentVerificationEvidence => {
            "MissingCurrentVerificationEvidence"
        },
        IntentOperationErrorCode::PreviewDigestMismatch => "PreviewDigestMismatch",
        IntentOperationErrorCode::WorkspaceRevisionMismatch => "WorkspaceRevisionMismatch",
        IntentOperationErrorCode::PermissionDenied => "PermissionDenied",
        IntentOperationErrorCode::ApprovalAuthorityUnavailable => "ApprovalAuthorityUnavailable",
        IntentOperationErrorCode::WorkspaceLeaseUnavailable => "WorkspaceLeaseUnavailable",
        IntentOperationErrorCode::WorkspaceOutOfScope => "WorkspaceOutOfScope",
        IntentOperationErrorCode::OperationStateConflict => "OperationStateConflict",
        IntentOperationErrorCode::IntentStateConflict => "IntentStateConflict",
        IntentOperationErrorCode::PartialApplication => "PartialApplication",
        IntentOperationErrorCode::ReconciliationRequired => "ReconciliationRequired",
    }
}

/// A conflict that stands in the way of the drop of an intent.
pub open spec fn drop_conflict(
    code: IntentOperationErrorCode,
    intent_ref: IntentVersionRefView,
    artifact_id: Option<Seq<char>>,
    safe_reason: Seq<char>,
) -> IntentConflictV1View {
    IntentConflictV1View { code, intent_ref: Some(intent_ref), artifact_id, safe_reason }
}

/// A list with a conflict behind it, where there is one.
pub open spec fn add_if(
    conflicts: Seq<IntentConflictV1View>,
    stands: bool,
    conflict: IntentConflictV1View,
) -> Seq<IntentConflictV1View> {
    if stands {
        conflicts.push(conflict)
    } else {
        conflicts
    }
}

fn note_conflict(
    conflicts: &mut Vec<IntentConflictV1>,
    stands: bool,
    code: IntentOperationErrorCode,
    intent_ref: &IntentVersionRef,
    artifact_id: Option<IntentArtifactId>,
    safe_reason: &str,
)
    ensures
        final(conflicts).deep_view() == add_if(
            old(conflicts).deep_view(),
            stands,
            drop_conflict(code, intent_ref.deep_view(), artifact_id.deep_view(), safe_reason@),
        ),
{
    if stands {
        let ghost had = *conflicts;
        let item = IntentConflictV1 {
            code,
            intent_ref: Some(intent_ref.duplicate()),
            artifact_id,
            safe_reason: safe_reason.to_owned(),
        };
        conflicts.push(item);
        proof {
            lemma_push_view(had, item, *conflicts);
        }
    }
}

// The conflicts of the target itself.

/// The conflicts of a target with the plan.
pub open spec fn target_conflicts(
    intent_ref: IntentVersionRefView,
    dropped: bool,
    leaf: bool,
) -> Seq<IntentConflictV1View> {
    add_if(
        add_if(
            Seq::empty(),
            dropped,
            drop_conflict(
                IntentOperationErrorCode::IntentStateConflict,
                intent_ref,
                None,
                "Intent is already dropped"@,
            ),
        ),
        !leaf,
        drop_conflict(
            IntentOperationErrorCode::TargetNotLeaf,
            intent_ref,
            None,
            "Active downstream intent depends on this target"@,
        ),
    )
}

/// Why an artifact cannot be taken back.
pub open spec fn artifact_obstacle(a: EffectiveIntentArtifactV1View) -> Option<
    (IntentOperationErrorCode, Seq<char>),
> {
    if a.availability != IntentArtifactAvailability::Available {
        Some(
            (
                IntentOperationErrorCode::ArtifactUnavailable,
                "Intent artifact is unavailable"@,
            ),
        )
    } else {
        match a.ownership {
            IntentArtifactOwnership::Exclusive => None,
            IntentArtifactOwnership::Shared => Some(
                (
                    IntentOperationErrorCode::SharedArtifact,
                    "Intent artifact is shared with another active intent"@,
                ),
            ),
            IntentArtifactOwnership::Unowned => Some(
                (
                    IntentOperationErrorCode::UnownedArtifact,
                    "Intent artifact ownership is unproved"@,
                ),
            ),
            IntentArtifactOwnership::Drifted => Some(
                (
                    IntentOperationErrorCode::DriftedArtifact,
                    "Intent artifact no longer matches the workspace"@,
                ),
            ),
        }
    }
}

/// The conflicts of the artifacts of a layer, behind others.
pub open spec fn artifact_conflicts(
    intent_ref: IntentVersionRefView,
    artifacts: Seq<EffectiveIntentArtifactV1View>,
    others: Seq<IntentConflictV1View>,
) -> Seq<IntentConflictV1View>
    decreases artifacts.len(),
{
    if artifacts.len() == 0 {
        others
    } else {
        let before = artifact_conflicts(intent_ref, artifacts.drop_last(), others);
        match artifact_obstacle(artifacts.last()) {
            None => before,
            Some(o) => before.push(
                drop_conflict(
                    o.0,
                    intent_ref,
                    Some(artifacts.last().binding.artifact_id),
                    o.1,
                ),
            ),
        }
    }
}

fn obstacle_of(a: &EffectiveIntentArtifactV1) -> (r: Option<(IntentOperationErrorCode, &'static str)>)
    ensures
        match r {
            None => artifact_obstacle(a.deep_view()) is None,
            Some(o) => artifact_obstacle(a.deep_view()) == Some((o.0, o.1@)),
        },
{
    if a.availability != IntentArtifactAvailability::Available {
        return Some(
            (IntentOperationErrorCode::ArtifactUnavailable, "Intent artifact is unavailable"),
        );
    }
    match a.ownership {
        IntentArtifactOwnership::Exclusive => None,
        IntentArtifactOwnership::Shared => Some(
            (
                IntentOperationErrorCode::SharedArtifact,
                "Intent artifact is shared with another active intent",
            ),
        ),
        IntentArtifactOwnership::Unowned => Some(
            (
                IntentOperationErrorCode::UnownedArtifact,
                "Intent artifact ownership is unproved",
            ),
        ),
        IntentArtifactOwnership::Drifted => Some(
            (
                IntentOperationErrorCode::DriftedArtifact,
                "Intent artifact no longer matches the workspace",
            ),
        ),
    }
}

fn note_artifacts(
    conflicts: &mut Vec<IntentConflictV1>,
    intent_ref: &IntentVersionRef,
    artifacts: &Vec<EffectiveIntentArtifactV1>,
)
    ensures
        final(conflicts).deep_view() == artifact_conflicts(
            intent_ref.deep_view(),
            artifacts.deep_view(),
            old(conflicts).deep_view(),
        ),
{
    let ghost v = artifacts.deep_view();
    let ghost start = conflicts.deep_view();
    let mut i: usize = 0;
    assert(v.take(0) =~= Seq::empty());
    while i < artifacts.len()
        invariant
            i <= artifacts.len(),
            v == artifacts.deep_view(),
            conflicts.deep_view() == artifact_conflicts(
                intent_ref.deep_view(),
                v.take(i as int),
                start,
            ),
        decreases artifacts.len() - i,
    {
        proof {
            assert(v.take(i + 1).drop_last() =~= v.take(i as int));
            assert(v.take(i + 1).last() == artifacts@[i as int].deep_view());
        }
        if let Some(o) = obstacle_of(&artifacts[i]) {
            note_conflict(
                conflicts,
                true,
                o.0,
                intent_ref,
                Some(artifacts[i].binding.artifact_id.duplicate()),
                o.1,
            );
        }
        i = i + 1;
    }
    assert(v.take(i as int) =~= v);
}

// The conflicts and effects of files.

/// The artifacts that belong to no file, as conflicts behind others.
pub open spec fn foreign_conflicts(
    intent_ref: IntentVersionRefView,
    artifacts: Seq<EffectiveIntentArtifactV1View>,
    others: Seq<IntentConflictV1View>,
) -> Seq<IntentConflictV1View>
    decreases artifacts.len(),
{
    if artifacts.len() == 0 {
        others
    } else {
        add_if(
            foreign_conflicts(intent_ref, artifacts.drop_last(), others),
            !(artifacts.last().binding.subject is FileHunk),
            drop_conflict(
                IntentOperationErrorCode::UnsupportedArtifact,
                intent_ref,
                Some(artifacts.last().binding.artifact_id),
                "Intent layer contains a non-file artifact"@,
            ),
        )
    }
}

/// The artifact belongs to no file, or to one of some paths.
pub open spec fn is_patched(paths: Seq<Seq<char>>) -> spec_fn(EffectiveIntentArtifactV1View) -> bool {
    |a: EffectiveIntentArtifactV1View|
        a.binding.subject is FileHunk ==> paths.contains(artifact_path_of(a.binding))
}

/// The file of a patch is the file of an artifact.
pub open spec fn has_artifact(artifacts: Seq<EffectiveIntentArtifactV1View>) -> spec_fn(
    ExactIntentPatchFileV1View,
) -> bool {
    |f: ExactIntentPatchFileV1View| any_where(artifacts, is_hunk_at(f.path))
}

/// A patch changes exactly the files of the artifacts.
pub open spec fn patch_covers(
    artifacts: Seq<EffectiveIntentArtifactV1View>,
    patch: Seq<ExactIntentPatchFileV1View>,
) -> bool {
    all_where(patch, has_artifact(artifacts)) && all_where(
        artifacts,
        is_patched(patch_paths(patch)),
    )
}

/// The digest of the contents that a patch leaves a file with; of nothing where it deletes the file.
pub open spec fn target_digest(f: ExactIntentPatchFileV1View) -> Seq<char> {
    content_digest_of(
        match f.target {
            Some(bytes) => bytes,
            None => Seq::empty(),
        },
    )
}

/// The artifact, if it is one of the file, is what the patch takes back.
pub open spec fn artifact_agrees(f: ExactIntentPatchFileV1View) -> spec_fn(
    EffectiveIntentArtifactV1View,
) -> bool {
    |a: EffectiveIntentArtifactV1View|
        match a.binding.subject {
            BoundedIntentArtifactSubjectV1View::FileHunk {
                normalized_relative_path,
                before_file_digest,
                after_file_digest,
                ..
            } => normalized_relative_path == f.path ==> after_file_digest == f.expected_digest
                && before_file_digest == target_digest(f),
            _ => true,
        }
}

/// What was found at the path of a file; nothing that can be trusted where nobody looked.
pub open spec fn found_at(observations: Seq<DropTargetObservationV1View>, path: Seq<char>) -> (
    DropTargetStateV1,
    bool,
    Option<Seq<char>>,
) {
    match find_key::<DropTargetObservationV1>(observations, path) {
        Some(i) => (
            observations[i].state,
            observations[i].parent_is_plain_directory,
            observations[i].content_hash,
        ),
        None => (DropTargetStateV1::Other, false, None),
    }
}

/// A file can be reached: it is there as a plain file if it should be, it is missing if it should
/// be, and its directory is plain.
pub open spec fn in_scope(
    found: (DropTargetStateV1, bool, Option<Seq<char>>),
    expected_present: bool,
) -> bool {
    found.1 && if expected_present {
        found.0 == DropTargetStateV1::PlainFile
    } else {
        found.0 == DropTargetStateV1::Missing
    }
}

/// The hash that a file should have.
pub open spec fn expected_hash(f: ExactIntentPatchFileV1View) -> Option<Seq<char>> {
    if f.expected_present {
        Some(f.expected_digest)
    } else {
        None
    }
}

/// The conflicts of one file of a patch, behind others.
pub open spec fn file_conflicts(
    intent_ref: IntentVersionRefView,
    artifacts: Seq<EffectiveIntentArtifactV1View>,
    observations: Seq<DropTargetObservationV1View>,
    f: ExactIntentPatchFileV1View,
    others: Seq<IntentConflictV1View>,
) -> Seq<IntentConflictV1View> {
    let own = selected(artifacts, is_hunk_at(f.path));
    if own.len() == 0 {
        others
    } else {
        let bound = add_if(
            others,
            !all_where(artifacts, artifact_agrees(f)),
            drop_conflict(
                IntentOperationErrorCode::ArtifactDigestMismatch,
                intent_ref,
                Some(own[0].binding.artifact_id),
                "Intent reverse patch bytes do not match the layer manifest"@,
            ),
        );
        let found = found_at(observations, f.path);
        if !f.expected_present && f.target is None {
            bound.push(
                drop_conflict(
                    IntentOperationErrorCode::UnsupportedArtifact,
                    intent_ref,
                    None,
                    "Intent reverse patch contains a no-op file target"@,
                ),
            )
        } else {
            add_if(
                add_if(
                    bound,
                    !in_scope(found, f.expected_present),
                    drop_conflict(
                        IntentOperationErrorCode::WorkspaceOutOfScope,
                        intent_ref,
                        None,
                        "Intent target is missing, a symlink, or outside a plain workspace parent"@,
                    ),
                ),
                found.2 != expected_hash(f),
                drop_conflict(
                    IntentOperationErrorCode::DriftedArtifact,
                    intent_ref,
                    None,
                    "Intent target content changed after layer materialization"@,
                ),
            )
        }
    }
}

/// A file of a patch has an effect: it belongs to an artifact and is not absent before and after.
pub open spec fn has_effect(artifacts: Seq<EffectiveIntentArtifactV1View>) -> spec_fn(
    ExactIntentPatchFileV1View,
) -> bool {
    |f: ExactIntentPatchFileV1View|
        any_where(artifacts, is_hunk_at(f.path)) && (f.expected_present || f.target is Some)
}

/// What a patch does to a file.
pub open spec fn file_action(f: ExactIntentPatchFileV1View) -> IntentOperationFileAction {
    if !f.expected_present {
        IntentOperationFileAction::Create
    } else if f.target is Some {
        IntentOperationFileAction::Update
    } else {
        IntentOperationFileAction::Delete
    }
}

/// The effect on a file.
pub open spec fn file_effect(
    artifacts: Seq<EffectiveIntentArtifactV1View>,
    f: ExactIntentPatchFileV1View,
) -> IntentOperationFileSummaryV1View {
    IntentOperationFileSummaryV1View {
        normalized_relative_path: f.path,
        action: file_action(f),
        artifact_ids: artifact_ids_at(artifacts, f.path),
    }
}

/// What is to be done to a file.
pub open spec fn file_to_drop(f: ExactIntentPatchFileV1View) -> ResolvedDropFileView {
    ResolvedDropFileView { path: f.path, expected_hash: expected_hash(f), target: f.target }
}

/// The conflicts, effects and files of a patch, behind conflicts found before.
pub open spec fn patch_after(
    intent_ref: IntentVersionRefView,
    artifacts: Seq<EffectiveIntentArtifactV1View>,
    observations: Seq<DropTargetObservationV1View>,
    patch: Seq<ExactIntentPatchFileV1View>,
    others: Seq<IntentConflictV1View>,
) -> DropFilesV1View
    decreases patch.len(),
{
    if patch.len() == 0 {
        DropFilesV1View { conflicts: others, effects: Seq::empty(), files: Seq::empty() }
    } else {
        let before = patch_after(intent_ref, artifacts, observations, patch.drop_last(), others);
        let f = patch.last();
        let conflicts = file_conflicts(intent_ref, artifacts, observations, f, before.conflicts);
        if has_effect(artifacts)(f) {
            DropFilesV1View {
                conflicts,
                effects: before.effects.push(file_effect(artifacts, f)),
                files: before.files.push(file_to_drop(f)),
            }
        } else {
            DropFilesV1View { conflicts, ..before }
        }
    }
}

/// Effects are ordered by their paths.
pub open spec fn effect_order() -> spec_fn(
    IntentOperationFileSummaryV1View,
    IntentOperationFileSummaryV1View,
) -> bool {
    |a: IntentOperationFileSummaryV1View, b: IntentOperationFileSummaryV1View|
        precedes(a.normalized_relative_path, b.normalized_relative_path)
}

/// Files are ordered by their paths.
pub open spec fn file_order() -> spec_fn(ResolvedDropFileView, ResolvedDropFileView) -> bool {
    |a: ResolvedDropFileView, b: ResolvedDropFileView| precedes(a.path, b.path)
}

/// What a patch comes to.
pub open spec fn resolved_files(
    intent_ref: IntentVersionRefView,
    artifacts: Seq<EffectiveIntentArtifactV1View>,
    observations: Seq<DropTargetObservationV1View>,
    patch: Seq<ExactIntentPatchFileV1View>,
    others: Seq<IntentConflictV1View>,
) -> DropFilesV1View {
    let start = add_if(
        foreign_conflicts(intent_ref, artifacts, others),
        !patch_covers(artifacts, patch),
        drop_conflict(
            IntentOperationErrorCode::ArtifactDigestMismatch,
            intent_ref,
            None,
            "Intent reverse patch paths do not match the layer manifest"@,
        ),
    );
    let all = patch_after(intent_ref, artifacts, observations, patch, start);
    DropFilesV1View {
        conflicts: all.conflicts,
        effects: items_in_order(all.effects, effect_order()),
        files: items_in_order(all.files, file_order()),
    }
}

fn note_foreign(
    conflicts: &mut Vec<IntentConflictV1>,
    intent_ref: &IntentVersionRef,
    artifacts: &Vec<EffectiveIntentArtifactV1>,
)
    ensures
        final(conflicts).deep_view() == foreign_conflicts(
            intent_ref.deep_view(),
            artifacts.deep_view(),
            old(conflicts).deep_view(),
        ),
{
    let ghost v = artifacts.deep_view();
    let ghost start = conflicts.deep_view();
    let mut i: usize = 0;
    assert(v.take(0) =~= Seq::empty());
    while i < artifacts.len()
        invariant
            i <= artifacts.len(),
            v == artifacts.deep_view(),
            conflicts.deep_view() == foreign_conflicts(
                intent_ref.deep_view(),
                v.take(i as int),
                start,
            ),
        decreases artifacts.len() - i,
    {
        proof {
            assert(v.take(i + 1).drop_last() =~= v.take(i as int));
            assert(v.take(i + 1).last() == artifacts@[i as int].deep_view());
        }
        let plain = is_file_hunk(&artifacts[i]);
        note_conflict(
            conflicts,
            !plain,
            IntentOperationErrorCode::UnsupportedArtifact,
            intent_ref,
            Some(artifacts[i].binding.artifact_id.duplicate()),
            "Intent layer contains a non-file artifact",
        );
        i = i + 1;
    }
    assert(v.take(i as int) =~= v);
}

fn list_patch_paths(patch: &Vec<ExactIntentPatchFileV1>) -> (r: Vec<String>)
    ensures
        r.deep_view() == patch_paths(patch.deep_view()),
{
    let ghost all = patch_paths(patch.deep_view());
    let mut r: Vec<String> = Vec::new();
    let mut i: usize = 0;
    while i < patch.len()
        invariant
            i <= patch.len(),
            all == patch_paths(patch.deep_view()),
            r.deep_view() =~= all.take(i as int),
        decreases patch.len() - i,
    {
        let path = patch[i].path.duplicate();
        assert(all[i as int] == path@);
        let ghost had = r;
        r.push(path);
        proof {
            lemma_push_view(had, path, r);
        }
        i = i + 1;
    }
    assert(r.deep_view() =~= all);
    r
}

fn has_artifact_at(artifacts: &Vec<EffectiveIntentArtifactV1>, path: &String) -> (r: bool)
    ensures
        r == any_where(artifacts.deep_view(), is_hunk_at(path@)),
{
    let ghost p = is_hunk_at(path@);
    has_any(
        artifacts,
        |a: &EffectiveIntentArtifactV1| -> (b: bool)
            ensures
                b == p(a.deep_view())
            { is_hunk_of(a, path) },
        Ghost(p),
    )
}

fn covers_artifacts(
    artifacts: &Vec<EffectiveIntentArtifactV1>,
    patch: &Vec<ExactIntentPatchFileV1>,
) -> (r: bool)
    ensures
        r == patch_covers(artifacts.deep_view(), patch.deep_view()),
{
    let paths = list_patch_paths(patch);
    let ghost p = has_artifact(artifacts.deep_view());
    let ghost q = is_patched(paths.deep_view());
    has_all(
        patch,
        |f: &ExactIntentPatchFileV1| -> (b: bool)
            ensures
                b == p(f.deep_view())
            { has_artifact_at(artifacts, &f.path) },
        Ghost(p),
    ) && has_all(
        artifacts,
        |a: &EffectiveIntentArtifactV1| -> (b: bool)
            ensures
                b == q(a.deep_view())
            { !is_file_hunk(a) || holds(&paths, &artifact_path(&a.binding)) },
        Ghost(q),
    )
}

fn digest_of_target(f: &ExactIntentPatchFileV1) -> (r: IntentContentDigest)
    ensures
        r.deep_view() == target_digest(f.deep_view()),
{
    match &f.target {
        Some(bytes) => {
            assert(bytes.deep_view() =~= bytes@);
            IntentContentDigest::from_bytes(bytes.as_slice())
        },
        None => {
            let empty: Vec<u8> = Vec::new();
            assert(empty@ =~= Seq::empty());
            IntentContentDigest::from_bytes(empty.as_slice())
        },
    }
}

fn agrees(artifacts: &Vec<EffectiveIntentArtifactV1>, f: &ExactIntentPatchFileV1) -> (r: bool)
    ensures
        r == all_where(artifacts.deep_view(), artifact_agrees(f.deep_view())),
{
    let target = digest_of_target(f);
    let ghost p = artifact_agrees(f.deep_view());
    has_all(
        artifacts,
        |a: &EffectiveIntentArtifactV1| -> (b: bool)
            ensures
                b == p(a.deep_view())
            {
                match &a.binding.subject {
                    BoundedIntentArtifactSubjectV1::FileHunk {
                        normalized_relative_path,
                        before_file_digest,
                        after_file_digest,
                        ..
                    } => !same_text(normalized_relative_path.as_str(), f.path.as_str()) || (
                    after_file_digest.same(&f.expected_digest) && before_file_digest.same(&target)),
                    _ => true,
                }
            },
        Ghost(p),
    )
}

fn first_artifact_at(artifacts: &Vec<EffectiveIntentArtifactV1>, path: &String) -> (r: Option<
    IntentArtifactId,
>)
    ensures
        match r {
            Some(id) => selected(artifacts.deep_view(), is_hunk_at(path@)).len() > 0 && id.deep_view()
                == selected(artifacts.deep_view(), is_hunk_at(path@))[0].binding.artifact_id,
            None => selected(artifacts.deep_view(), is_hunk_at(path@)).len() == 0,
        },
{
    let ids = list_ids_at(artifacts, path);
    let ghost own = selected(artifacts.deep_view(), is_hunk_at(path@));
    assert(ids.deep_view().len() == own.len());
    if ids.len() == 0 {
        None
    } else {
        assert(ids.deep_view()[0] == own[0].binding.artifact_id);
        Some(ids[0].duplicate())
    }
}

fn look_at(observations: &Vec<DropTargetObservationV1>, path: &String) -> (r: (
    DropTargetStateV1,
    bool,
    Option<String>,
))
    ensures
        (r.0, r.1, r.2.deep_view()) == found_at(observations.deep_view(), path@),
{
    match position_by_key(observations, path.as_str()) {
        Some(i) => {
            assert(observations.deep_view()[i as int] == observations@[i as int].deep_view());
            let o = &observations[i];
            (o.state, o.parent_is_plain_directory, o.content_hash.duplicate())
        },
        None => (DropTargetStateV1::Other, false, None),
    }
}

fn note_file(
    conflicts: &mut Vec<IntentConflictV1>,
    intent_ref: &IntentVersionRef,
    artifacts: &Vec<EffectiveIntentArtifactV1>,
    observations: &Vec<DropTargetObservationV1>,
    f: &ExactIntentPatchFileV1,
) -> (r: bool)
    ensures
        final(conflicts).deep_view() == file_conflicts(
            intent_ref.deep_view(),
            artifacts.deep_view(),
            observations.deep_view(),
            f.deep_view(),
            old(conflicts).deep_view(),
        ),
        r == has_effect(artifacts.deep_view())(f.deep_view()),
{
    proof {
        lemma_selected(artifacts.deep_view(), is_hunk_at(f.path@));
    }
    let own = match first_artifact_at(artifacts, &f.path) {
        None => {
            return false;
        },
        Some(id) => id,
    };
    let agreed = agrees(artifacts, f);
    note_conflict(
        conflicts,
        !agreed,
        IntentOperationErrorCode::ArtifactDigestMismatch,
        intent_ref,
        Some(own),
        "Intent reverse patch bytes do not match the layer manifest",
    );
    if !f.expected_present && f.target.is_none() {
        note_conflict(
            conflicts,
            true,
            IntentOperationErrorCode::UnsupportedArtifact,
            intent_ref,
            None,
            "Intent reverse patch contains a no-op file target",
        );
        return false;
    }
    let (state, plain_parent, hash) = look_at(observations, &f.path);
    let reached = plain_parent && if f.expected_present {
        state == DropTargetStateV1::PlainFile
    } else {
        state == DropTargetStateV1::Missing
    };
    note_conflict(
        conflicts,
        !reached,
        IntentOperationErrorCode::WorkspaceOutOfScope,
        intent_ref,
        None,
        "Intent target is missing, a symlink, or outside a plain workspace parent",
    );
    let unchanged = match &hash {
        Some(h) => f.expected_present && same_text(h.as_str(), f.expected_digest.as_str()),
        None => !f.expected_present,
    };
    note_conflict(
        conflicts,
        !unchanged,
        IntentOperationErrorCode::DriftedArtifact,
        intent_ref,
        None,
        "Intent target content changed after layer materialization",
    );
    true
}

fn resolve_drop_files(
    intent_ref: &IntentVersionRef,
    artifacts: &Vec<EffectiveIntentArtifactV1>,
    observations: &Vec<DropTargetObservationV1>,
    patch: &Vec<ExactIntentPatchFileV1>,
    others: Vec<IntentConflictV1>,
) -> (r: DropFilesV1)
    ensures
        r.deep_view() == resolved_files(
            intent_ref.deep_view(),
            artifacts.deep_view(),
            observations.deep_view(),
            patch.deep_view(),
            others.deep_view(),
        ),
{
    let mut conflicts = others;
    note_foreign(&mut conflicts, intent_ref, artifacts);
    let covered = covers_artifacts(artifacts, patch);
    note_conflict(
        &mut conflicts,
        !covered,
        IntentOperationErrorCode::ArtifactDigestMismatch,
        intent_ref,
        None,
        "Intent reverse patch paths do not match the layer manifest",
    );
    let ghost start = conflicts.deep_view();
    let ghost v = patch.deep_view();
    let mut effects: Vec<IntentOperationFileSummaryV1> = Vec::new();
    let mut files: Vec<ResolvedDropFile> = Vec::new();
    let mut i: usize = 0;
    assert(v.take(0) =~= Seq::empty());
    assert(effects.deep_view() =~= Seq::empty());
    assert(files.deep_view() =~= Seq::empty());
    while i < patch.len()
        invariant
            i <= patch.len(),
            v == patch.deep_view(),
            (DropFilesV1View {
                conflicts: conflicts.deep_view(),
                effects: effects.deep_view(),
                files: files.deep_view(),
            }) == patch_after(
                intent_ref.deep_view(),
                artifacts.deep_view(),
                observations.deep_view(),
                v.take(i as int),
                start,
            ),
        decreases patch.len() - i,
    {
        proof {
            assert(v.take(i + 1).drop_last() =~= v.take(i as int));
            assert(v.take(i + 1).last() == patch@[i as int].deep_view());
        }
        let f = &patch[i];
        let effective = note_file(&mut conflicts, intent_ref, artifacts, observations, f);
        if effective {
            let action = if !f.expected_present {
                IntentOperationFileAction::Create
            } else if f.target.is_some() {
                IntentOperationFileAction::Update
            } else {
                IntentOperationFileAction::Delete
            };
            let effect = IntentOperationFileSummaryV1 {
                normalized_relative_path: f.path.duplicate(),
                action,
                artifact_ids: list_ids_at(artifacts, &f.path),
            };
            let hash = if f.expected_present {
                Some(f.expected_digest.as_str().to_owned())
            } else {
                None
            };
            let file = ResolvedDropFile {
                path: f.path.duplicate(),
                expected_hash: hash,
                target: f.target.duplicate(),
            };
            let ghost had_effects = effects;
            let ghost had_files = files;
            effects.push(effect);
            files.push(file);
            proof {
                lemma_push_view(had_effects, effect, effects);
                lemma_push_view(had_files, file, files);
            }
        }
        i = i + 1;
    }
    assert(v.take(i as int) =~= v);
    let ghost p = effect_order();
    let ghost q = file_order();
    let effects = sort_items(
        &effects,
        |a: &IntentOperationFileSummaryV1, b: &IntentOperationFileSummaryV1| -> (o: bool)
            ensures
                o == p(a.deep_view(), b.deep_view())
            {
                text_precedes(
                    a.normalized_relative_path.as_str(),
                    b.normalized_relative_path.as_str(),
                )
            },
        Ghost(p),
    );
    let files = sort_items(
        &files,
        |a: &ResolvedDropFile, b: &ResolvedDropFile| -> (o: bool)
            ensures
                o == q(a.deep_view(), b.deep_view())
            { text_precedes(a.path.as_str(), b.path.as_str()) },
        Ghost(q),
    );
    DropFilesV1 { conflicts, effects, files }
}

// The preview.

/// One identity, where there is one, comes before another; none comes first.
pub open spec fn option_precedes(a: Option<Seq<char>>, b: Option<Seq<char>>) -> bool {
    match (a, b) {
        (None, Some(_)) => true,
        (Some(x), Some(y)) => precedes(x, y),
        _ => false,
    }
}

/// Conflicts are ordered by the names of their codes, then by their reasons, then by their artifacts.
pub open spec fn conflict_order() -> spec_fn(IntentConflictV1View, IntentConflictV1View) -> bool {
    |a: IntentConflictV1View, b: IntentConflictV1View|
        precedes(code_name(a.code), code_name(b.code)) || (code_name(a.code) == code_name(b.code)
            && (precedes(a.safe_reason, b.safe_reason) || (a.safe_reason == b.safe_reason
            && option_precedes(a.artifact_id, b.artifact_id))))
}

/// The two impacts of a receipt: it becomes stale, and the check must run again.
pub open spec fn impacts_of(receipts: Seq<Seq<char>>) -> Seq<IntentVerificationImpactV1View>
    decreases receipts.len(),
{
    if receipts.len() == 0 {
        Seq::empty()
    } else {
        impacts_of(receipts.drop_last()).push(
            IntentVerificationImpactV1View {
                receipt_id: receipts.last(),
                impact: IntentVerificationImpact::BecomesStale,
            },
        ).push(
            IntentVerificationImpactV1View {
                receipt_id: receipts.last(),
                impact: IntentVerificationImpact::RerunRequired,
            },
        )
    }
}

/// Lists the impacts of receipts.
pub(crate) fn list_impacts(receipts: &Vec<String>) -> (r: Vec<IntentVerificationImpactV1>)
    ensures
        r.deep_view() == impacts_of(receipts.deep_view()),
{
    let ghost v = receipts.deep_view();
    let mut r: Vec<IntentVerificationImpactV1> = Vec::new();
    let mut i: usize = 0;
    assert(v.take(0) =~= Seq::empty());
    assert(r.deep_view() =~= Seq::empty());
    while i < receipts.len()
        invariant
            i <= receipts.len(),
            v == receipts.deep_view(),
            r.deep_view() == impacts_of(v.take(i as int)),
        decreases receipts.len() - i,
    {
        proof {
            assert(v.take(i + 1).drop_last() =~= v.take(i as int));
            assert(v.take(i + 1).last() == receipts@[i as int].deep_view());
        }
        let ghost had = r;
        let stale = IntentVerificationImpactV1 {
            receipt_id: receipts[i].duplicate(),
            impact: IntentVerificationImpact::BecomesStale,
        };
        r.push(stale);
        proof {
            lemma_push_view(had, stale, r);
        }
        let ghost had = r;
        let rerun = IntentVerificationImpactV1 {
            receipt_id: receipts[i].duplicate(),
            impact: IntentVerificationImpact::RerunRequired,
        };
        r.push(rerun);
        proof {
            lemma_push_view(had, rerun, r);
        }
        i = i + 1;
    }
    assert(v.take(i as int) =~= v);
    r
}

/// The preview of a drop, with its digest.
pub open spec fn drop_preview(
    operation_id: Seq<char>,
    plan: IntentPlanV1View,
    intent_ref: IntentVersionRefView,
    target_is_leaf: bool,
    workspace_revision: u64,
    retained: Seq<IntentVersionRefView>,
    impacts: Seq<IntentVerificationImpactV1View>,
    resolved: DropFilesV1View,
) -> IntentOperationPreviewV1View {
    let bare = IntentOperationPreviewV1View {
        schema_version: INTENT_CONTRACT_SCHEMA_VERSION,
        operation_id,
        operation_kind: IntentOperationKind::Drop,
        stack_id: plan.stack_id,
        stack_version: plan.stack_version,
        target_intents: seq![intent_ref],
        target_is_leaf,
        workspace_revision,
        expires_at_ms: None,
        file_effects: resolved.effects,
        retained_intents: retained,
        verification_impacts: impacts,
        conflicts: items_in_order(resolved.conflicts, conflict_order()),
        preview_digest: zero_digest_text(),
    };
    IntentOperationPreviewV1View { preview_digest: preview_digest_of(bare), ..bare }
}

/// What the layer of a target comes to: the digest of its artifact manifest, and its files.
pub open spec fn drop_of_layer(
    intent_ref: IntentVersionRefView,
    layer: Option<IntentLayerStateV1View>,
    contents: Seq<ArtifactContentV1View>,
    observations: Seq<DropTargetObservationV1View>,
    others: Seq<IntentConflictV1View>,
) -> (Seq<char>, DropFilesV1View) {
    match layer {
        None => (
            zero_digest_text(),
            DropFilesV1View {
                conflicts: others.push(
                    drop_conflict(
                        IntentOperationErrorCode::MissingExecutionLineage,
                        intent_ref,
                        None,
                        "Intent has no executable layer"@,
                    ),
                ),
                effects: Seq::empty(),
                files: Seq::empty(),
            },
        ),
        Some(l) => {
            let conflicts = artifact_conflicts(intent_ref, l.artifacts, others);
            let digest = l.layer_manifest.artifact_manifest_digest;
            match content_of(contents, l.layer_manifest.core.reverse_patch_artifact_id) {
                None => (
                    digest,
                    DropFilesV1View {
                        conflicts: conflicts.push(
                            drop_conflict(
                                IntentOperationErrorCode::ArtifactUnavailable,
                                intent_ref,
                                None,
                                "Intent reverse patch artifact is unavailable"@,
                            ),
                        ),
                        effects: Seq::empty(),
                        files: Seq::empty(),
                    },
                ),
                Some(bytes) => match read_patch(bytes) {
                    Err(_) => (
                        digest,
                        DropFilesV1View {
                            conflicts: conflicts.push(
                                drop_conflict(
                                    IntentOperationErrorCode::ArtifactDigestMismatch,
                                    intent_ref,
                                    None,
                                    "Intent reverse patch artifact is malformed"@,
                                ),
                            ),
                            effects: Seq::empty(),
                            files: Seq::empty(),
                        },
                    ),
                    Ok(patch) => (
                        digest,
                        resolved_files(intent_ref, l.artifacts, observations, patch, conflicts),
                    ),
                },
            }
        },
    }
}

/// The number of the last record of a stream.
pub open spec fn frontier_of(records: Seq<SessionStreamRecordView>) -> u64 {
    if records.len() == 0 {
        0
    } else {
        records.last().stream_sequence
    }
}

/// The drop of an intent of an accepted plan.
pub open spec fn drop_of(
    frontier: u64,
    workspace_revision: u64,
    contents: Seq<ArtifactContentV1View>,
    observations: Seq<DropTargetObservationV1View>,
    plan: IntentPlanV1View,
    lineage: IntentLineageProjectionV1View,
    layers: IntentLayerProjectionV1View,
    dropped: Seq<IntentVersionRefView>,
    intent_ref: IntentVersionRefView,
) -> ResolvedDropView {
    let leaf = is_leaf(plan, dropped, intent_ref);
    let resolved = drop_of_layer(
        intent_ref,
        latest_layer(layers, intent_ref),
        contents,
        observations,
        target_conflicts(intent_ref, dropped.contains(intent_ref), leaf),
    );
    ResolvedDropView {
        preview: drop_preview(
            drop_operation_id(
                plan,
                layers,
                dropped.contains(intent_ref),
                intent_ref,
                workspace_revision,
                frontier,
            ),
            plan,
            intent_ref,
            leaf,
            workspace_revision,
            retained_refs(plan, dropped, intent_ref),
            impacts_of(ascending_of(current_receipts(lineage, intent_ref))),
            resolved.1,
        ),
        artifact_manifest_digest: resolved.0,
        source_frontier_sequence: frontier,
        files: resolved.1.files,
    }
}

/// The drop of an intent, from what the durable stream says and what was found in the workspace.
pub open spec fn drop_from_parts(
    frontier: u64,
    workspace_id: Seq<char>,
    workspace_revision: u64,
    contents: Seq<ArtifactContentV1View>,
    observations: Seq<DropTargetObservationV1View>,
    admission: IntentStackProjectionV1View,
    lineage: IntentLineageProjectionV1View,
    layers: IntentLayerProjectionV1View,
    dropped: Seq<IntentVersionRefView>,
    intent_ref: IntentVersionRefView,
) -> Result<ResolvedDropView, Seq<char>> {
    match latest_accepted(admission) {
        None => Err("Intent drop requires an accepted IntentPlan"@),
        Some(accepted) => if workspace_id != accepted.plan.workspace_id {
            Err("Intent drop workspace identity does not match the accepted plan"@)
        } else if !plan_refs(accepted.plan).contains(intent_ref) {
            Err("Intent drop target is not in the accepted plan"@)
        } else {
            let resolved = drop_of(
                frontier,
                workspace_revision,
                contents,
                observations,
                accepted.plan,
                lineage,
                layers,
                dropped,
                intent_ref,
            );
            yields(preview_verdict(resolved.preview), resolved)
        },
    }
}

fn resolve_layer(
    intent_ref: &IntentVersionRef,
    layer: Option<&IntentLayerStateV1>,
    contents: &Vec<ArtifactContentV1>,
    observations: &Vec<DropTargetObservationV1>,
    others: Vec<IntentConflictV1>,
) -> (r: (IntentDigest, DropFilesV1))
    ensures
        (r.0.deep_view(), r.1.deep_view()) == drop_of_layer(
            intent_ref.deep_view(),
            layer.deep_view(),
            contents.deep_view(),
            observations.deep_view(),
            others.deep_view(),
        ),
{
    let mut conflicts = others;
    let effects: Vec<IntentOperationFileSummaryV1> = Vec::new();
    let files: Vec<ResolvedDropFile> = Vec::new();
    assert(effects.deep_view() =~= Seq::empty());
    assert(files.deep_view() =~= Seq::empty());
    let l = match layer {
        None => {
            note_conflict(
                &mut conflicts,
                true,
                IntentOperationErrorCode::MissingExecutionLineage,
                intent_ref,
                None,
                "Intent has no executable layer",
            );
            return (IntentDigest::zero(), DropFilesV1 { conflicts, effects, files });
        },
        Some(l) => l,
    };
    note_artifacts(&mut conflicts, intent_ref, &l.artifacts);
    let digest = l.layer_manifest.artifact_manifest_digest.duplicate();
    let bytes = match readable(
        contents,
        l.layer_manifest.core.reverse_patch_artifact_id.as_str(),
    ) {
        None => {
            note_conflict(
                &mut conflicts,
                true,
                IntentOperationErrorCode::ArtifactUnavailable,
                intent_ref,
                None,
                "Intent reverse patch artifact is unavailable",
            );
            return (digest, DropFilesV1 { conflicts, effects, files });
        },
        Some(bytes) => bytes,
    };
    assert(bytes.deep_view() =~= bytes@);
    match decode_exact_intent_patch(bytes.as_slice()) {
        Err(_) => {
            note_conflict(
                &mut conflicts,
                true,
                IntentOperationErrorCode::ArtifactDigestMismatch,
                intent_ref,
                None,
                "Intent reverse patch artifact is malformed",
            );
            (digest, DropFilesV1 { conflicts, effects, files })
        },
        Ok(patch) => (
            digest,
            resolve_drop_files(intent_ref, &l.artifacts, observations, &patch, conflicts),
        ),
    }
}

fn sort_conflicts(conflicts: &Vec<IntentConflictV1>) -> (r: Vec<IntentConflictV1>)
    ensures
        r.deep_view() == items_in_order(conflicts.deep_view(), conflict_order()),
{
    let ghost p = conflict_order();
    sort_items(
        conflicts,
        |a: &IntentConflictV1, b: &IntentConflictV1| -> (o: bool)
            ensures
                o == p(a.deep_view(), b.deep_view())
            { conflict_leads(a, b) },
        Ghost(p),
    )
}

fn conflict_leads(a: &IntentConflictV1, b: &IntentConflictV1) -> (r: bool)
    ensures
        r == conflict_order()(a.deep_view(), b.deep_view()),
{
    let x = name_of_code(a.code);
    let y = name_of_code(b.code);
    if text_precedes(x, y) {
        return true;
    }
    if !same_text(x, y) {
        return false;
    }
    if text_precedes(a.safe_reason.as_str(), b.safe_reason.as_str()) {
        return true;
    }
    if !same_text(a.safe_reason.as_str(), b.safe_reason.as_str()) {
        return false;
    }
    match (&a.artifact_id, &b.artifact_id) {
        (None, Some(_)) => true,
        (Some(x), Some(y)) => text_precedes(x.as_str(), y.as_str()),
        _ => false,
    }
}

/// The number of the last record of a stream.
pub(crate) fn frontier_sequence(records: &Vec<SessionStreamRecord>) -> (r: u64)
    ensures
        r == frontier_of(records.deep_view()),
{
    let n: usize = records.len();
    if n == 0 {
        0
    } else {
        assert(records.deep_view().last() == records@[n - 1].deep_view());
        records[n - 1].stream_sequence
    }
}

#[verifier::rlimit(40)]
fn resolve_drop_in_plan(
    frontier: u64,
    workspace_revision: u64,
    contents: &Vec<ArtifactContentV1>,
    observations: &Vec<DropTargetObservationV1>,
    plan: &IntentPlanV1,
    lineage: &IntentLineageProjectionV1,
    layers: &IntentLayerProjectionV1,
    dropped: &Vec<IntentVersionRef>,
    intent_ref: &IntentVersionRef,
) -> (r: ResolvedDrop)
    ensures
        r.deep_view() == drop_of(
            frontier,
            workspace_revision,
            contents.deep_view(),
            observations.deep_view(),
            plan.deep_view(),
            lineage.deep_view(),
            layers.deep_view(),
            dropped.deep_view(),
            intent_ref.deep_view(),
        ),
{
    let was_dropped = holds(dropped, intent_ref);
    let operation_id = operation_id_for_preview_target(
        plan,
        layers,
        was_dropped,
        intent_ref,
        workspace_revision,
        frontier,
    );
    let leaf = is_leaf_target(plan, dropped, intent_ref);
    let mut conflicts: Vec<IntentConflictV1> = Vec::new();
    assert(conflicts.deep_view() =~= Seq::empty());
    note_conflict(
        &mut conflicts,
        was_dropped,
        IntentOperationErrorCode::IntentStateConflict,
        intent_ref,
        None,
        "Intent is already dropped",
    );
    note_conflict(
        &mut conflicts,
        !leaf,
        IntentOperationErrorCode::TargetNotLeaf,
        intent_ref,
        None,
        "Active downstream intent depends on this target",
    );
    let receipts = lineage.current_system_verification_receipt_ids(intent_ref);
    proof {
        lemma_ascending_of(
            receipts.deep_view(),
            current_receipts(lineage.deep_view(), intent_ref.deep_view()),
        );
    }
    let (artifact_manifest_digest, resolved) = resolve_layer(
        intent_ref,
        layers.latest_layer_for(intent_ref),
        contents,
        observations,
        conflicts,
    );
    let mut targets: Vec<IntentVersionRef> = Vec::new();
    let target = intent_ref.duplicate();
    targets.push(target);
    assert(targets.deep_view() =~= seq![intent_ref.deep_view()]);
    let mut preview = IntentOperationPreviewV1 {
        schema_version: INTENT_CONTRACT_SCHEMA_VERSION,
        operation_id,
        operation_kind: IntentOperationKind::Drop,
        stack_id: plan.stack_id.duplicate(),
        stack_version: plan.stack_version.duplicate(),
        target_intents: targets,
        target_is_leaf: leaf,
        workspace_revision,
        expires_at_ms: None,
        file_effects: resolved.effects,
        retained_intents: list_retained(plan, dropped, intent_ref),
        verification_impacts: list_impacts(&receipts),
        conflicts: sort_conflicts(&resolved.conflicts),
        preview_digest: IntentDigest::zero(),
    };
    let digest = preview.computed_digest();
    assert(digest is Ok);
    preview.preview_digest = digest.unwrap();
    ResolvedDrop {
        preview,
        artifact_manifest_digest,
        source_frontier_sequence: frontier,
        files: resolved.files,
    }
}

/// Resolves the drop of an intent from what the durable stream says and what was found in the
/// workspace.
pub(crate) fn resolve_drop_from_parts(
    frontier: u64,
    workspace_id: &str,
    workspace_revision: u64,
    contents: &Vec<ArtifactContentV1>,
    observations: &Vec<DropTargetObservationV1>,
    admission: &IntentStackProjectionV1,
    lineage: &IntentLineageProjectionV1,
    layers: &IntentLayerProjectionV1,
    dropped: &Vec<IntentVersionRef>,
    intent_ref: &IntentVersionRef,
) -> (r: Result<ResolvedDrop, KernelError>)
    ensures
        outcome(r) == drop_from_parts(
            frontier,
            workspace_id@,
            workspace_revision,
            contents.deep_view(),
            observations.deep_view(),
            admission.deep_view(),
            lineage.deep_view(),
            layers.deep_view(),
            dropped.deep_view(),
            intent_ref.deep_view(),
        ),
{
    let accepted = match admission.latest_accepted_plan() {
        None => {
            return Err(KernelError::new("Intent drop requires an accepted IntentPlan"));
        },
        Some(accepted) => accepted,
    };
    if !same_text(workspace_id, accepted.plan.workspace_id.as_str()) {
        return Err(
            KernelError::new("Intent drop workspace identity does not match the accepted plan"),
        );
    }
    if !plan_holds(&accepted.plan, intent_ref) {
        return Err(KernelError::new("Intent drop target is not in the accepted plan"));
    }
    let resolved = resolve_drop_in_plan(
        frontier,
        workspace_revision,
        contents,
        observations,
        &accepted.plan,
        lineage,
        layers,
        dropped,
        intent_ref,
    );
    match resolved.preview.validate_contract() {
        Ok(_) => Ok(resolved),
        Err(e) => Err(e),
    }
}

/// The layers of a stream, as far as their artifacts can be read.
pub open spec fn readable_layers(
    records: Seq<SessionStreamRecordView>,
    admission: IntentStackProjectionV1View,
    lineage: IntentLineageProjectionV1View,
    contents: Seq<ArtifactContentV1View>,
) -> Result<IntentLayerProjectionV1View, Seq<char>> {
    match layers_of(records, admission, lineage) {
        Err(m) => Err(m),
        Ok(p) => Ok(IntentLayerProjectionV1View { layers: refreshed_layers(contents, p.layers) }),
    }
}

/// The drop of an intent of a session.
pub open spec fn session_drop(
    session: SessionView,
    workspace_id: Seq<char>,
    workspace_revision: u64,
    contents: Option<Seq<ArtifactContentV1View>>,
    observations: Seq<DropTargetObservationV1View>,
    intent_ref: IntentVersionRefView,
) -> Result<ResolvedDropView, Seq<char>> {
    match (session.durable_records, contents) {
        (None, _) => Err("Intent drop preview requires a durable session"@),
        (_, None) => Err("Intent drop preview requires mutation artifacts"@),
        (Some(records), Some(readable)) => match stack_of(records) {
            Err(m) => Err(m),
            Ok(admission) => match lineage_of(records, admission, session.tasks) {
                Err(m) => Err(m),
                Ok(lineage) => match readable_layers(records, admission, lineage, readable) {
                    Err(m) => Err(m),
                    Ok(layers) => match operations_of(records, admission, layers) {
                        Err(m) => Err(m),
                        Ok(operations) => drop_from_parts(
                            frontier_of(records),
                            workspace_id,
                            workspace_revision,
                            readable,
                            observations,
                            admission,
                            lineage,
                            layers,
                            operations.dropped_intents,
                            intent_ref,
                        ),
                    },
                },
            },
        },
    }
}

/// Resolves the drop of an intent of a session.
pub(crate) fn resolve_drop(
    session: &Session,
    workspace_id: &str,
    workspace_revision: u64,
    contents: Option<&Vec<ArtifactContentV1>>,
    observations: &Vec<DropTargetObservationV1>,
    intent_ref: &IntentVersionRef,
) -> (r: Result<ResolvedDrop, KernelError>)
    ensures
        outcome(r) == session_drop(
            session.deep_view(),
            workspace_id@,
            workspace_revision,
            contents.deep_view(),
            observations.deep_view(),
            intent_ref.deep_view(),
        ),
{
    let records = match &session.durable_records {
        None => {
            return Err(KernelError::new("Intent drop preview requires a durable session"));
        },
        Some(records) => records,
    };
    let readable = match contents {
        None => {
            return Err(KernelError::new("Intent drop preview requires mutation artifacts"));
        },
        Some(readable) => readable,
    };
    let admission = IntentStackProjectionV1::from_records(records)?;
    let lineage = IntentLineageProjectionV1::from_records(records, &admission, &session.tasks)?;
    let mut layers = IntentLayerProjectionV1::from_records(records, &admission, &lineage)?;
    layers.refresh_artifact_availability(readable);
    let operations = IntentOperationProjectionV1::from_records(records, &admission, &layers)?;
    resolve_drop_from_parts(
        frontier_sequence(records),
        workspace_id,
        workspace_revision,
        readable,
        observations,
        &admission,
        &lineage,
        &layers,
        operations.dropped_intents(),
        intent_ref,
    )
}

/// Builds a preview of the drop of an intent, without any change: from the layers that the durable
/// stream proves, from the stored artifacts that can be read, and from what was found in the
/// workspace. A file that nobody looked at is in conflict.
pub fn preview_intent_drop(
    session: &Session,
    workspace_id: &str,
    workspace_revision: u64,
    contents: Option<&Vec<ArtifactContentV1>>,
    observations: &Vec<DropTargetObservationV1>,
    intent_ref: &IntentVersionRef,
) -> (r: Result<IntentOperationPreviewV1, KernelError>)
    ensures
        outcome(r) == match session_drop(
            session.deep_view(),
            workspace_id@,
            workspace_revision,
            contents.deep_view(),
            observations.deep_view(),
            intent_ref.deep_view(),
        ) {
            Ok(resolved) => Ok::<IntentOperationPreviewV1View, Seq<char>>(resolved.preview),
            Err(m) => Err(m),
        },
{
    let resolved = resolve_drop(
        session,
        workspace_id,
        workspace_revision,
        contents,
        observations,
        intent_ref,
    )?;
    Ok(resolved.preview)
}

// Laws.

proof fn lemma_artifact_conflicts(
    intent_ref: IntentVersionRefView,
    artifacts: Seq<EffectiveIntentArtifactV1View>,
    others: Seq<IntentConflictV1View>,
)
    ensures
        artifact_conflicts(intent_ref, artifacts, others).len() >= others.len(),
        artifact_conflicts(intent_ref, artifacts, others).len() == 0 ==> all_where(
            artifacts,
            has_no_obstacle(),
        ),
    decreases artifacts.len(),
{
    if artifacts.len() > 0 {
        let rest = artifacts.drop_last();
        lemma_artifact_conflicts(intent_ref, rest, others);
        if artifact_conflicts(intent_ref, artifacts, others).len() == 0 {
            assert forall|i: int| 0 <= i < artifacts.len() implies has_no_obstacle()(
                #[trigger] artifacts[i],
            ) by {
                if i < rest.len() {
                    assert(rest[i] == artifacts[i]);
                    assert(has_no_obstacle()(rest[i]));
                }
            }
        }
    }
}

proof fn lemma_foreign_conflicts(
    intent_ref: IntentVersionRefView,
    artifacts: Seq<EffectiveIntentArtifactV1View>,
    others: Seq<IntentConflictV1View>,
)
    ensures
        foreign_conflicts(intent_ref, artifacts, others).len() >= others.len(),
        foreign_conflicts(intent_ref, artifacts, others).len() == 0 ==> all_where(
            artifacts,
            is_hunk(),
        ),
    decreases artifacts.len(),
{
    if artifacts.len() > 0 {
        let rest = artifacts.drop_last();
        lemma_foreign_conflicts(intent_ref, rest, others);
        if foreign_conflicts(intent_ref, artifacts, others).len() == 0 {
            assert forall|i: int| 0 <= i < artifacts.len() implies is_hunk()(
                #[trigger] artifacts[i],
            ) by {
                if i < rest.len() {
                    assert(rest[i] == artifacts[i]);
                    assert(is_hunk()(rest[i]));
                }
            }
        }
    }
}

proof fn lemma_patch_conflicts(
    intent_ref: IntentVersionRefView,
    artifacts: Seq<EffectiveIntentArtifactV1View>,
    observations: Seq<DropTargetObservationV1View>,
    patch: Seq<ExactIntentPatchFileV1View>,
    others: Seq<IntentConflictV1View>,
)
    ensures
        patch_after(intent_ref, artifacts, observations, patch, others).conflicts.len()
            >= others.len(),
        patch_after(intent_ref, artifacts, observations, patch, others).conflicts.len() == 0
            ==> all_where(
            patch_after(intent_ref, artifacts, observations, patch, others).files,
            is_untouched(observations),
        ),
    decreases patch.len(),
{
    if patch.len() > 0 {
        let rest = patch.drop_last();
        lemma_patch_conflicts(intent_ref, artifacts, observations, rest, others);
        let before = patch_after(intent_ref, artifacts, observations, rest, others);
        let all = patch_after(intent_ref, artifacts, observations, patch, others);
        let f = patch.last();
        lemma_selected(artifacts, is_hunk_at(f.path));
        if all.conflicts.len() == 0 {
            assert forall|i: int| 0 <= i < all.files.len() implies is_untouched(observations)(
                #[trigger] all.files[i],
            ) by {
                if i < before.files.len() {
                    assert(all.files[i] == before.files[i]);
                    assert(is_untouched(observations)(before.files[i]));
                }
            }
        }
    }
}

/// Nothing stands in the way of an artifact.
pub open spec fn has_no_obstacle() -> spec_fn(EffectiveIntentArtifactV1View) -> bool {
    |a: EffectiveIntentArtifactV1View|
        a.ownership == IntentArtifactOwnership::Exclusive && a.availability
            == IntentArtifactAvailability::Available
}

/// A file was found as it must be before it is changed.
pub open spec fn is_untouched(observations: Seq<DropTargetObservationV1View>) -> spec_fn(
    ResolvedDropFileView,
) -> bool {
    |f: ResolvedDropFileView|
        found_at(observations, f.path).2 == f.expected_hash && in_scope(
            found_at(observations, f.path),
            f.expected_hash is Some,
        )
}

/// A drop without conflicts is exact: the intent is still there and nothing builds on it, it has a layer
/// whose artifacts are all its own and can all be read, and every file that is to be changed was found
/// in the workspace as the layer left it.
pub proof fn law_drops_without_conflicts_are_exact(
    frontier: u64,
    workspace_revision: u64,
    contents: Seq<ArtifactContentV1View>,
    observations: Seq<DropTargetObservationV1View>,
    plan: IntentPlanV1View,
    lineage: IntentLineageProjectionV1View,
    layers: IntentLayerProjectionV1View,
    dropped: Seq<IntentVersionRefView>,
    intent_ref: IntentVersionRefView,
)
    requires
        drop_of(
            frontier,
            workspace_revision,
            contents,
            observations,
            plan,
            lineage,
            layers,
            dropped,
            intent_ref,
        ).preview.conflicts.len() == 0,
    ensures
        !dropped.contains(intent_ref),
        is_leaf(plan, dropped, intent_ref),
        latest_layer(layers, intent_ref) matches Some(layer) && all_where(
            layer.artifacts,
            has_no_obstacle(),
        ) && all_where(layer.artifacts, is_hunk()),
        all_where(
            drop_of(
                frontier,
                workspace_revision,
                contents,
                observations,
                plan,
                lineage,
                layers,
                dropped,
                intent_ref,
            ).files,
            is_untouched(observations),
        ),
{
    let leaf = is_leaf(plan, dropped, intent_ref);
    let others = target_conflicts(intent_ref, dropped.contains(intent_ref), leaf);
    let found = latest_layer(layers, intent_ref);
    let resolved = drop_of_layer(intent_ref, found, contents, observations, others);
    lemma_in_order(resolved.1.conflicts, conflict_order());
    if let Some(layer) = found {
        let own = artifact_conflicts(intent_ref, layer.artifacts, others);
        lemma_artifact_conflicts(intent_ref, layer.artifacts, others);
        lemma_foreign_conflicts(intent_ref, layer.artifacts, own);
        let bytes = content_of(contents, layer.layer_manifest.core.reverse_patch_artifact_id)->0;
        let patch = read_patch(bytes)->Ok_0;
        let start = add_if(
            foreign_conflicts(intent_ref, layer.artifacts, own),
            !patch_covers(layer.artifacts, patch),
            drop_conflict(
                IntentOperationErrorCode::ArtifactDigestMismatch,
                intent_ref,
                None,
                "Intent reverse patch paths do not match the layer manifest"@,
            ),
        );
        lemma_patch_conflicts(intent_ref, layer.artifacts, observations, patch, start);
        let all = patch_after(intent_ref, layer.artifacts, observations, patch, start);
        assert(resolved.1 == resolved_files(
            intent_ref,
            layer.artifacts,
            observations,
            patch,
            own,
        ));
        lemma_in_order(all.files, file_order());
        let files = items_in_order(all.files, file_order());
        assert forall|i: int| 0 <= i < files.len() implies is_untouched(observations)(
            #[trigger] files[i],
        ) by {
            assert(files.contains(files[i]));
            vstd::seq_lib::to_multiset_contains(files, files[i]);
            vstd::seq_lib::to_multiset_contains(all.files, files[i]);
            let k = choose|k: int| 0 <= k < all.files.len() && all.files[k] == files[i];
            assert(is_untouched(observations)(all.files[k]));
        }
    }
}

proof fn lemma_patch_effects(
    intent_ref: IntentVersionRefView,
    artifacts: Seq<EffectiveIntentArtifactV1View>,
    observations: Seq<DropTargetObservationV1View>,
    patch: Seq<ExactIntentPatchFileV1View>,
    others: Seq<IntentConflictV1View>,
)
    requires
        patch_after(intent_ref, artifacts, observations, patch, others).conflicts.len() == 0,
        all_where(patch, has_artifact(artifacts)),
    ensures
        patch_after(intent_ref, artifacts, observations, patch, others).effects.len() == patch.len(),
        patch_after(intent_ref, artifacts, observations, patch, others).files.len() == patch.len(),
        forall|i: int|
            0 <= i < patch.len() ==> #[trigger] patch_after(
                intent_ref,
                artifacts,
                observations,
                patch,
                others,
            ).effects[i] == file_effect(artifacts, patch[i]),
    decreases patch.len(),
{
    if patch.len() > 0 {
        let rest = patch.drop_last();
        let f = patch.last();
        assert(patch[patch.len() - 1] == f);
        assert(has_artifact(artifacts)(f));
        lemma_selected(artifacts, is_hunk_at(f.path));
        lemma_patch_conflicts(intent_ref, artifacts, observations, rest, others);
        assert forall|i: int| 0 <= i < rest.len() implies has_artifact(artifacts)(
            #[trigger] rest[i],
        ) by {
            assert(rest[i] == patch[i]);
            assert(has_artifact(artifacts)(patch[i]));
        }
        lemma_patch_effects(intent_ref, artifacts, observations, rest, others);
        let before = patch_after(intent_ref, artifacts, observations, rest, others);
        let all = patch_after(intent_ref, artifacts, observations, patch, others);
        assert(has_effect(artifacts)(f));
        assert forall|i: int| 0 <= i < patch.len() implies #[trigger] all.effects[i] == file_effect(
            artifacts,
            patch[i],
        ) by {
            if i < rest.len() {
                assert(before.effects[i] == file_effect(artifacts, rest[i]));
            }
        }
    }
}

proof fn lemma_order_keeps_effects(
    artifacts: Seq<EffectiveIntentArtifactV1View>,
    effects: Seq<IntentOperationFileSummaryV1View>,
)
    requires
        effects_fit(artifacts, effects),
    ensures
        effects_fit(artifacts, items_in_order(effects, effect_order())),
{
    let sorted = items_in_order(effects, effect_order());
    lemma_in_order(effects, effect_order());
    let paths = paths_in_effects(effects);
    assert(effects.no_duplicates()) by {
        assert forall|i: int, j: int| 0 <= i < j < effects.len() implies effects[i] != effects[j] by {
            assert(paths[i] != paths[j]);
        }
    }
    effects.lemma_multiset_has_no_duplicates();
    sorted.lemma_multiset_has_no_duplicates_conv();
    assert forall|x: IntentOperationFileSummaryV1View| #[trigger]
        sorted.contains(x) == effects.contains(x) by {
        vstd::seq_lib::to_multiset_contains(sorted, x);
        vstd::seq_lib::to_multiset_contains(effects, x);
    }
    let sorted_paths = paths_in_effects(sorted);
    assert forall|i: int, j: int| 0 <= i < j < sorted_paths.len() implies #[trigger] sorted_paths[i]
        != #[trigger] sorted_paths[j] by {
        if sorted_paths[i] == sorted_paths[j] {
            assert(sorted.contains(sorted[i]) && sorted.contains(sorted[j]));
            let a = choose|a: int| 0 <= a < effects.len() && effects[a] == sorted[i];
            let b = choose|b: int| 0 <= b < effects.len() && effects[b] == sorted[j];
            assert(paths[a] == paths[b]);
            assert(a == b);
        }
    }
    assert forall|i: int| 0 <= i < sorted.len() implies file_effect_fits(artifacts)(
        #[trigger] sorted[i],
    ) by {
        assert(sorted.contains(sorted[i]));
        let a = choose|a: int| 0 <= a < effects.len() && effects[a] == sorted[i];
        assert(file_effect_fits(artifacts)(effects[a]));
    }
    assert forall|i: int| 0 <= i < artifacts.len() implies is_covered(sorted_paths)(
        #[trigger] artifacts[i],
    ) by {
        assert(is_covered(paths)(artifacts[i]));
        let path = artifact_path_of(artifacts[i].binding);
        let k = choose|k: int| 0 <= k < paths.len() && paths[k] == path;
        assert(effects.contains(effects[k]));
        assert(sorted.contains(effects[k]));
        let m = choose|m: int| 0 <= m < sorted.len() && sorted[m] == effects[k];
        assert(sorted_paths[m] == path);
    }
}

proof fn lemma_drop_effects_fit(
    intent_ref: IntentVersionRefView,
    artifacts: Seq<EffectiveIntentArtifactV1View>,
    observations: Seq<DropTargetObservationV1View>,
    patch: Seq<ExactIntentPatchFileV1View>,
    others: Seq<IntentConflictV1View>,
)
    requires
        distinct(patch_paths(patch)),
        resolved_files(intent_ref, artifacts, observations, patch, others).conflicts.len() == 0,
    ensures
        effects_fit(
            artifacts,
            resolved_files(intent_ref, artifacts, observations, patch, others).effects,
        ),
{
    let start = add_if(
        foreign_conflicts(intent_ref, artifacts, others),
        !patch_covers(artifacts, patch),
        drop_conflict(
            IntentOperationErrorCode::ArtifactDigestMismatch,
            intent_ref,
            None,
            "Intent reverse patch paths do not match the layer manifest"@,
        ),
    );
    let all = patch_after(intent_ref, artifacts, observations, patch, start);
    lemma_foreign_conflicts(intent_ref, artifacts, others);
    lemma_patch_conflicts(intent_ref, artifacts, observations, patch, start);
    lemma_patch_effects(intent_ref, artifacts, observations, patch, start);
    let paths = paths_in_effects(all.effects);
    assert(paths =~= patch_paths(patch)) by {
        assert forall|i: int| 0 <= i < paths.len() implies paths[i] == patch_paths(patch)[i] by {
            assert(all.effects[i] == file_effect(artifacts, patch[i]));
        }
    }
    assert forall|i: int| 0 <= i < all.effects.len() implies file_effect_fits(artifacts)(
        #[trigger] all.effects[i],
    ) by {
        assert(all.effects[i] == file_effect(artifacts, patch[i]));
        assert(has_artifact(artifacts)(patch[i]));
    }
    assert forall|i: int| 0 <= i < artifacts.len() implies is_covered(paths)(
        #[trigger] artifacts[i],
    ) by {
        assert(is_hunk()(artifacts[i]));
        assert(is_patched(patch_paths(patch))(artifacts[i]));
    }
    lemma_order_keeps_effects(artifacts, all.effects);
}

/// A drop without conflicts has a file to change.
pub proof fn lemma_drops_without_conflicts_have_files(
    frontier: u64,
    workspace_revision: u64,
    contents: Seq<ArtifactContentV1View>,
    observations: Seq<DropTargetObservationV1View>,
    plan: IntentPlanV1View,
    lineage: IntentLineageProjectionV1View,
    layers: IntentLayerProjectionV1View,
    dropped: Seq<IntentVersionRefView>,
    intent_ref: IntentVersionRefView,
)
    requires
        drop_of(
            frontier,
            workspace_revision,
            contents,
            observations,
            plan,
            lineage,
            layers,
            dropped,
            intent_ref,
        ).preview.conflicts.len() == 0,
    ensures
        drop_of(
            frontier,
            workspace_revision,
            contents,
            observations,
            plan,
            lineage,
            layers,
            dropped,
            intent_ref,
        ).files.len() > 0,
{
    let others = target_conflicts(
        intent_ref,
        dropped.contains(intent_ref),
        is_leaf(plan, dropped, intent_ref),
    );
    let found = latest_layer(layers, intent_ref);
    let resolved = drop_of_layer(intent_ref, found, contents, observations, others);
    lemma_in_order(resolved.1.conflicts, conflict_order());
    if let Some(layer) = found {
        let own = artifact_conflicts(intent_ref, layer.artifacts, others);
        let bytes = content_of(contents, layer.layer_manifest.core.reverse_patch_artifact_id)->0;
        let patch = read_patch(bytes)->Ok_0;
        lemma_read_patches_have_files(bytes);
        let start = add_if(
            foreign_conflicts(intent_ref, layer.artifacts, own),
            !patch_covers(layer.artifacts, patch),
            drop_conflict(
                IntentOperationErrorCode::ArtifactDigestMismatch,
                intent_ref,
                None,
                "Intent reverse patch paths do not match the layer manifest"@,
            ),
        );
        lemma_patch_conflicts(intent_ref, layer.artifacts, observations, patch, start);
        lemma_patch_effects(intent_ref, layer.artifacts, observations, patch, start);
        let all = patch_after(intent_ref, layer.artifacts, observations, patch, start);
        lemma_in_order(all.files, file_order());
    }
}

proof fn lemma_same_last<A>(s: Seq<A>, p: spec_fn(A) -> bool, q: spec_fn(A) -> bool)
    requires
        forall|i: int| 0 <= i < s.len() ==> p(#[trigger] s[i]) == q(s[i]),
    ensures
        last_where(s, p) == last_where(s, q),
    decreases s.len(),
{
    if s.len() > 0 {
        let rest = s.drop_last();
        assert(p(s[s.len() - 1]) == q(s[s.len() - 1]));
        assert forall|i: int| 0 <= i < rest.len() implies p(#[trigger] rest[i]) == q(rest[i]) by {
            assert(rest[i] == s[i]);
        }
        lemma_same_last(rest, p, q);
    }
}

/// The layer was completed by a record of the stream.
pub open spec fn is_complete_by(frontier: u64) -> spec_fn(IntentLayerStateV1View) -> bool {
    |l: IntentLayerStateV1View| l.layer_stream_sequence <= frontier
}

/// What is previewed can be requested: a replay that finds the request of a preview right behind the
/// records that the preview was made from derives the same identity, the same dependencies, the same
/// retained intents and the same files from its own state, and accepts it.
pub proof fn law_previewed_drops_can_be_requested(
    frontier: u64,
    workspace_revision: u64,
    contents: Seq<ArtifactContentV1View>,
    observations: Seq<DropTargetObservationV1View>,
    plan: IntentPlanV1View,
    lineage: IntentLineageProjectionV1View,
    layers: IntentLayerProjectionV1View,
    dropped: Seq<IntentVersionRefView>,
    intent_ref: IntentVersionRefView,
)
    requires
        frontier < u64::MAX,
        all_where(layers.layers, is_complete_by(frontier)),
    ensures
        requested_preview_verdict(
            drop_of(
                frontier,
                workspace_revision,
                contents,
                observations,
                plan,
                lineage,
                layers,
                dropped,
                intent_ref,
            ).preview,
            plan,
            layers,
            dropped,
            next_number(frontier),
        ) is Ok,
{
    let resolved = drop_of(
        frontier,
        workspace_revision,
        contents,
        observations,
        plan,
        lineage,
        layers,
        dropped,
        intent_ref,
    );
    if resolved.preview.conflicts.len() == 0 {
        law_drops_without_conflicts_are_exact(
            frontier,
            workspace_revision,
            contents,
            observations,
            plan,
            lineage,
            layers,
            dropped,
            intent_ref,
        );
        let layer = latest_layer(layers, intent_ref)->0;
        let others = target_conflicts(
            intent_ref,
            dropped.contains(intent_ref),
            is_leaf(plan, dropped, intent_ref),
        );
        let got = drop_of_layer(intent_ref, Some(layer), contents, observations, others);
        lemma_in_order(got.1.conflicts, conflict_order());
        let own = artifact_conflicts(intent_ref, layer.artifacts, others);
        let bytes = content_of(contents, layer.layer_manifest.core.reverse_patch_artifact_id)->0;
        let patch = read_patch(bytes)->Ok_0;
        lemma_read_paths_are_distinct(bytes);
        assert(got.1 == resolved_files(intent_ref, layer.artifacts, observations, patch, own));
        lemma_drop_effects_fit(intent_ref, layer.artifacts, observations, patch, own);
        let p = is_layer_of(intent_ref);
        let q = is_earlier_layer_of(intent_ref, next_number(frontier));
        assert forall|i: int| 0 <= i < layers.layers.len() implies p(#[trigger] layers.layers[i])
            == q(layers.layers[i]) by {
            assert(is_complete_by(frontier)(layers.layers[i]));
        }
        lemma_same_last(layers.layers, p, q);
    }
}

} // verus!
