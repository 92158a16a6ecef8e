//! The states that the kernel keeps and replays: admissions, executions, layers and operations.

use vstd::prelude::*;

use crate::intent::{
    IntentAcceptanceKind, IntentApplicationState, IntentArtifactAvailability,
    IntentArtifactBindingV1, IntentArtifactBindingV1View, IntentArtifactManifestV1,
    IntentArtifactManifestV1View, IntentArtifactOwnership, IntentContentDigest, IntentDigest,
    IntentExecutionBindingV1, IntentExecutionBindingV1View, IntentExecutionId, IntentId,
    IntentLayerManifestV1, IntentLayerManifestV1View, IntentOperationErrorCode, IntentOperationId,
    IntentOperationKind, IntentOperationPreviewV1, IntentOperationPreviewV1View,
    IntentOperationResolution, IntentPlanV1, IntentPlanV1View, IntentProposalCriterionV1,
    IntentProposalCriterionV1View, IntentStackId, IntentStackVersion, IntentTaskPlanBindingV1,
    IntentTaskPlanBindingV1View, IntentVersionRef, IntentVersionRefView,
    PublicIntentArtifactSummaryV1, PublicIntentArtifactSummaryV1View,
};
use crate::json::{add_member, close_object, member, object, Encode};
use crate::value::{Keyed, Value};

verus! {

/// The intent that an alias stands for.
#[derive(Debug, Clone, PartialEq, Eq)]
pub struct ResolvedIntentAlias {
    pub alias: String,
    pub intent_ref: IntentVersionRef,
}

/// What a [`ResolvedIntentAlias`] holds.
#[verifier::ext_equal]
pub struct ResolvedIntentAliasView {
    pub alias: Seq<char>,
    pub intent_ref: IntentVersionRefView,
}

impl DeepView for ResolvedIntentAlias {
    type V = ResolvedIntentAliasView;

    open spec fn deep_view(&self) -> ResolvedIntentAliasView {
        ResolvedIntentAliasView {
            alias: self.alias.deep_view(),
            intent_ref: self.intent_ref.deep_view(),
        }
    }
}

impl Value for ResolvedIntentAlias {
    fn same(&self, other: &Self) -> (r: bool) {
        self.alias.same(&other.alias)
            && self.intent_ref.same(&other.intent_ref)
    }

    fn duplicate(&self) -> (r: Self) {
        ResolvedIntentAlias {
            alias: self.alias.duplicate(),
            intent_ref: self.intent_ref.duplicate(),
        }
    }
}

/// Host-owned identity and workspace scope for one initial IntentPlan admission.
#[derive(Debug, Clone, PartialEq, Eq)]
pub struct IntentAdmissionContextV1 {
    pub stack_id: IntentStackId,
    pub stack_version: IntentStackVersion,
    pub workspace_id: String,
    pub source_session_id: String,
}

/// What a [`IntentAdmissionContextV1`] holds.
#[verifier::ext_equal]
pub struct IntentAdmissionContextV1View {
    pub stack_id: Seq<char>,
    pub stack_version: u64,
    pub workspace_id: Seq<char>,
    pub source_session_id: Seq<char>,
}

impl DeepView for IntentAdmissionContextV1 {
    type V = IntentAdmissionContextV1View;

    open spec fn deep_view(&self) -> IntentAdmissionContextV1View {
        IntentAdmissionContextV1View {
            stack_id: self.stack_id.deep_view(),
            stack_version: self.stack_version.deep_view(),
            workspace_id: self.workspace_id.deep_view(),
            source_session_id: self.source_session_id.deep_view(),
        }
    }
}

impl Value for IntentAdmissionContextV1 {
    fn same(&self, other: &Self) -> (r: bool) {
        self.stack_id.same(&other.stack_id)
            && self.stack_version.same(&other.stack_version)
            && self.workspace_id.same(&other.workspace_id)
            && self.source_session_id.same(&other.source_session_id)
    }

    fn duplicate(&self) -> (r: Self) {
        IntentAdmissionContextV1 {
            stack_id: self.stack_id.duplicate(),
            stack_version: self.stack_version.duplicate(),
            workspace_id: self.workspace_id.duplicate(),
            source_session_id: self.source_session_id.duplicate(),
        }
    }
}

/// Host-resolved root definition for the original user outcome.  Criterion aliases are local draft
/// keys only. Runtime admission replaces them with content-bound criterion ids.
#[derive(Debug, Clone, PartialEq, Eq)]
pub struct UserDeclaredIntentV1 {
    pub title: String,
    pub statement: String,
    pub acceptance_criteria: Vec<IntentProposalCriterionV1>,
}

/// What a [`UserDeclaredIntentV1`] holds.
#[verifier::ext_equal]
pub struct UserDeclaredIntentV1View {
    pub title: Seq<char>,
    pub statement: Seq<char>,
    pub acceptance_criteria: Seq<IntentProposalCriterionV1View>,
}

impl DeepView for UserDeclaredIntentV1 {
    type V = UserDeclaredIntentV1View;

    open spec fn deep_view(&self) -> UserDeclaredIntentV1View {
        UserDeclaredIntentV1View {
            title: self.title.deep_view(),
            statement: self.statement.deep_view(),
            acceptance_criteria: self.acceptance_criteria.deep_view(),
        }
    }
}

impl Value for UserDeclaredIntentV1 {
    fn same(&self, other: &Self) -> (r: bool) {
        self.title.same(&other.title)
            && self.statement.same(&other.statement)
            && self.acceptance_criteria.same(&other.acceptance_criteria)
    }

    fn duplicate(&self) -> (r: Self) {
        UserDeclaredIntentV1 {
            title: self.title.duplicate(),
            statement: self.statement.duplicate(),
            acceptance_criteria: self.acceptance_criteria.duplicate(),
        }
    }
}

/// Host-owned mapping from one Task step to provider-local intent aliases.
#[derive(Debug, Clone, PartialEq, Eq)]
pub struct TaskStepIntentAliasBindingV1 {
    pub step_id: String,
    pub intent_aliases: Vec<String>,
}

/// What a [`TaskStepIntentAliasBindingV1`] holds.
#[verifier::ext_equal]
pub struct TaskStepIntentAliasBindingV1View {
    pub step_id: Seq<char>,
    pub intent_aliases: Seq<Seq<char>>,
}

impl DeepView for TaskStepIntentAliasBindingV1 {
    type V = TaskStepIntentAliasBindingV1View;

    open spec fn deep_view(&self) -> TaskStepIntentAliasBindingV1View {
        TaskStepIntentAliasBindingV1View {
            step_id: self.step_id.deep_view(),
            intent_aliases: self.intent_aliases.deep_view(),
        }
    }
}

impl Value for TaskStepIntentAliasBindingV1 {
    fn same(&self, other: &Self) -> (r: bool) {
        self.step_id.same(&other.step_id)
            && self.intent_aliases.same(&other.intent_aliases)
    }

    fn duplicate(&self) -> (r: Self) {
        TaskStepIntentAliasBindingV1 {
            step_id: self.step_id.duplicate(),
            intent_aliases: self.intent_aliases.duplicate(),
        }
    }
}

/// One accepted plan reconstructed from durable admission events.
#[derive(Debug, Clone, PartialEq, Eq)]
pub struct AcceptedIntentPlanProjectionV1 {
    pub plan: IntentPlanV1,
    pub acceptance_kind: IntentAcceptanceKind,
    pub source_turn_id: String,
    pub acceptance_authority_id: String,
    pub task_plan_binding: Option<IntentTaskPlanBindingV1>,
    pub accepted_event_id: String,
    pub accepted_stream_sequence: u64,
}

/// What a [`AcceptedIntentPlanProjectionV1`] holds.
#[verifier::ext_equal]
pub struct AcceptedIntentPlanProjectionV1View {
    pub plan: IntentPlanV1View,
    pub acceptance_kind: IntentAcceptanceKind,
    pub source_turn_id: Seq<char>,
    pub acceptance_authority_id: Seq<char>,
    pub task_plan_binding: Option<IntentTaskPlanBindingV1View>,
    pub accepted_event_id: Seq<char>,
    pub accepted_stream_sequence: u64,
}

impl DeepView for AcceptedIntentPlanProjectionV1 {
    type V = AcceptedIntentPlanProjectionV1View;

    open spec fn deep_view(&self) -> AcceptedIntentPlanProjectionV1View {
        AcceptedIntentPlanProjectionV1View {
            plan: self.plan.deep_view(),
            acceptance_kind: self.acceptance_kind.deep_view(),
            source_turn_id: self.source_turn_id.deep_view(),
            acceptance_authority_id: self.acceptance_authority_id.deep_view(),
            task_plan_binding: self.task_plan_binding.deep_view(),
            accepted_event_id: self.accepted_event_id.deep_view(),
            accepted_stream_sequence: self.accepted_stream_sequence.deep_view(),
        }
    }
}

impl Value for AcceptedIntentPlanProjectionV1 {
    fn same(&self, other: &Self) -> (r: bool) {
        self.plan.same(&other.plan)
            && self.acceptance_kind.same(&other.acceptance_kind)
            && self.source_turn_id.same(&other.source_turn_id)
            && self.acceptance_authority_id.same(&other.acceptance_authority_id)
            && self.task_plan_binding.same(&other.task_plan_binding)
            && self.accepted_event_id.same(&other.accepted_event_id)
            && self.accepted_stream_sequence.same(&other.accepted_stream_sequence)
    }

    fn duplicate(&self) -> (r: Self) {
        AcceptedIntentPlanProjectionV1 {
            plan: self.plan.duplicate(),
            acceptance_kind: self.acceptance_kind.duplicate(),
            source_turn_id: self.source_turn_id.duplicate(),
            acceptance_authority_id: self.acceptance_authority_id.duplicate(),
            task_plan_binding: self.task_plan_binding.duplicate(),
            accepted_event_id: self.accepted_event_id.duplicate(),
            accepted_stream_sequence: self.accepted_stream_sequence.duplicate(),
        }
    }
}

/// The stack that a stream belongs to.
#[derive(Debug, Clone, PartialEq, Eq)]
pub struct IntentStackHeaderV1 {
    pub stack_id: IntentStackId,
    pub workspace_id: String,
    pub source_session_id: String,
}

/// What a [`IntentStackHeaderV1`] holds.
#[verifier::ext_equal]
pub struct IntentStackHeaderV1View {
    pub stack_id: Seq<char>,
    pub workspace_id: Seq<char>,
    pub source_session_id: Seq<char>,
}

impl DeepView for IntentStackHeaderV1 {
    type V = IntentStackHeaderV1View;

    open spec fn deep_view(&self) -> IntentStackHeaderV1View {
        IntentStackHeaderV1View {
            stack_id: self.stack_id.deep_view(),
            workspace_id: self.workspace_id.deep_view(),
            source_session_id: self.source_session_id.deep_view(),
        }
    }
}

impl Value for IntentStackHeaderV1 {
    fn same(&self, other: &Self) -> (r: bool) {
        self.stack_id.same(&other.stack_id)
            && self.workspace_id.same(&other.workspace_id)
            && self.source_session_id.same(&other.source_session_id)
    }

    fn duplicate(&self) -> (r: Self) {
        IntentStackHeaderV1 {
            stack_id: self.stack_id.duplicate(),
            workspace_id: self.workspace_id.duplicate(),
            source_session_id: self.source_session_id.duplicate(),
        }
    }
}

/// An acceptance that still waits for its task plan.
#[derive(Debug, Clone, PartialEq, Eq)]
pub struct PendingTaskIntentAcceptanceV1 {
    pub accepted: AcceptedIntentPlanProjectionV1,
}

/// What a [`PendingTaskIntentAcceptanceV1`] holds.
#[verifier::ext_equal]
pub struct PendingTaskIntentAcceptanceV1View {
    pub accepted: AcceptedIntentPlanProjectionV1View,
}

impl DeepView for PendingTaskIntentAcceptanceV1 {
    type V = PendingTaskIntentAcceptanceV1View;

    open spec fn deep_view(&self) -> PendingTaskIntentAcceptanceV1View {
        PendingTaskIntentAcceptanceV1View {
            accepted: self.accepted.deep_view(),
        }
    }
}

impl Value for PendingTaskIntentAcceptanceV1 {
    fn same(&self, other: &Self) -> (r: bool) {
        self.accepted.same(&other.accepted)
    }

    fn duplicate(&self) -> (r: Self) {
        PendingTaskIntentAcceptanceV1 {
            accepted: self.accepted.duplicate(),
        }
    }
}

/// Result of one idempotent durable admission attempt.
#[derive(Debug, Clone, PartialEq, Eq)]
pub struct IntentAdmissionWriteOutcomeV1 {
    pub appended: bool,
    pub stack_id: IntentStackId,
    pub stack_version: IntentStackVersion,
    pub plan_digest: IntentDigest,
}

/// What a [`IntentAdmissionWriteOutcomeV1`] holds.
#[verifier::ext_equal]
pub struct IntentAdmissionWriteOutcomeV1View {
    pub appended: bool,
    pub stack_id: Seq<char>,
    pub stack_version: u64,
    pub plan_digest: Seq<char>,
}

impl DeepView for IntentAdmissionWriteOutcomeV1 {
    type V = IntentAdmissionWriteOutcomeV1View;

    open spec fn deep_view(&self) -> IntentAdmissionWriteOutcomeV1View {
        IntentAdmissionWriteOutcomeV1View {
            appended: self.appended.deep_view(),
            stack_id: self.stack_id.deep_view(),
            stack_version: self.stack_version.deep_view(),
            plan_digest: self.plan_digest.deep_view(),
        }
    }
}

impl Value for IntentAdmissionWriteOutcomeV1 {
    fn same(&self, other: &Self) -> (r: bool) {
        self.appended.same(&other.appended)
            && self.stack_id.same(&other.stack_id)
            && self.stack_version.same(&other.stack_version)
            && self.plan_digest.same(&other.plan_digest)
    }

    fn duplicate(&self) -> (r: Self) {
        IntentAdmissionWriteOutcomeV1 {
            appended: self.appended.duplicate(),
            stack_id: self.stack_id.duplicate(),
            stack_version: self.stack_version.duplicate(),
            plan_digest: self.plan_digest.duplicate(),
        }
    }
}

/// Why the latest execution cannot advance beyond read-only provenance.
#[derive(Debug, Clone, Copy, PartialEq, Eq, Structural)]
pub enum IntentLineageReadOnlyReasonV1 {
    MissingChangeSet,
    MissingParentMutation,
    GitRefAdvance,
    StaleParentSnapshot,
}

impl DeepView for IntentLineageReadOnlyReasonV1 {
    type V = IntentLineageReadOnlyReasonV1;

    open spec fn deep_view(&self) -> IntentLineageReadOnlyReasonV1 {
        *self
    }
}

impl Value for IntentLineageReadOnlyReasonV1 {
    fn same(&self, other: &Self) -> (r: bool) {
        *self == *other
    }

    fn duplicate(&self) -> (r: Self) {
        *self
    }
}

/// Public-safe summary for one accepted intent.
#[derive(Debug, Clone, PartialEq, Eq)]
pub struct IntentLineageSummaryV1 {
    pub application_state: Option<IntentApplicationState>,
    pub advisory_criterion_count: u32,
    pub system_verified_criterion_count: u32,
    pub read_only_reason: Option<IntentLineageReadOnlyReasonV1>,
}

/// What a [`IntentLineageSummaryV1`] holds.
#[verifier::ext_equal]
pub struct IntentLineageSummaryV1View {
    pub application_state: Option<IntentApplicationState>,
    pub advisory_criterion_count: u32,
    pub system_verified_criterion_count: u32,
    pub read_only_reason: Option<IntentLineageReadOnlyReasonV1>,
}

impl DeepView for IntentLineageSummaryV1 {
    type V = IntentLineageSummaryV1View;

    open spec fn deep_view(&self) -> IntentLineageSummaryV1View {
        IntentLineageSummaryV1View {
            application_state: self.application_state.deep_view(),
            advisory_criterion_count: self.advisory_criterion_count.deep_view(),
            system_verified_criterion_count: self.system_verified_criterion_count.deep_view(),
            read_only_reason: self.read_only_reason.deep_view(),
        }
    }
}

impl Default for IntentLineageSummaryV1 {
    fn default() -> (r: Self)
        ensures
            r.deep_view() == (IntentLineageSummaryV1View {
                application_state: None,
                advisory_criterion_count: 0,
                system_verified_criterion_count: 0,
                read_only_reason: None,
            }),
    {
        IntentLineageSummaryV1 {
            application_state: None,
            advisory_criterion_count: 0,
            system_verified_criterion_count: 0,
            read_only_reason: None,
        }
    }
}

impl Value for IntentLineageSummaryV1 {
    fn same(&self, other: &Self) -> (r: bool) {
        self.application_state.same(&other.application_state)
            && self.advisory_criterion_count.same(&other.advisory_criterion_count)
            && self.system_verified_criterion_count.same(&other.system_verified_criterion_count)
            && self.read_only_reason.same(&other.read_only_reason)
    }

    fn duplicate(&self) -> (r: Self) {
        IntentLineageSummaryV1 {
            application_state: self.application_state.duplicate(),
            advisory_criterion_count: self.advisory_criterion_count.duplicate(),
            system_verified_criterion_count: self.system_verified_criterion_count.duplicate(),
            read_only_reason: self.read_only_reason.duplicate(),
        }
    }
}

/// Replayed state for one concrete Task or Chat execution.
#[derive(Debug, Clone, PartialEq, Eq)]
pub struct IntentExecutionLineageV1 {
    pub stack_version: IntentStackVersion,
    pub binding: IntentExecutionBindingV1,
    pub binding_event_id: String,
    pub binding_stream_sequence: u64,
    pub changeset_ids: Vec<String>,
    pub parent_mutation_event_id: Option<String>,
    pub parent_snapshot_id: Option<String>,
    pub read_only_reason: Option<IntentLineageReadOnlyReasonV1>,
}

/// What a [`IntentExecutionLineageV1`] holds.
#[verifier::ext_equal]
pub struct IntentExecutionLineageV1View {
    pub stack_version: u64,
    pub binding: IntentExecutionBindingV1View,
    pub binding_event_id: Seq<char>,
    pub binding_stream_sequence: u64,
    pub changeset_ids: Seq<Seq<char>>,
    pub parent_mutation_event_id: Option<Seq<char>>,
    pub parent_snapshot_id: Option<Seq<char>>,
    pub read_only_reason: Option<IntentLineageReadOnlyReasonV1>,
}

impl DeepView for IntentExecutionLineageV1 {
    type V = IntentExecutionLineageV1View;

    open spec fn deep_view(&self) -> IntentExecutionLineageV1View {
        IntentExecutionLineageV1View {
            stack_version: self.stack_version.deep_view(),
            binding: self.binding.deep_view(),
            binding_event_id: self.binding_event_id.deep_view(),
            binding_stream_sequence: self.binding_stream_sequence.deep_view(),
            changeset_ids: self.changeset_ids.deep_view(),
            parent_mutation_event_id: self.parent_mutation_event_id.deep_view(),
            parent_snapshot_id: self.parent_snapshot_id.deep_view(),
            read_only_reason: self.read_only_reason.deep_view(),
        }
    }
}

impl Value for IntentExecutionLineageV1 {
    fn same(&self, other: &Self) -> (r: bool) {
        self.stack_version.same(&other.stack_version)
            && self.binding.same(&other.binding)
            && self.binding_event_id.same(&other.binding_event_id)
            && self.binding_stream_sequence.same(&other.binding_stream_sequence)
            && self.changeset_ids.same(&other.changeset_ids)
            && self.parent_mutation_event_id.same(&other.parent_mutation_event_id)
            && self.parent_snapshot_id.same(&other.parent_snapshot_id)
            && self.read_only_reason.same(&other.read_only_reason)
    }

    fn duplicate(&self) -> (r: Self) {
        IntentExecutionLineageV1 {
            stack_version: self.stack_version.duplicate(),
            binding: self.binding.duplicate(),
            binding_event_id: self.binding_event_id.duplicate(),
            binding_stream_sequence: self.binding_stream_sequence.duplicate(),
            changeset_ids: self.changeset_ids.duplicate(),
            parent_mutation_event_id: self.parent_mutation_event_id.duplicate(),
            parent_snapshot_id: self.parent_snapshot_id.duplicate(),
            read_only_reason: self.read_only_reason.duplicate(),
        }
    }
}

/// What the log tells of the parent workspace of an execution.
#[derive(Debug, Clone, PartialEq, Eq)]
pub enum ParentLineage {
    Applied {
        mutation_event_id: String,
        snapshot_id: String,
    },
    ReadOnly(IntentLineageReadOnlyReasonV1),
}

/// What a [`ParentLineage`] holds.
#[verifier::ext_equal]
pub enum ParentLineageView {
    Applied {
        mutation_event_id: Seq<char>,
        snapshot_id: Seq<char>,
    },
    ReadOnly(IntentLineageReadOnlyReasonV1),
}

impl DeepView for ParentLineage {
    type V = ParentLineageView;

    open spec fn deep_view(&self) -> ParentLineageView {
        match self {
            ParentLineage::Applied { mutation_event_id, snapshot_id } => ParentLineageView::Applied {
                mutation_event_id: mutation_event_id.deep_view(),
                snapshot_id: snapshot_id.deep_view(),
            },
            ParentLineage::ReadOnly(x) => ParentLineageView::ReadOnly(x.deep_view()),
        }
    }
}

impl Value for ParentLineage {
    fn same(&self, other: &Self) -> (r: bool) {
        match (self, other) {
            (
                ParentLineage::Applied { mutation_event_id, snapshot_id },
                ParentLineage::Applied { mutation_event_id: mutation_event_id2, snapshot_id: snapshot_id2 },
            ) => mutation_event_id.same(mutation_event_id2)
                && snapshot_id.same(snapshot_id2),
            (
                ParentLineage::ReadOnly(x),
                ParentLineage::ReadOnly(x2),
            ) => x.same(x2),
            _ => false,
        }
    }

    fn duplicate(&self) -> (r: Self) {
        match self {
            ParentLineage::Applied { mutation_event_id, snapshot_id } => ParentLineage::Applied {
                mutation_event_id: mutation_event_id.duplicate(),
                snapshot_id: snapshot_id.duplicate(),
            },
            ParentLineage::ReadOnly(x) => ParentLineage::ReadOnly(x.duplicate()),
        }
    }
}

/// Result of an idempotent durable append.
#[derive(Debug, Clone, PartialEq, Eq)]
pub struct IntentLineageWriteOutcomeV1 {
    pub appended: bool,
    pub execution_id: Option<IntentExecutionId>,
}

/// What a [`IntentLineageWriteOutcomeV1`] holds.
#[verifier::ext_equal]
pub struct IntentLineageWriteOutcomeV1View {
    pub appended: bool,
    pub execution_id: Option<Seq<char>>,
}

impl DeepView for IntentLineageWriteOutcomeV1 {
    type V = IntentLineageWriteOutcomeV1View;

    open spec fn deep_view(&self) -> IntentLineageWriteOutcomeV1View {
        IntentLineageWriteOutcomeV1View {
            appended: self.appended.deep_view(),
            execution_id: self.execution_id.deep_view(),
        }
    }
}

impl Value for IntentLineageWriteOutcomeV1 {
    fn same(&self, other: &Self) -> (r: bool) {
        self.appended.same(&other.appended)
            && self.execution_id.same(&other.execution_id)
    }

    fn duplicate(&self) -> (r: Self) {
        IntentLineageWriteOutcomeV1 {
            appended: self.appended.duplicate(),
            execution_id: self.execution_id.duplicate(),
        }
    }
}

/// Why an accepted execution cannot become an executable layer.
#[derive(Debug, Clone, Copy, PartialEq, Eq, Structural)]
pub enum IntentLayerReadOnlyReasonV1 {
    MissingTerminalAttempt,
    MissingMutationArtifact,
    UnsupportedFileKind,
    SensitiveContent,
    ArtifactUnavailable,
    SharedOwnership,
    UnownedArtifact,
    DriftedArtifact,
}

impl DeepView for IntentLayerReadOnlyReasonV1 {
    type V = IntentLayerReadOnlyReasonV1;

    open spec fn deep_view(&self) -> IntentLayerReadOnlyReasonV1 {
        *self
    }
}

impl Value for IntentLayerReadOnlyReasonV1 {
    fn same(&self, other: &Self) -> (r: bool) {
        *self == *other
    }

    fn duplicate(&self) -> (r: Self) {
        *self
    }
}

/// Runtime materialization result. Read-only outcomes never append layer authority.
#[derive(Debug, Clone, PartialEq, Eq)]
pub struct IntentLayerMaterializationOutcomeV1 {
    pub appended: bool,
    pub execution_id: IntentExecutionId,
    pub manifest_digest: Option<String>,
    pub read_only_reason: Option<IntentLayerReadOnlyReasonV1>,
}

/// What a [`IntentLayerMaterializationOutcomeV1`] holds.
#[verifier::ext_equal]
pub struct IntentLayerMaterializationOutcomeV1View {
    pub appended: bool,
    pub execution_id: Seq<char>,
    pub manifest_digest: Option<Seq<char>>,
    pub read_only_reason: Option<IntentLayerReadOnlyReasonV1>,
}

impl DeepView for IntentLayerMaterializationOutcomeV1 {
    type V = IntentLayerMaterializationOutcomeV1View;

    open spec fn deep_view(&self) -> IntentLayerMaterializationOutcomeV1View {
        IntentLayerMaterializationOutcomeV1View {
            appended: self.appended.deep_view(),
            execution_id: self.execution_id.deep_view(),
            manifest_digest: self.manifest_digest.deep_view(),
            read_only_reason: self.read_only_reason.deep_view(),
        }
    }
}

impl Value for IntentLayerMaterializationOutcomeV1 {
    fn same(&self, other: &Self) -> (r: bool) {
        self.appended.same(&other.appended)
            && self.execution_id.same(&other.execution_id)
            && self.manifest_digest.same(&other.manifest_digest)
            && self.read_only_reason.same(&other.read_only_reason)
    }

    fn duplicate(&self) -> (r: Self) {
        IntentLayerMaterializationOutcomeV1 {
            appended: self.appended.duplicate(),
            execution_id: self.execution_id.duplicate(),
            manifest_digest: self.manifest_digest.duplicate(),
            read_only_reason: self.read_only_reason.duplicate(),
        }
    }
}

/// Effective artifact state after lifecycle, overlap and drift reduction.
#[derive(Debug, Clone, PartialEq, Eq)]
pub struct EffectiveIntentArtifactV1 {
    pub binding: IntentArtifactBindingV1,
    pub ownership: IntentArtifactOwnership,
    pub availability: IntentArtifactAvailability,
}

/// What a [`EffectiveIntentArtifactV1`] holds.
#[verifier::ext_equal]
pub struct EffectiveIntentArtifactV1View {
    pub binding: IntentArtifactBindingV1View,
    pub ownership: IntentArtifactOwnership,
    pub availability: IntentArtifactAvailability,
}

impl DeepView for EffectiveIntentArtifactV1 {
    type V = EffectiveIntentArtifactV1View;

    open spec fn deep_view(&self) -> EffectiveIntentArtifactV1View {
        EffectiveIntentArtifactV1View {
            binding: self.binding.deep_view(),
            ownership: self.ownership.deep_view(),
            availability: self.availability.deep_view(),
        }
    }
}

impl Value for EffectiveIntentArtifactV1 {
    fn same(&self, other: &Self) -> (r: bool) {
        self.binding.same(&other.binding)
            && self.ownership.same(&other.ownership)
            && self.availability.same(&other.availability)
    }

    fn duplicate(&self) -> (r: Self) {
        EffectiveIntentArtifactV1 {
            binding: self.binding.duplicate(),
            ownership: self.ownership.duplicate(),
            availability: self.availability.duplicate(),
        }
    }
}

/// One complete artifact-first/final-manifest layer pair.
#[derive(Debug, Clone, PartialEq, Eq)]
pub struct IntentLayerStateV1 {
    pub artifact_manifest: IntentArtifactManifestV1,
    pub layer_manifest: IntentLayerManifestV1,
    pub artifact_event_id: String,
    pub layer_event_id: String,
    pub layer_stream_sequence: u64,
    pub artifacts: Vec<EffectiveIntentArtifactV1>,
}

/// What a [`IntentLayerStateV1`] holds.
#[verifier::ext_equal]
pub struct IntentLayerStateV1View {
    pub artifact_manifest: IntentArtifactManifestV1View,
    pub layer_manifest: IntentLayerManifestV1View,
    pub artifact_event_id: Seq<char>,
    pub layer_event_id: Seq<char>,
    pub layer_stream_sequence: u64,
    pub artifacts: Seq<EffectiveIntentArtifactV1View>,
}

impl DeepView for IntentLayerStateV1 {
    type V = IntentLayerStateV1View;

    open spec fn deep_view(&self) -> IntentLayerStateV1View {
        IntentLayerStateV1View {
            artifact_manifest: self.artifact_manifest.deep_view(),
            layer_manifest: self.layer_manifest.deep_view(),
            artifact_event_id: self.artifact_event_id.deep_view(),
            layer_event_id: self.layer_event_id.deep_view(),
            layer_stream_sequence: self.layer_stream_sequence.deep_view(),
            artifacts: self.artifacts.deep_view(),
        }
    }
}

impl Value for IntentLayerStateV1 {
    fn same(&self, other: &Self) -> (r: bool) {
        self.artifact_manifest.same(&other.artifact_manifest)
            && self.layer_manifest.same(&other.layer_manifest)
            && self.artifact_event_id.same(&other.artifact_event_id)
            && self.layer_event_id.same(&other.layer_event_id)
            && self.layer_stream_sequence.same(&other.layer_stream_sequence)
            && self.artifacts.same(&other.artifacts)
    }

    fn duplicate(&self) -> (r: Self) {
        IntentLayerStateV1 {
            artifact_manifest: self.artifact_manifest.duplicate(),
            layer_manifest: self.layer_manifest.duplicate(),
            artifact_event_id: self.artifact_event_id.duplicate(),
            layer_event_id: self.layer_event_id.duplicate(),
            layer_stream_sequence: self.layer_stream_sequence.duplicate(),
            artifacts: self.artifacts.duplicate(),
        }
    }
}

/// Bounded layer summary consumed by the public Intent Stack adapter.
#[derive(Debug, Clone, PartialEq, Eq)]
pub struct IntentLayerSummaryV1 {
    pub application_state: Option<IntentApplicationState>,
    pub exclusive_artifact_count: u32,
    pub shared_artifact_count: u32,
    pub unowned_artifact_count: u32,
    pub drifted_artifact_count: u32,
    pub unavailable_artifact_count: u32,
    pub artifacts: Vec<PublicIntentArtifactSummaryV1>,
    pub read_only_reason: Option<IntentLayerReadOnlyReasonV1>,
}

/// What a [`IntentLayerSummaryV1`] holds.
#[verifier::ext_equal]
pub struct IntentLayerSummaryV1View {
    pub application_state: Option<IntentApplicationState>,
    pub exclusive_artifact_count: u32,
    pub shared_artifact_count: u32,
    pub unowned_artifact_count: u32,
    pub drifted_artifact_count: u32,
    pub unavailable_artifact_count: u32,
    pub artifacts: Seq<PublicIntentArtifactSummaryV1View>,
    pub read_only_reason: Option<IntentLayerReadOnlyReasonV1>,
}

impl DeepView for IntentLayerSummaryV1 {
    type V = IntentLayerSummaryV1View;

    open spec fn deep_view(&self) -> IntentLayerSummaryV1View {
        IntentLayerSummaryV1View {
            application_state: self.application_state.deep_view(),
            exclusive_artifact_count: self.exclusive_artifact_count.deep_view(),
            shared_artifact_count: self.shared_artifact_count.deep_view(),
            unowned_artifact_count: self.unowned_artifact_count.deep_view(),
            drifted_artifact_count: self.drifted_artifact_count.deep_view(),
            unavailable_artifact_count: self.unavailable_artifact_count.deep_view(),
            artifacts: self.artifacts.deep_view(),
            read_only_reason: self.read_only_reason.deep_view(),
        }
    }
}

/// What is said of an intent without a layer.
pub open spec fn empty_layer_summary() -> IntentLayerSummaryV1View {
    IntentLayerSummaryV1View {
        application_state: None,
        exclusive_artifact_count: 0,
        shared_artifact_count: 0,
        unowned_artifact_count: 0,
        drifted_artifact_count: 0,
        unavailable_artifact_count: 0,
        artifacts: Seq::empty(),
        read_only_reason: None,
    }
}

impl Default for IntentLayerSummaryV1 {
    fn default() -> (r: Self)
        ensures
            r.deep_view() == empty_layer_summary(),
    {
        let r = IntentLayerSummaryV1 {
            application_state: None,
            exclusive_artifact_count: 0,
            shared_artifact_count: 0,
            unowned_artifact_count: 0,
            drifted_artifact_count: 0,
            unavailable_artifact_count: 0,
            artifacts: Vec::new(),
            read_only_reason: None,
        };
        assert(r.deep_view().artifacts =~= Seq::empty());
        r
    }
}

impl Value for IntentLayerSummaryV1 {
    fn same(&self, other: &Self) -> (r: bool) {
        self.application_state.same(&other.application_state)
            && self.exclusive_artifact_count.same(&other.exclusive_artifact_count)
            && self.shared_artifact_count.same(&other.shared_artifact_count)
            && self.unowned_artifact_count.same(&other.unowned_artifact_count)
            && self.drifted_artifact_count.same(&other.drifted_artifact_count)
            && self.unavailable_artifact_count.same(&other.unavailable_artifact_count)
            && self.artifacts.same(&other.artifacts)
            && self.read_only_reason.same(&other.read_only_reason)
    }

    fn duplicate(&self) -> (r: Self) {
        IntentLayerSummaryV1 {
            application_state: self.application_state.duplicate(),
            exclusive_artifact_count: self.exclusive_artifact_count.duplicate(),
            shared_artifact_count: self.shared_artifact_count.duplicate(),
            unowned_artifact_count: self.unowned_artifact_count.duplicate(),
            drifted_artifact_count: self.drifted_artifact_count.duplicate(),
            unavailable_artifact_count: self.unavailable_artifact_count.duplicate(),
            artifacts: self.artifacts.duplicate(),
            read_only_reason: self.read_only_reason.duplicate(),
        }
    }
}

/// The layers that the durable stream completes, in the order in which they were completed.
#[derive(Debug, Clone, PartialEq, Eq)]
pub struct IntentLayerProjectionV1 {
    pub layers: Vec<IntentLayerStateV1>,
}

/// What a [`IntentLayerProjectionV1`] holds.
#[verifier::ext_equal]
pub struct IntentLayerProjectionV1View {
    pub layers: Seq<IntentLayerStateV1View>,
}

impl DeepView for IntentLayerProjectionV1 {
    type V = IntentLayerProjectionV1View;

    open spec fn deep_view(&self) -> IntentLayerProjectionV1View {
        IntentLayerProjectionV1View {
            layers: self.layers.deep_view(),
        }
    }
}

impl Default for IntentLayerProjectionV1 {
    fn default() -> (r: Self)
        ensures
            r.deep_view() == (IntentLayerProjectionV1View { layers: Seq::empty() }),
    {
        let r = IntentLayerProjectionV1 { layers: Vec::new() };
        assert(r.deep_view().layers =~= Seq::empty());
        r
    }
}

impl Value for IntentLayerProjectionV1 {
    fn same(&self, other: &Self) -> (r: bool) {
        self.layers.same(&other.layers)
    }

    fn duplicate(&self) -> (r: Self) {
        IntentLayerProjectionV1 {
            layers: self.layers.duplicate(),
        }
    }
}

/// The target of one file, decoded from a patch.
#[derive(Debug, Clone, PartialEq, Eq)]
pub struct ExactIntentPatchFileV1 {
    pub path: String,
    pub expected_present: bool,
    pub expected_digest: IntentContentDigest,
    pub target: Option<Vec<u8>>,
}

/// What a [`ExactIntentPatchFileV1`] holds.
#[verifier::ext_equal]
pub struct ExactIntentPatchFileV1View {
    pub path: Seq<char>,
    pub expected_present: bool,
    pub expected_digest: Seq<char>,
    pub target: Option<Seq<u8>>,
}

impl DeepView for ExactIntentPatchFileV1 {
    type V = ExactIntentPatchFileV1View;

    open spec fn deep_view(&self) -> ExactIntentPatchFileV1View {
        ExactIntentPatchFileV1View {
            path: self.path.deep_view(),
            expected_present: self.expected_present.deep_view(),
            expected_digest: self.expected_digest.deep_view(),
            target: self.target.deep_view(),
        }
    }
}

impl Value for ExactIntentPatchFileV1 {
    fn same(&self, other: &Self) -> (r: bool) {
        self.path.same(&other.path)
            && self.expected_present.same(&other.expected_present)
            && self.expected_digest.same(&other.expected_digest)
            && self.target.same(&other.target)
    }

    fn duplicate(&self) -> (r: Self) {
        ExactIntentPatchFileV1 {
            path: self.path.duplicate(),
            expected_present: self.expected_present.duplicate(),
            expected_digest: self.expected_digest.duplicate(),
            target: self.target.duplicate(),
        }
    }
}

/// Renderer-to-runtime request. It carries no path, bytes, hash, dependency closure or approval.
#[derive(Debug, Clone, PartialEq, Eq)]
pub struct IntentDropRequestV1 {
    pub operation_id: IntentOperationId,
    pub stack_version: IntentStackVersion,
    pub preview_digest: IntentDigest,
}

/// What a [`IntentDropRequestV1`] holds.
#[verifier::ext_equal]
pub struct IntentDropRequestV1View {
    pub operation_id: Seq<char>,
    pub stack_version: u64,
    pub preview_digest: Seq<char>,
}

impl DeepView for IntentDropRequestV1 {
    type V = IntentDropRequestV1View;

    open spec fn deep_view(&self) -> IntentDropRequestV1View {
        IntentDropRequestV1View {
            operation_id: self.operation_id.deep_view(),
            stack_version: self.stack_version.deep_view(),
            preview_digest: self.preview_digest.deep_view(),
        }
    }
}

impl Value for IntentDropRequestV1 {
    fn same(&self, other: &Self) -> (r: bool) {
        self.operation_id.same(&other.operation_id)
            && self.stack_version.same(&other.stack_version)
            && self.preview_digest.same(&other.preview_digest)
    }

    fn duplicate(&self) -> (r: Self) {
        IntentDropRequestV1 {
            operation_id: self.operation_id.duplicate(),
            stack_version: self.stack_version.duplicate(),
            preview_digest: self.preview_digest.duplicate(),
        }
    }
}

/// Rebuildable operation state.
#[derive(Debug, Clone, Copy, PartialEq, Eq, Structural)]
pub enum IntentOperationStateV1 {
    Requested,
    Prepared,
    Applying,
    Committed,
    Rejected,
    Cancelled,
    Conflicted,
    PartiallyApplied,
    Interrupted,
}

impl DeepView for IntentOperationStateV1 {
    type V = IntentOperationStateV1;

    open spec fn deep_view(&self) -> IntentOperationStateV1 {
        *self
    }
}

impl Value for IntentOperationStateV1 {
    fn same(&self, other: &Self) -> (r: bool) {
        *self == *other
    }

    fn duplicate(&self) -> (r: Self) {
        *self
    }
}

/// Bounded operation row for inspect and recovery surfaces.
#[derive(Debug, Clone, PartialEq, Eq)]
pub struct IntentOperationSummaryV1 {
    pub operation_id: IntentOperationId,
    pub operation_kind: IntentOperationKind,
    pub target_intents: Vec<IntentVersionRef>,
    pub state: IntentOperationStateV1,
    pub mutation_batch_id: Option<String>,
    pub result_snapshot_id: Option<String>,
    pub error_code: Option<IntentOperationErrorCode>,
}

/// What a [`IntentOperationSummaryV1`] holds.
#[verifier::ext_equal]
pub struct IntentOperationSummaryV1View {
    pub operation_id: Seq<char>,
    pub operation_kind: IntentOperationKind,
    pub target_intents: Seq<IntentVersionRefView>,
    pub state: IntentOperationStateV1,
    pub mutation_batch_id: Option<Seq<char>>,
    pub result_snapshot_id: Option<Seq<char>>,
    pub error_code: Option<IntentOperationErrorCode>,
}

impl DeepView for IntentOperationSummaryV1 {
    type V = IntentOperationSummaryV1View;

    open spec fn deep_view(&self) -> IntentOperationSummaryV1View {
        IntentOperationSummaryV1View {
            operation_id: self.operation_id.deep_view(),
            operation_kind: self.operation_kind.deep_view(),
            target_intents: self.target_intents.deep_view(),
            state: self.state.deep_view(),
            mutation_batch_id: self.mutation_batch_id.deep_view(),
            result_snapshot_id: self.result_snapshot_id.deep_view(),
            error_code: self.error_code.deep_view(),
        }
    }
}

impl Value for IntentOperationSummaryV1 {
    fn same(&self, other: &Self) -> (r: bool) {
        self.operation_id.same(&other.operation_id)
            && self.operation_kind.same(&other.operation_kind)
            && self.target_intents.same(&other.target_intents)
            && self.state.same(&other.state)
            && self.mutation_batch_id.same(&other.mutation_batch_id)
            && self.result_snapshot_id.same(&other.result_snapshot_id)
            && self.error_code.same(&other.error_code)
    }

    fn duplicate(&self) -> (r: Self) {
        IntentOperationSummaryV1 {
            operation_id: self.operation_id.duplicate(),
            operation_kind: self.operation_kind.duplicate(),
            target_intents: self.target_intents.duplicate(),
            state: self.state.duplicate(),
            mutation_batch_id: self.mutation_batch_id.duplicate(),
            result_snapshot_id: self.result_snapshot_id.duplicate(),
            error_code: self.error_code.duplicate(),
        }
    }
}

/// Exact execution result. Conflicts and explicit rejection are durable successful protocol
/// outcomes rather than unstructured errors.
#[derive(Debug, Clone, PartialEq, Eq)]
pub struct IntentOperationExecutionV1 {
    pub preview: IntentOperationPreviewV1,
    pub resolution: IntentOperationResolution,
    pub mutation_batch_id: Option<String>,
    pub committed_operation_ids: Vec<String>,
    pub result_snapshot_id: Option<String>,
    pub error_code: Option<IntentOperationErrorCode>,
}

/// What a [`IntentOperationExecutionV1`] holds.
#[verifier::ext_equal]
pub struct IntentOperationExecutionV1View {
    pub preview: IntentOperationPreviewV1View,
    pub resolution: IntentOperationResolution,
    pub mutation_batch_id: Option<Seq<char>>,
    pub committed_operation_ids: Seq<Seq<char>>,
    pub result_snapshot_id: Option<Seq<char>>,
    pub error_code: Option<IntentOperationErrorCode>,
}

impl DeepView for IntentOperationExecutionV1 {
    type V = IntentOperationExecutionV1View;

    open spec fn deep_view(&self) -> IntentOperationExecutionV1View {
        IntentOperationExecutionV1View {
            preview: self.preview.deep_view(),
            resolution: self.resolution.deep_view(),
            mutation_batch_id: self.mutation_batch_id.deep_view(),
            committed_operation_ids: self.committed_operation_ids.deep_view(),
            result_snapshot_id: self.result_snapshot_id.deep_view(),
            error_code: self.error_code.deep_view(),
        }
    }
}

impl Value for IntentOperationExecutionV1 {
    fn same(&self, other: &Self) -> (r: bool) {
        self.preview.same(&other.preview)
            && self.resolution.same(&other.resolution)
            && self.mutation_batch_id.same(&other.mutation_batch_id)
            && self.committed_operation_ids.same(&other.committed_operation_ids)
            && self.result_snapshot_id.same(&other.result_snapshot_id)
            && self.error_code.same(&other.error_code)
    }

    fn duplicate(&self) -> (r: Self) {
        IntentOperationExecutionV1 {
            preview: self.preview.duplicate(),
            resolution: self.resolution.duplicate(),
            mutation_batch_id: self.mutation_batch_id.duplicate(),
            committed_operation_ids: self.committed_operation_ids.duplicate(),
            result_snapshot_id: self.result_snapshot_id.duplicate(),
            error_code: self.error_code.duplicate(),
        }
    }
}

/// The authority under which an operation was prepared.
#[derive(Debug, Clone, PartialEq, Eq)]
pub struct PreparedOperation {
    pub preview_digest: IntentDigest,
    pub permission_policy_digest: IntentDigest,
    pub approval_authority_id: String,
    pub mutation_batch_id: String,
}

/// What a [`PreparedOperation`] holds.
#[verifier::ext_equal]
pub struct PreparedOperationView {
    pub preview_digest: Seq<char>,
    pub permission_policy_digest: Seq<char>,
    pub approval_authority_id: Seq<char>,
    pub mutation_batch_id: Seq<char>,
}

impl DeepView for PreparedOperation {
    type V = PreparedOperationView;

    open spec fn deep_view(&self) -> PreparedOperationView {
        PreparedOperationView {
            preview_digest: self.preview_digest.deep_view(),
            permission_policy_digest: self.permission_policy_digest.deep_view(),
            approval_authority_id: self.approval_authority_id.deep_view(),
            mutation_batch_id: self.mutation_batch_id.deep_view(),
        }
    }
}

impl Value for PreparedOperation {
    fn same(&self, other: &Self) -> (r: bool) {
        self.preview_digest.same(&other.preview_digest)
            && self.permission_policy_digest.same(&other.permission_policy_digest)
            && self.approval_authority_id.same(&other.approval_authority_id)
            && self.mutation_batch_id.same(&other.mutation_batch_id)
    }

    fn duplicate(&self) -> (r: Self) {
        PreparedOperation {
            preview_digest: self.preview_digest.duplicate(),
            permission_policy_digest: self.permission_policy_digest.duplicate(),
            approval_authority_id: self.approval_authority_id.duplicate(),
            mutation_batch_id: self.mutation_batch_id.duplicate(),
        }
    }
}

/// How an operation ended.
#[derive(Debug, Clone, PartialEq, Eq)]
pub struct ResolvedOperation {
    pub resolution: IntentOperationResolution,
    pub mutation_batch_id: Option<String>,
    pub result_snapshot_id: Option<String>,
    pub error_code: Option<IntentOperationErrorCode>,
}

/// What a [`ResolvedOperation`] holds.
#[verifier::ext_equal]
pub struct ResolvedOperationView {
    pub resolution: IntentOperationResolution,
    pub mutation_batch_id: Option<Seq<char>>,
    pub result_snapshot_id: Option<Seq<char>>,
    pub error_code: Option<IntentOperationErrorCode>,
}

impl DeepView for ResolvedOperation {
    type V = ResolvedOperationView;

    open spec fn deep_view(&self) -> ResolvedOperationView {
        ResolvedOperationView {
            resolution: self.resolution.deep_view(),
            mutation_batch_id: self.mutation_batch_id.deep_view(),
            result_snapshot_id: self.result_snapshot_id.deep_view(),
            error_code: self.error_code.deep_view(),
        }
    }
}

impl Value for ResolvedOperation {
    fn same(&self, other: &Self) -> (r: bool) {
        self.resolution.same(&other.resolution)
            && self.mutation_batch_id.same(&other.mutation_batch_id)
            && self.result_snapshot_id.same(&other.result_snapshot_id)
            && self.error_code.same(&other.error_code)
    }

    fn duplicate(&self) -> (r: Self) {
        ResolvedOperation {
            resolution: self.resolution.duplicate(),
            mutation_batch_id: self.mutation_batch_id.duplicate(),
            result_snapshot_id: self.result_snapshot_id.duplicate(),
            error_code: self.error_code.duplicate(),
        }
    }
}

/// One operation of the log.
#[derive(Debug, Clone, PartialEq, Eq)]
pub struct OperationRecord {
    pub preview: IntentOperationPreviewV1,
    pub requested_sequence: u64,
    pub prepared: Option<PreparedOperation>,
    pub prepared_sequence: Option<u64>,
    pub resolved: Option<ResolvedOperation>,
    pub resolved_sequence: Option<u64>,
}

/// What a [`OperationRecord`] holds.
#[verifier::ext_equal]
pub struct OperationRecordView {
    pub preview: IntentOperationPreviewV1View,
    pub requested_sequence: u64,
    pub prepared: Option<PreparedOperationView>,
    pub prepared_sequence: Option<u64>,
    pub resolved: Option<ResolvedOperationView>,
    pub resolved_sequence: Option<u64>,
}

impl DeepView for OperationRecord {
    type V = OperationRecordView;

    open spec fn deep_view(&self) -> OperationRecordView {
        OperationRecordView {
            preview: self.preview.deep_view(),
            requested_sequence: self.requested_sequence.deep_view(),
            prepared: self.prepared.deep_view(),
            prepared_sequence: self.prepared_sequence.deep_view(),
            resolved: self.resolved.deep_view(),
            resolved_sequence: self.resolved_sequence.deep_view(),
        }
    }
}

impl Value for OperationRecord {
    fn same(&self, other: &Self) -> (r: bool) {
        self.preview.same(&other.preview)
            && self.requested_sequence.same(&other.requested_sequence)
            && self.prepared.same(&other.prepared)
            && self.prepared_sequence.same(&other.prepared_sequence)
            && self.resolved.same(&other.resolved)
            && self.resolved_sequence.same(&other.resolved_sequence)
    }

    fn duplicate(&self) -> (r: Self) {
        OperationRecord {
            preview: self.preview.duplicate(),
            requested_sequence: self.requested_sequence.duplicate(),
            prepared: self.prepared.duplicate(),
            prepared_sequence: self.prepared_sequence.duplicate(),
            resolved: self.resolved.duplicate(),
            resolved_sequence: self.resolved_sequence.duplicate(),
        }
    }
}

/// What the log proves of a batch of mutations.
#[derive(Debug, Clone, PartialEq, Eq)]
pub enum BatchOutcome {
    NoBatch,
    Applied {
        operation_ids: Vec<String>,
        result_snapshot_id: String,
    },
    FullyAppliedUnfinished {
        operation_ids: Vec<String>,
        result_snapshot_id: String,
    },
    Partial {
        applied: Vec<String>,
        result_snapshot_id: Option<String>,
    },
    Conflicted {
        applied: Vec<String>,
        result_snapshot_id: Option<String>,
    },
    Interrupted {
        result_snapshot_id: Option<String>,
    },
}

/// What a [`BatchOutcome`] holds.
#[verifier::ext_equal]
pub enum BatchOutcomeView {
    NoBatch,
    Applied {
        operation_ids: Seq<Seq<char>>,
        result_snapshot_id: Seq<char>,
    },
    FullyAppliedUnfinished {
        operation_ids: Seq<Seq<char>>,
        result_snapshot_id: Seq<char>,
    },
    Partial {
        applied: Seq<Seq<char>>,
        result_snapshot_id: Option<Seq<char>>,
    },
    Conflicted {
        applied: Seq<Seq<char>>,
        result_snapshot_id: Option<Seq<char>>,
    },
    Interrupted {
        result_snapshot_id: Option<Seq<char>>,
    },
}

impl DeepView for BatchOutcome {
    type V = BatchOutcomeView;

    open spec fn deep_view(&self) -> BatchOutcomeView {
        match self {
            BatchOutcome::NoBatch => BatchOutcomeView::NoBatch,
            BatchOutcome::Applied { operation_ids, result_snapshot_id } => BatchOutcomeView::Applied {
                operation_ids: operation_ids.deep_view(),
                result_snapshot_id: result_snapshot_id.deep_view(),
            },
            BatchOutcome::FullyAppliedUnfinished { operation_ids, result_snapshot_id } => BatchOutcomeView::FullyAppliedUnfinished {
                operation_ids: operation_ids.deep_view(),
                result_snapshot_id: result_snapshot_id.deep_view(),
            },
            BatchOutcome::Partial { applied, result_snapshot_id } => BatchOutcomeView::Partial {
                applied: applied.deep_view(),
                result_snapshot_id: result_snapshot_id.deep_view(),
            },
            BatchOutcome::Conflicted { applied, result_snapshot_id } => BatchOutcomeView::Conflicted {
                applied: applied.deep_view(),
                result_snapshot_id: result_snapshot_id.deep_view(),
            },
            BatchOutcome::Interrupted { result_snapshot_id } => BatchOutcomeView::Interrupted {
                result_snapshot_id: result_snapshot_id.deep_view(),
            },
        }
    }
}

impl Value for BatchOutcome {
    fn same(&self, other: &Self) -> (r: bool) {
        match (self, other) {
            (
                BatchOutcome::NoBatch,
                BatchOutcome::NoBatch,
            ) => true,
            (
                BatchOutcome::Applied { operation_ids, result_snapshot_id },
                BatchOutcome::Applied { operation_ids: operation_ids2, result_snapshot_id: result_snapshot_id2 },
            ) => operation_ids.same(operation_ids2)
                && result_snapshot_id.same(result_snapshot_id2),
            (
                BatchOutcome::FullyAppliedUnfinished { operation_ids, result_snapshot_id },
                BatchOutcome::FullyAppliedUnfinished { operation_ids: operation_ids2, result_snapshot_id: result_snapshot_id2 },
            ) => operation_ids.same(operation_ids2)
                && result_snapshot_id.same(result_snapshot_id2),
            (
                BatchOutcome::Partial { applied, result_snapshot_id },
                BatchOutcome::Partial { applied: applied2, result_snapshot_id: result_snapshot_id2 },
            ) => applied.same(applied2)
                && result_snapshot_id.same(result_snapshot_id2),
            (
                BatchOutcome::Conflicted { applied, result_snapshot_id },
                BatchOutcome::Conflicted { applied: applied2, result_snapshot_id: result_snapshot_id2 },
            ) => applied.same(applied2)
                && result_snapshot_id.same(result_snapshot_id2),
            (
                BatchOutcome::Interrupted { result_snapshot_id },
                BatchOutcome::Interrupted { result_snapshot_id: result_snapshot_id2 },
            ) => result_snapshot_id.same(result_snapshot_id2),
            _ => false,
        }
    }

    fn duplicate(&self) -> (r: Self) {
        match self {
            BatchOutcome::NoBatch => BatchOutcome::NoBatch,
            BatchOutcome::Applied { operation_ids, result_snapshot_id } => BatchOutcome::Applied {
                operation_ids: operation_ids.duplicate(),
                result_snapshot_id: result_snapshot_id.duplicate(),
            },
            BatchOutcome::FullyAppliedUnfinished { operation_ids, result_snapshot_id } => BatchOutcome::FullyAppliedUnfinished {
                operation_ids: operation_ids.duplicate(),
                result_snapshot_id: result_snapshot_id.duplicate(),
            },
            BatchOutcome::Partial { applied, result_snapshot_id } => BatchOutcome::Partial {
                applied: applied.duplicate(),
                result_snapshot_id: result_snapshot_id.duplicate(),
            },
            BatchOutcome::Conflicted { applied, result_snapshot_id } => BatchOutcome::Conflicted {
                applied: applied.duplicate(),
                result_snapshot_id: result_snapshot_id.duplicate(),
            },
            BatchOutcome::Interrupted { result_snapshot_id } => BatchOutcome::Interrupted {
                result_snapshot_id: result_snapshot_id.duplicate(),
            },
        }
    }
}

/// Read-only application-state effect for one member of a dependency closure.
#[derive(Debug, Clone, PartialEq, Eq)]
pub struct IntentApplicationImpactV1 {
    pub intent_ref: IntentVersionRef,
    pub application_state: IntentApplicationState,
}

/// What a [`IntentApplicationImpactV1`] holds.
#[verifier::ext_equal]
pub struct IntentApplicationImpactV1View {
    pub intent_ref: IntentVersionRefView,
    pub application_state: IntentApplicationState,
}

impl DeepView for IntentApplicationImpactV1 {
    type V = IntentApplicationImpactV1View;

    open spec fn deep_view(&self) -> IntentApplicationImpactV1View {
        IntentApplicationImpactV1View {
            intent_ref: self.intent_ref.deep_view(),
            application_state: self.application_state.deep_view(),
        }
    }
}

impl Value for IntentApplicationImpactV1 {
    fn same(&self, other: &Self) -> (r: bool) {
        self.intent_ref.same(&other.intent_ref)
            && self.application_state.same(&other.application_state)
    }

    fn duplicate(&self) -> (r: Self) {
        IntentApplicationImpactV1 {
            intent_ref: self.intent_ref.duplicate(),
            application_state: self.application_state.duplicate(),
        }
    }
}

/// Bounded read-only revise/replace impact. The embedded operation preview has no file effects and
/// cannot be converted into mutation authority.
#[derive(Debug, Clone, PartialEq, Eq)]
pub struct IntentImpactPreviewV1 {
    pub operation: IntentOperationPreviewV1,
    pub application_impacts: Vec<IntentApplicationImpactV1>,
}

/// What a [`IntentImpactPreviewV1`] holds.
#[verifier::ext_equal]
pub struct IntentImpactPreviewV1View {
    pub operation: IntentOperationPreviewV1View,
    pub application_impacts: Seq<IntentApplicationImpactV1View>,
}

impl DeepView for IntentImpactPreviewV1 {
    type V = IntentImpactPreviewV1View;

    open spec fn deep_view(&self) -> IntentImpactPreviewV1View {
        IntentImpactPreviewV1View {
            operation: self.operation.deep_view(),
            application_impacts: self.application_impacts.deep_view(),
        }
    }
}

impl Value for IntentImpactPreviewV1 {
    fn same(&self, other: &Self) -> (r: bool) {
        self.operation.same(&other.operation)
            && self.application_impacts.same(&other.application_impacts)
    }

    fn duplicate(&self) -> (r: Self) {
        IntentImpactPreviewV1 {
            operation: self.operation.duplicate(),
            application_impacts: self.application_impacts.duplicate(),
        }
    }
}

/// Untrusted, digest-bound proposal for one immutable intent definition successor.  It does not
/// carry acceptance authority, execution authority, file effects, or mutation bytes.
#[derive(Debug, Clone, PartialEq, Eq)]
pub struct IntentRevisionProposalV1 {
    pub schema_version: u16,
    pub proposal_id: String,
    pub source_turn_id: String,
    pub target_intent_ref: IntentVersionRef,
    pub title: String,
    pub statement: String,
    pub acceptance_criteria: Vec<IntentProposalCriterionV1>,
    pub depends_on: Vec<IntentId>,
    pub proposal_digest: IntentDigest,
}

/// What a [`IntentRevisionProposalV1`] holds.
#[verifier::ext_equal]
pub struct IntentRevisionProposalV1View {
    pub schema_version: u16,
    pub proposal_id: Seq<char>,
    pub source_turn_id: Seq<char>,
    pub target_intent_ref: IntentVersionRefView,
    pub title: Seq<char>,
    pub statement: Seq<char>,
    pub acceptance_criteria: Seq<IntentProposalCriterionV1View>,
    pub depends_on: Seq<Seq<char>>,
    pub proposal_digest: Seq<char>,
}

impl DeepView for IntentRevisionProposalV1 {
    type V = IntentRevisionProposalV1View;

    open spec fn deep_view(&self) -> IntentRevisionProposalV1View {
        IntentRevisionProposalV1View {
            schema_version: self.schema_version.deep_view(),
            proposal_id: self.proposal_id.deep_view(),
            source_turn_id: self.source_turn_id.deep_view(),
            target_intent_ref: self.target_intent_ref.deep_view(),
            title: self.title.deep_view(),
            statement: self.statement.deep_view(),
            acceptance_criteria: self.acceptance_criteria.deep_view(),
            depends_on: self.depends_on.deep_view(),
            proposal_digest: self.proposal_digest.deep_view(),
        }
    }
}

impl Value for IntentRevisionProposalV1 {
    fn same(&self, other: &Self) -> (r: bool) {
        self.schema_version.same(&other.schema_version)
            && self.proposal_id.same(&other.proposal_id)
            && self.source_turn_id.same(&other.source_turn_id)
            && self.target_intent_ref.same(&other.target_intent_ref)
            && self.title.same(&other.title)
            && self.statement.same(&other.statement)
            && self.acceptance_criteria.same(&other.acceptance_criteria)
            && self.depends_on.same(&other.depends_on)
            && self.proposal_digest.same(&other.proposal_digest)
    }

    fn duplicate(&self) -> (r: Self) {
        IntentRevisionProposalV1 {
            schema_version: self.schema_version.duplicate(),
            proposal_id: self.proposal_id.duplicate(),
            source_turn_id: self.source_turn_id.duplicate(),
            target_intent_ref: self.target_intent_ref.duplicate(),
            title: self.title.duplicate(),
            statement: self.statement.duplicate(),
            acceptance_criteria: self.acceptance_criteria.duplicate(),
            depends_on: self.depends_on.duplicate(),
            proposal_digest: self.proposal_digest.duplicate(),
        }
    }
}

impl IntentRevisionProposalV1 {
    /// The members of the canonical text, all but `proposal_digest`.
    pub open spec fn payload_json(v: IntentRevisionProposalV1View) -> Seq<char> {
        let t = Seq::<char>::empty();
        let t = member(t, "acceptance_criteria"@, <Vec<IntentProposalCriterionV1> as Encode>::json(v.acceptance_criteria));
        let t = if v.depends_on.len() == 0 { t } else { member(t, "depends_on"@, <Vec<IntentId> as Encode>::json(v.depends_on)) };
        let t = member(t, "proposal_id"@, <String as Encode>::json(v.proposal_id));
        let t = member(t, "schema_version"@, <u16 as Encode>::json(v.schema_version));
        let t = member(t, "source_turn_id"@, <String as Encode>::json(v.source_turn_id));
        let t = member(t, "statement"@, <String as Encode>::json(v.statement));
        let t = member(t, "target_intent_ref"@, <IntentVersionRef as Encode>::json(v.target_intent_ref));
        let t = member(t, "title"@, <String as Encode>::json(v.title));
        object(t)
    }

    /// Writes the canonical text without `proposal_digest`.
    pub fn to_payload_json(&self) -> (r: String)
        ensures
            r@ == Self::payload_json(self.deep_view()),
    {
        let mut t = String::new();
        add_member(&mut t, "acceptance_criteria", &self.acceptance_criteria.to_json());
        if self.depends_on.len() > 0 {
            add_member(&mut t, "depends_on", &self.depends_on.to_json());
        }
        add_member(&mut t, "proposal_id", &self.proposal_id.to_json());
        add_member(&mut t, "schema_version", &self.schema_version.to_json());
        add_member(&mut t, "source_turn_id", &self.source_turn_id.to_json());
        add_member(&mut t, "statement", &self.statement.to_json());
        add_member(&mut t, "target_intent_ref", &self.target_intent_ref.to_json());
        add_member(&mut t, "title", &self.title.to_json());
        close_object(&mut t);
        t
    }
}

impl Encode for IntentRevisionProposalV1 {
    open spec fn json(v: IntentRevisionProposalV1View) -> Seq<char> {
        let t = Seq::<char>::empty();
        let t = member(t, "acceptance_criteria"@, <Vec<IntentProposalCriterionV1> as Encode>::json(v.acceptance_criteria));
        let t = if v.depends_on.len() == 0 { t } else { member(t, "depends_on"@, <Vec<IntentId> as Encode>::json(v.depends_on)) };
        let t = member(t, "proposal_digest"@, <IntentDigest as Encode>::json(v.proposal_digest));
        let t = member(t, "proposal_id"@, <String as Encode>::json(v.proposal_id));
        let t = member(t, "schema_version"@, <u16 as Encode>::json(v.schema_version));
        let t = member(t, "source_turn_id"@, <String as Encode>::json(v.source_turn_id));
        let t = member(t, "statement"@, <String as Encode>::json(v.statement));
        let t = member(t, "target_intent_ref"@, <IntentVersionRef as Encode>::json(v.target_intent_ref));
        let t = member(t, "title"@, <String as Encode>::json(v.title));
        object(t)
    }

    fn to_json(&self) -> (r: String) {
        let mut t = String::new();
        add_member(&mut t, "acceptance_criteria", &self.acceptance_criteria.to_json());
        if self.depends_on.len() > 0 {
            add_member(&mut t, "depends_on", &self.depends_on.to_json());
        }
        add_member(&mut t, "proposal_digest", &self.proposal_digest.to_json());
        add_member(&mut t, "proposal_id", &self.proposal_id.to_json());
        add_member(&mut t, "schema_version", &self.schema_version.to_json());
        add_member(&mut t, "source_turn_id", &self.source_turn_id.to_json());
        add_member(&mut t, "statement", &self.statement.to_json());
        add_member(&mut t, "target_intent_ref", &self.target_intent_ref.to_json());
        add_member(&mut t, "title", &self.title.to_json());
        close_object(&mut t);
        t
    }
}

impl Keyed for ResolvedIntentAlias {
    open spec fn key(v: ResolvedIntentAliasView) -> Seq<char> {
        v.alias
    }

    fn key_text(&self) -> (r: &str) {
        self.alias.as_str()
    }
}

impl Keyed for TaskStepIntentAliasBindingV1 {
    open spec fn key(v: TaskStepIntentAliasBindingV1View) -> Seq<char> {
        v.step_id
    }

    fn key_text(&self) -> (r: &str) {
        self.step_id.as_str()
    }
}

impl Keyed for IntentExecutionLineageV1 {
    open spec fn key(v: IntentExecutionLineageV1View) -> Seq<char> {
        v.binding.execution_id
    }

    fn key_text(&self) -> (r: &str) {
        self.binding.execution_id.as_str()
    }
}

impl Keyed for IntentLayerStateV1 {
    open spec fn key(v: IntentLayerStateV1View) -> Seq<char> {
        v.layer_manifest.core.execution_id
    }

    fn key_text(&self) -> (r: &str) {
        self.layer_manifest.core.execution_id.as_str()
    }
}

impl Keyed for OperationRecord {
    open spec fn key(v: OperationRecordView) -> Seq<char> {
        v.preview.operation_id
    }

    fn key_text(&self) -> (r: &str) {
        self.preview.operation_id.as_str()
    }
}

impl Keyed for IntentOperationSummaryV1 {
    open spec fn key(v: IntentOperationSummaryV1View) -> Seq<char> {
        v.operation_id
    }

    fn key_text(&self) -> (r: &str) {
        self.operation_id.as_str()
    }
}

} // verus!
