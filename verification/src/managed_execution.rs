//! Managed execution: what is planned and agreed before a process runs, and the receipts of what came
//! of it. Identities, scopes and classes of resources that nothing here looks into are carried as
//! their canonical text, and arguments and environment as bytes.

use vstd::prelude::*;
use vstd::relations::total_ordering;

use crate::digest::{sha256_hex_of, sha256_lower_hex};
use crate::order::{
    byte_text, items_in_order, lemma_byte_text_is_exact, lemma_order_is_canonical,
    lemma_text_order_is_total, may_lead, sort_items, text_of_bytes, text_order,
};
use crate::text::{ascending, ascending_texts, joined, precedes, text_precedes};
use crate::value::{lemma_push_view, Value};

verus! {

/// The most entries that an agreed environment holds.
pub const MAX_MANAGED_EXECUTION_ENV_ENTRIES: usize = 128;

/// The most arguments that are agreed.
pub const MAX_MANAGED_EXECUTION_ARGV_ENTRIES: usize = 64;

/// The most bytes that all agreed arguments take together.
pub const MAX_MANAGED_EXECUTION_ARGV_BYTES: usize = 65_536;

/// A SHA-256 digest, as lowercase hexadecimal digits.
#[derive(Debug, Clone, PartialEq, Eq)]
pub struct CanonicalHash {
    pub hex: String,
}

/// What a [`CanonicalHash`] holds.
#[verifier::ext_equal]
pub struct CanonicalHashView {
    pub hex: Seq<char>,
}

impl DeepView for CanonicalHash {
    type V = CanonicalHashView;

    open spec fn deep_view(&self) -> CanonicalHashView {
        CanonicalHashView {
            hex: self.hex.deep_view(),
        }
    }
}

impl Value for CanonicalHash {
    fn same(&self, other: &Self) -> (r: bool) {
        self.hex.same(&other.hex)
    }

    fn duplicate(&self) -> (r: Self) {
        CanonicalHash {
            hex: self.hex.duplicate(),
        }
    }
}

/// One entry of an agreed environment, in bytes.
#[derive(Debug, Clone, PartialEq, Eq)]
pub struct EnvironmentBinding {
    pub key: Vec<u8>,
    pub value: Vec<u8>,
}

/// What a [`EnvironmentBinding`] holds.
#[verifier::ext_equal]
pub struct EnvironmentBindingView {
    pub key: Seq<u8>,
    pub value: Seq<u8>,
}

impl DeepView for EnvironmentBinding {
    type V = EnvironmentBindingView;

    open spec fn deep_view(&self) -> EnvironmentBindingView {
        EnvironmentBindingView {
            key: self.key.deep_view(),
            value: self.value.deep_view(),
        }
    }
}

impl Value for EnvironmentBinding {
    fn same(&self, other: &Self) -> (r: bool) {
        self.key.same(&other.key)
            && self.value.same(&other.value)
    }

    fn duplicate(&self) -> (r: Self) {
        EnvironmentBinding {
            key: self.key.duplicate(),
            value: self.value.duplicate(),
        }
    }
}

/// The durable domain that owns a resource. Scopes that nothing here looks into go by their
/// canonical text.
#[derive(Debug, Clone, PartialEq, Eq)]
pub enum ResourceOwnerScopeV1 {
    ExtensionProcess {
        extension_kind: String,
        extension_id: String,
        generation: u64,
    },
    Named {
        name: String,
    },
}

/// What a [`ResourceOwnerScopeV1`] holds.
#[verifier::ext_equal]
pub enum ResourceOwnerScopeV1View {
    ExtensionProcess {
        extension_kind: Seq<char>,
        extension_id: Seq<char>,
        generation: u64,
    },
    Named {
        name: Seq<char>,
    },
}

impl DeepView for ResourceOwnerScopeV1 {
    type V = ResourceOwnerScopeV1View;

    open spec fn deep_view(&self) -> ResourceOwnerScopeV1View {
        match self {
            ResourceOwnerScopeV1::ExtensionProcess { extension_kind, extension_id, generation } => ResourceOwnerScopeV1View::ExtensionProcess {
                extension_kind: extension_kind.deep_view(),
                extension_id: extension_id.deep_view(),
                generation: generation.deep_view(),
            },
            ResourceOwnerScopeV1::Named { name } => ResourceOwnerScopeV1View::Named {
                name: name.deep_view(),
            },
        }
    }
}

impl Value for ResourceOwnerScopeV1 {
    fn same(&self, other: &Self) -> (r: bool) {
        match (self, other) {
            (
                ResourceOwnerScopeV1::ExtensionProcess { extension_kind, extension_id, generation },
                ResourceOwnerScopeV1::ExtensionProcess { extension_kind: extension_kind2, extension_id: extension_id2, generation: generation2 },
            ) => extension_kind.same(extension_kind2)
                && extension_id.same(extension_id2)
                && generation.same(generation2),
            (
                ResourceOwnerScopeV1::Named { name },
                ResourceOwnerScopeV1::Named { name: name2 },
            ) => name.same(name2),
            _ => false,
        }
    }

    fn duplicate(&self) -> (r: Self) {
        match self {
            ResourceOwnerScopeV1::ExtensionProcess { extension_kind, extension_id, generation } => ResourceOwnerScopeV1::ExtensionProcess {
                extension_kind: extension_kind.duplicate(),
                extension_id: extension_id.duplicate(),
                generation: generation.duplicate(),
            },
            ResourceOwnerScopeV1::Named { name } => ResourceOwnerScopeV1::Named {
                name: name.duplicate(),
            },
        }
    }
}

/// Execution purpose for one planned attempt.
#[derive(Debug, Clone, Copy, PartialEq, Eq, Structural)]
pub enum ExecutionPurposeV1 {
    OneShot,
    Terminal,
    ExtensionProcess,
    CodeIntelProcess,
}

impl DeepView for ExecutionPurposeV1 {
    type V = ExecutionPurposeV1;

    open spec fn deep_view(&self) -> ExecutionPurposeV1 {
        *self
    }
}

impl Value for ExecutionPurposeV1 {
    fn same(&self, other: &Self) -> (r: bool) {
        *self == *other
    }

    fn duplicate(&self) -> (r: Self) {
        *self
    }
}

/// How one output is captured.
#[derive(Debug, Clone, Copy, PartialEq, Eq, Structural)]
pub enum CaptureModeV1 {
    NoCapture,
    BoundedRing {
        max_bytes: u64,
    },
    ArtifactStreaming,
}

impl DeepView for CaptureModeV1 {
    type V = CaptureModeV1;

    open spec fn deep_view(&self) -> CaptureModeV1 {
        *self
    }
}

impl Value for CaptureModeV1 {
    fn same(&self, other: &Self) -> (r: bool) {
        *self == *other
    }

    fn duplicate(&self) -> (r: Self) {
        *self
    }
}

/// Capture policy for stdout/stderr/PTY.
#[derive(Debug, Clone, PartialEq, Eq)]
pub struct ExecutionCapturePolicy {
    pub stdout_capture: CaptureModeV1,
    pub stderr_capture: CaptureModeV1,
    pub pty: bool,
}

/// What a [`ExecutionCapturePolicy`] holds.
#[verifier::ext_equal]
pub struct ExecutionCapturePolicyView {
    pub stdout_capture: CaptureModeV1,
    pub stderr_capture: CaptureModeV1,
    pub pty: bool,
}

impl DeepView for ExecutionCapturePolicy {
    type V = ExecutionCapturePolicyView;

    open spec fn deep_view(&self) -> ExecutionCapturePolicyView {
        ExecutionCapturePolicyView {
            stdout_capture: self.stdout_capture.deep_view(),
            stderr_capture: self.stderr_capture.deep_view(),
            pty: self.pty.deep_view(),
        }
    }
}

impl Value for ExecutionCapturePolicy {
    fn same(&self, other: &Self) -> (r: bool) {
        self.stdout_capture.same(&other.stdout_capture)
            && self.stderr_capture.same(&other.stderr_capture)
            && self.pty.same(&other.pty)
    }

    fn duplicate(&self) -> (r: Self) {
        ExecutionCapturePolicy {
            stdout_capture: self.stdout_capture.duplicate(),
            stderr_capture: self.stderr_capture.duplicate(),
            pty: self.pty.duplicate(),
        }
    }
}

/// Bounded execution resource limits (approval input, not free parameters).
#[derive(Debug, Clone, PartialEq, Eq)]
pub struct ExecutionResourceLimits {
    pub max_output_bytes: u64,
    pub max_runtime_ms: u64,
    pub max_children: u32,
    pub max_fds: u32,
    pub pty_required: bool,
}

/// What a [`ExecutionResourceLimits`] holds.
#[verifier::ext_equal]
pub struct ExecutionResourceLimitsView {
    pub max_output_bytes: u64,
    pub max_runtime_ms: u64,
    pub max_children: u32,
    pub max_fds: u32,
    pub pty_required: bool,
}

impl DeepView for ExecutionResourceLimits {
    type V = ExecutionResourceLimitsView;

    open spec fn deep_view(&self) -> ExecutionResourceLimitsView {
        ExecutionResourceLimitsView {
            max_output_bytes: self.max_output_bytes.deep_view(),
            max_runtime_ms: self.max_runtime_ms.deep_view(),
            max_children: self.max_children.deep_view(),
            max_fds: self.max_fds.deep_view(),
            pty_required: self.pty_required.deep_view(),
        }
    }
}

impl Value for ExecutionResourceLimits {
    fn same(&self, other: &Self) -> (r: bool) {
        self.max_output_bytes.same(&other.max_output_bytes)
            && self.max_runtime_ms.same(&other.max_runtime_ms)
            && self.max_children.same(&other.max_children)
            && self.max_fds.same(&other.max_fds)
            && self.pty_required.same(&other.pty_required)
    }

    fn duplicate(&self) -> (r: Self) {
        ExecutionResourceLimits {
            max_output_bytes: self.max_output_bytes.duplicate(),
            max_runtime_ms: self.max_runtime_ms.duplicate(),
            max_children: self.max_children.duplicate(),
            max_fds: self.max_fds.duplicate(),
            pty_required: self.pty_required.duplicate(),
        }
    }
}

/// Pathless environment profile reference.
#[derive(Debug, Clone, PartialEq, Eq)]
pub struct EnvironmentProfileRefV1 {
    pub profile_class: String,
    pub profile_hash: CanonicalHash,
}

/// What a [`EnvironmentProfileRefV1`] holds.
#[verifier::ext_equal]
pub struct EnvironmentProfileRefV1View {
    pub profile_class: Seq<char>,
    pub profile_hash: CanonicalHashView,
}

impl DeepView for EnvironmentProfileRefV1 {
    type V = EnvironmentProfileRefV1View;

    open spec fn deep_view(&self) -> EnvironmentProfileRefV1View {
        EnvironmentProfileRefV1View {
            profile_class: self.profile_class.deep_view(),
            profile_hash: self.profile_hash.deep_view(),
        }
    }
}

impl Value for EnvironmentProfileRefV1 {
    fn same(&self, other: &Self) -> (r: bool) {
        self.profile_class.same(&other.profile_class)
            && self.profile_hash.same(&other.profile_hash)
    }

    fn duplicate(&self) -> (r: Self) {
        EnvironmentProfileRefV1 {
            profile_class: self.profile_class.duplicate(),
            profile_hash: self.profile_hash.duplicate(),
        }
    }
}

/// Pre-permission planner request (pathless).
#[derive(Debug, Clone, PartialEq, Eq)]
pub struct ManagedExecutionPlanRequestV1 {
    pub argv: Vec<Vec<u8>>,
    pub cwd_subject_ref: String,
    pub purpose: ExecutionPurposeV1,
    pub structured_command_digest: CanonicalHash,
    pub owner_scope: ResourceOwnerScopeV1,
    pub capture: ExecutionCapturePolicy,
    pub limits: ExecutionResourceLimits,
    /// Agreed environment (config-granted extension/server env); sealed by the planner.
    pub environment: Vec<EnvironmentBinding>,
}

/// What a [`ManagedExecutionPlanRequestV1`] holds.
#[verifier::ext_equal]
pub struct ManagedExecutionPlanRequestV1View {
    pub argv: Seq<Seq<u8>>,
    pub cwd_subject_ref: Seq<char>,
    pub purpose: ExecutionPurposeV1,
    pub structured_command_digest: CanonicalHashView,
    pub owner_scope: ResourceOwnerScopeV1View,
    pub capture: ExecutionCapturePolicyView,
    pub limits: ExecutionResourceLimitsView,
    pub environment: Seq<EnvironmentBindingView>,
}

impl DeepView for ManagedExecutionPlanRequestV1 {
    type V = ManagedExecutionPlanRequestV1View;

    open spec fn deep_view(&self) -> ManagedExecutionPlanRequestV1View {
        ManagedExecutionPlanRequestV1View {
            argv: self.argv.deep_view(),
            cwd_subject_ref: self.cwd_subject_ref.deep_view(),
            purpose: self.purpose.deep_view(),
            structured_command_digest: self.structured_command_digest.deep_view(),
            owner_scope: self.owner_scope.deep_view(),
            capture: self.capture.deep_view(),
            limits: self.limits.deep_view(),
            environment: self.environment.deep_view(),
        }
    }
}

impl Value for ManagedExecutionPlanRequestV1 {
    fn same(&self, other: &Self) -> (r: bool) {
        self.argv.same(&other.argv)
            && self.cwd_subject_ref.same(&other.cwd_subject_ref)
            && self.purpose.same(&other.purpose)
            && self.structured_command_digest.same(&other.structured_command_digest)
            && self.owner_scope.same(&other.owner_scope)
            && self.capture.same(&other.capture)
            && self.limits.same(&other.limits)
            && self.environment.same(&other.environment)
    }

    fn duplicate(&self) -> (r: Self) {
        ManagedExecutionPlanRequestV1 {
            argv: self.argv.duplicate(),
            cwd_subject_ref: self.cwd_subject_ref.duplicate(),
            purpose: self.purpose.duplicate(),
            structured_command_digest: self.structured_command_digest.duplicate(),
            owner_scope: self.owner_scope.duplicate(),
            capture: self.capture.duplicate(),
            limits: self.limits.duplicate(),
            environment: self.environment.duplicate(),
        }
    }
}

/// Pathless planner draft result (side-effect-free).
#[derive(Debug, Clone, PartialEq, Eq)]
pub struct ManagedExecutionPlanDraftV1 {
    pub draft_id: String,
    pub argv_digest: CanonicalHash,
    pub structured_command_digest: CanonicalHash,
    pub cwd_subject_binding_hash: CanonicalHash,
    pub attempt_journal_scope: String,
    pub attempt_journal_scope_hash: CanonicalHash,
    pub resource_plan_hash: CanonicalHash,
    pub resource_requirements: String,
    pub environment_profile: EnvironmentProfileRefV1,
    pub toolchain_plan_hash: CanonicalHash,
    pub resolver_proof_digest: CanonicalHash,
    pub sandbox_preview_hash: CanonicalHash,
    pub sandbox_binder_registration_hash: CanonicalHash,
    pub sandbox_provider_generation: u64,
    pub capture_policy_hash: CanonicalHash,
    pub resource_limits_hash: CanonicalHash,
    /// Digest of the agreed environment (see canonical_environment_digest).
    pub environment_digest: CanonicalHash,
    pub draft_hash: CanonicalHash,
}

/// What a [`ManagedExecutionPlanDraftV1`] holds.
#[verifier::ext_equal]
pub struct ManagedExecutionPlanDraftV1View {
    pub draft_id: Seq<char>,
    pub argv_digest: CanonicalHashView,
    pub structured_command_digest: CanonicalHashView,
    pub cwd_subject_binding_hash: CanonicalHashView,
    pub attempt_journal_scope: Seq<char>,
    pub attempt_journal_scope_hash: CanonicalHashView,
    pub resource_plan_hash: CanonicalHashView,
    pub resource_requirements: Seq<char>,
    pub environment_profile: EnvironmentProfileRefV1View,
    pub toolchain_plan_hash: CanonicalHashView,
    pub resolver_proof_digest: CanonicalHashView,
    pub sandbox_preview_hash: CanonicalHashView,
    pub sandbox_binder_registration_hash: CanonicalHashView,
    pub sandbox_provider_generation: u64,
    pub capture_policy_hash: CanonicalHashView,
    pub resource_limits_hash: CanonicalHashView,
    pub environment_digest: CanonicalHashView,
    pub draft_hash: CanonicalHashView,
}

impl DeepView for ManagedExecutionPlanDraftV1 {
    type V = ManagedExecutionPlanDraftV1View;

    open spec fn deep_view(&self) -> ManagedExecutionPlanDraftV1View {
        ManagedExecutionPlanDraftV1View {
            draft_id: self.draft_id.deep_view(),
            argv_digest: self.argv_digest.deep_view(),
            structured_command_digest: self.structured_command_digest.deep_view(),
            cwd_subject_binding_hash: self.cwd_subject_binding_hash.deep_view(),
            attempt_journal_scope: self.attempt_journal_scope.deep_view(),
            attempt_journal_scope_hash: self.attempt_journal_scope_hash.deep_view(),
            resource_plan_hash: self.resource_plan_hash.deep_view(),
            resource_requirements: self.resource_requirements.deep_view(),
            environment_profile: self.environment_profile.deep_view(),
            toolchain_plan_hash: self.toolchain_plan_hash.deep_view(),
            resolver_proof_digest: self.resolver_proof_digest.deep_view(),
            sandbox_preview_hash: self.sandbox_preview_hash.deep_view(),
            sandbox_binder_registration_hash: self.sandbox_binder_registration_hash.deep_view(),
            sandbox_provider_generation: self.sandbox_provider_generation.deep_view(),
            capture_policy_hash: self.capture_policy_hash.deep_view(),
            resource_limits_hash: self.resource_limits_hash.deep_view(),
            environment_digest: self.environment_digest.deep_view(),
            draft_hash: self.draft_hash.deep_view(),
        }
    }
}

impl Value for ManagedExecutionPlanDraftV1 {
    fn same(&self, other: &Self) -> (r: bool) {
        self.draft_id.same(&other.draft_id)
            && self.argv_digest.same(&other.argv_digest)
            && self.structured_command_digest.same(&other.structured_command_digest)
            && self.cwd_subject_binding_hash.same(&other.cwd_subject_binding_hash)
            && self.attempt_journal_scope.same(&other.attempt_journal_scope)
            && self.attempt_journal_scope_hash.same(&other.attempt_journal_scope_hash)
            && self.resource_plan_hash.same(&other.resource_plan_hash)
            && self.resource_requirements.same(&other.resource_requirements)
            && self.environment_profile.same(&other.environment_profile)
            && self.toolchain_plan_hash.same(&other.toolchain_plan_hash)
            && self.resolver_proof_digest.same(&other.resolver_proof_digest)
            && self.sandbox_preview_hash.same(&other.sandbox_preview_hash)
            && self.sandbox_binder_registration_hash.same(&other.sandbox_binder_registration_hash)
            && self.sandbox_provider_generation.same(&other.sandbox_provider_generation)
            && self.capture_policy_hash.same(&other.capture_policy_hash)
            && self.resource_limits_hash.same(&other.resource_limits_hash)
            && self.environment_digest.same(&other.environment_digest)
            && self.draft_hash.same(&other.draft_hash)
    }

    fn duplicate(&self) -> (r: Self) {
        ManagedExecutionPlanDraftV1 {
            draft_id: self.draft_id.duplicate(),
            argv_digest: self.argv_digest.duplicate(),
            structured_command_digest: self.structured_command_digest.duplicate(),
            cwd_subject_binding_hash: self.cwd_subject_binding_hash.duplicate(),
            attempt_journal_scope: self.attempt_journal_scope.duplicate(),
            attempt_journal_scope_hash: self.attempt_journal_scope_hash.duplicate(),
            resource_plan_hash: self.resource_plan_hash.duplicate(),
            resource_requirements: self.resource_requirements.duplicate(),
            environment_profile: self.environment_profile.duplicate(),
            toolchain_plan_hash: self.toolchain_plan_hash.duplicate(),
            resolver_proof_digest: self.resolver_proof_digest.duplicate(),
            sandbox_preview_hash: self.sandbox_preview_hash.duplicate(),
            sandbox_binder_registration_hash: self.sandbox_binder_registration_hash.duplicate(),
            sandbox_provider_generation: self.sandbox_provider_generation.duplicate(),
            capture_policy_hash: self.capture_policy_hash.duplicate(),
            resource_limits_hash: self.resource_limits_hash.duplicate(),
            environment_digest: self.environment_digest.duplicate(),
            draft_hash: self.draft_hash.duplicate(),
        }
    }
}

/// Closed planner error classification.
#[derive(Debug, Clone, PartialEq, Eq)]
pub enum ManagedExecutionPlanErrorV1 {
    ArgvDigestDrift,
    ResourcePlanSideEffect(String),
    StaleResolverProof,
    SandboxPreviewUnavailable,
}

/// What a [`ManagedExecutionPlanErrorV1`] holds.
#[verifier::ext_equal]
pub enum ManagedExecutionPlanErrorV1View {
    ArgvDigestDrift,
    ResourcePlanSideEffect(Seq<char>),
    StaleResolverProof,
    SandboxPreviewUnavailable,
}

impl DeepView for ManagedExecutionPlanErrorV1 {
    type V = ManagedExecutionPlanErrorV1View;

    open spec fn deep_view(&self) -> ManagedExecutionPlanErrorV1View {
        match self {
            ManagedExecutionPlanErrorV1::ArgvDigestDrift => ManagedExecutionPlanErrorV1View::ArgvDigestDrift,
            ManagedExecutionPlanErrorV1::ResourcePlanSideEffect(x) => ManagedExecutionPlanErrorV1View::ResourcePlanSideEffect(x.deep_view()),
            ManagedExecutionPlanErrorV1::StaleResolverProof => ManagedExecutionPlanErrorV1View::StaleResolverProof,
            ManagedExecutionPlanErrorV1::SandboxPreviewUnavailable => ManagedExecutionPlanErrorV1View::SandboxPreviewUnavailable,
        }
    }
}

impl Value for ManagedExecutionPlanErrorV1 {
    fn same(&self, other: &Self) -> (r: bool) {
        match (self, other) {
            (
                ManagedExecutionPlanErrorV1::ArgvDigestDrift,
                ManagedExecutionPlanErrorV1::ArgvDigestDrift,
            ) => true,
            (
                ManagedExecutionPlanErrorV1::ResourcePlanSideEffect(x),
                ManagedExecutionPlanErrorV1::ResourcePlanSideEffect(x2),
            ) => x.same(x2),
            (
                ManagedExecutionPlanErrorV1::StaleResolverProof,
                ManagedExecutionPlanErrorV1::StaleResolverProof,
            ) => true,
            (
                ManagedExecutionPlanErrorV1::SandboxPreviewUnavailable,
                ManagedExecutionPlanErrorV1::SandboxPreviewUnavailable,
            ) => true,
            _ => false,
        }
    }

    fn duplicate(&self) -> (r: Self) {
        match self {
            ManagedExecutionPlanErrorV1::ArgvDigestDrift => ManagedExecutionPlanErrorV1::ArgvDigestDrift,
            ManagedExecutionPlanErrorV1::ResourcePlanSideEffect(x) => ManagedExecutionPlanErrorV1::ResourcePlanSideEffect(x.duplicate()),
            ManagedExecutionPlanErrorV1::StaleResolverProof => ManagedExecutionPlanErrorV1::StaleResolverProof,
            ManagedExecutionPlanErrorV1::SandboxPreviewUnavailable => ManagedExecutionPlanErrorV1::SandboxPreviewUnavailable,
        }
    }
}

/// Approved admission issued by the continuity validator (not consumer-constructible).
#[derive(Debug, Clone, PartialEq, Eq)]
pub struct ApprovedExecutionAdmissionV1 {
    pub admission_id: String,
    pub physical_attempt_id: String,
    pub authority_generation: u64,
    pub resource_plan_hash: CanonicalHash,
    pub execution_plan_draft_hash: CanonicalHash,
    pub argv_digest: CanonicalHash,
    pub structured_command_digest: CanonicalHash,
    pub cwd_subject_binding_hash: CanonicalHash,
    pub attempt_journal_scope: String,
    pub attempt_journal_scope_hash: CanonicalHash,
    pub permission_plan_hash: CanonicalHash,
    pub decision_digest: CanonicalHash,
    pub approval_continuity_hash: CanonicalHash,
    pub execution_start_event_digest: CanonicalHash,
    pub requirement_set_hash: CanonicalHash,
    pub subject_binding_hash: CanonicalHash,
    pub requested_enforcement_hash: CanonicalHash,
    pub resolver_proof_digest: CanonicalHash,
    pub sandbox_preview_hash: CanonicalHash,
    pub sandbox_binder_registration_hash: CanonicalHash,
    pub sandbox_provider_generation: u64,
    pub capture_policy_hash: CanonicalHash,
    pub resource_limits_hash: CanonicalHash,
    pub resource_requirements: String,
    pub requested_enforcement: String,
    pub admission_hash: CanonicalHash,
}

/// What a [`ApprovedExecutionAdmissionV1`] holds.
#[verifier::ext_equal]
pub struct ApprovedExecutionAdmissionV1View {
    pub admission_id: Seq<char>,
    pub physical_attempt_id: Seq<char>,
    pub authority_generation: u64,
    pub resource_plan_hash: CanonicalHashView,
    pub execution_plan_draft_hash: CanonicalHashView,
    pub argv_digest: CanonicalHashView,
    pub structured_command_digest: CanonicalHashView,
    pub cwd_subject_binding_hash: CanonicalHashView,
    pub attempt_journal_scope: Seq<char>,
    pub attempt_journal_scope_hash: CanonicalHashView,
    pub permission_plan_hash: CanonicalHashView,
    pub decision_digest: CanonicalHashView,
    pub approval_continuity_hash: CanonicalHashView,
    pub execution_start_event_digest: CanonicalHashView,
    pub requirement_set_hash: CanonicalHashView,
    pub subject_binding_hash: CanonicalHashView,
    pub requested_enforcement_hash: CanonicalHashView,
    pub resolver_proof_digest: CanonicalHashView,
    pub sandbox_preview_hash: CanonicalHashView,
    pub sandbox_binder_registration_hash: CanonicalHashView,
    pub sandbox_provider_generation: u64,
    pub capture_policy_hash: CanonicalHashView,
    pub resource_limits_hash: CanonicalHashView,
    pub resource_requirements: Seq<char>,
    pub requested_enforcement: Seq<char>,
    pub admission_hash: CanonicalHashView,
}

impl DeepView for ApprovedExecutionAdmissionV1 {
    type V = ApprovedExecutionAdmissionV1View;

    open spec fn deep_view(&self) -> ApprovedExecutionAdmissionV1View {
        ApprovedExecutionAdmissionV1View {
            admission_id: self.admission_id.deep_view(),
            physical_attempt_id: self.physical_attempt_id.deep_view(),
            authority_generation: self.authority_generation.deep_view(),
            resource_plan_hash: self.resource_plan_hash.deep_view(),
            execution_plan_draft_hash: self.execution_plan_draft_hash.deep_view(),
            argv_digest: self.argv_digest.deep_view(),
            structured_command_digest: self.structured_command_digest.deep_view(),
            cwd_subject_binding_hash: self.cwd_subject_binding_hash.deep_view(),
            attempt_journal_scope: self.attempt_journal_scope.deep_view(),
            attempt_journal_scope_hash: self.attempt_journal_scope_hash.deep_view(),
            permission_plan_hash: self.permission_plan_hash.deep_view(),
            decision_digest: self.decision_digest.deep_view(),
            approval_continuity_hash: self.approval_continuity_hash.deep_view(),
            execution_start_event_digest: self.execution_start_event_digest.deep_view(),
            requirement_set_hash: self.requirement_set_hash.deep_view(),
            subject_binding_hash: self.subject_binding_hash.deep_view(),
            requested_enforcement_hash: self.requested_enforcement_hash.deep_view(),
            resolver_proof_digest: self.resolver_proof_digest.deep_view(),
            sandbox_preview_hash: self.sandbox_preview_hash.deep_view(),
            sandbox_binder_registration_hash: self.sandbox_binder_registration_hash.deep_view(),
            sandbox_provider_generation: self.sandbox_provider_generation.deep_view(),
            capture_policy_hash: self.capture_policy_hash.deep_view(),
            resource_limits_hash: self.resource_limits_hash.deep_view(),
            resource_requirements: self.resource_requirements.deep_view(),
            requested_enforcement: self.requested_enforcement.deep_view(),
            admission_hash: self.admission_hash.deep_view(),
        }
    }
}

impl Value for ApprovedExecutionAdmissionV1 {
    fn same(&self, other: &Self) -> (r: bool) {
        self.admission_id.same(&other.admission_id)
            && self.physical_attempt_id.same(&other.physical_attempt_id)
            && self.authority_generation.same(&other.authority_generation)
            && self.resource_plan_hash.same(&other.resource_plan_hash)
            && self.execution_plan_draft_hash.same(&other.execution_plan_draft_hash)
            && self.argv_digest.same(&other.argv_digest)
            && self.structured_command_digest.same(&other.structured_command_digest)
            && self.cwd_subject_binding_hash.same(&other.cwd_subject_binding_hash)
            && self.attempt_journal_scope.same(&other.attempt_journal_scope)
            && self.attempt_journal_scope_hash.same(&other.attempt_journal_scope_hash)
            && self.permission_plan_hash.same(&other.permission_plan_hash)
            && self.decision_digest.same(&other.decision_digest)
            && self.approval_continuity_hash.same(&other.approval_continuity_hash)
            && self.execution_start_event_digest.same(&other.execution_start_event_digest)
            && self.requirement_set_hash.same(&other.requirement_set_hash)
            && self.subject_binding_hash.same(&other.subject_binding_hash)
            && self.requested_enforcement_hash.same(&other.requested_enforcement_hash)
            && self.resolver_proof_digest.same(&other.resolver_proof_digest)
            && self.sandbox_preview_hash.same(&other.sandbox_preview_hash)
            && self.sandbox_binder_registration_hash.same(&other.sandbox_binder_registration_hash)
            && self.sandbox_provider_generation.same(&other.sandbox_provider_generation)
            && self.capture_policy_hash.same(&other.capture_policy_hash)
            && self.resource_limits_hash.same(&other.resource_limits_hash)
            && self.resource_requirements.same(&other.resource_requirements)
            && self.requested_enforcement.same(&other.requested_enforcement)
            && self.admission_hash.same(&other.admission_hash)
    }

    fn duplicate(&self) -> (r: Self) {
        ApprovedExecutionAdmissionV1 {
            admission_id: self.admission_id.duplicate(),
            physical_attempt_id: self.physical_attempt_id.duplicate(),
            authority_generation: self.authority_generation.duplicate(),
            resource_plan_hash: self.resource_plan_hash.duplicate(),
            execution_plan_draft_hash: self.execution_plan_draft_hash.duplicate(),
            argv_digest: self.argv_digest.duplicate(),
            structured_command_digest: self.structured_command_digest.duplicate(),
            cwd_subject_binding_hash: self.cwd_subject_binding_hash.duplicate(),
            attempt_journal_scope: self.attempt_journal_scope.duplicate(),
            attempt_journal_scope_hash: self.attempt_journal_scope_hash.duplicate(),
            permission_plan_hash: self.permission_plan_hash.duplicate(),
            decision_digest: self.decision_digest.duplicate(),
            approval_continuity_hash: self.approval_continuity_hash.duplicate(),
            execution_start_event_digest: self.execution_start_event_digest.duplicate(),
            requirement_set_hash: self.requirement_set_hash.duplicate(),
            subject_binding_hash: self.subject_binding_hash.duplicate(),
            requested_enforcement_hash: self.requested_enforcement_hash.duplicate(),
            resolver_proof_digest: self.resolver_proof_digest.duplicate(),
            sandbox_preview_hash: self.sandbox_preview_hash.duplicate(),
            sandbox_binder_registration_hash: self.sandbox_binder_registration_hash.duplicate(),
            sandbox_provider_generation: self.sandbox_provider_generation.duplicate(),
            capture_policy_hash: self.capture_policy_hash.duplicate(),
            resource_limits_hash: self.resource_limits_hash.duplicate(),
            resource_requirements: self.resource_requirements.duplicate(),
            requested_enforcement: self.requested_enforcement.duplicate(),
            admission_hash: self.admission_hash.duplicate(),
        }
    }
}

/// Bounded PTY size.
#[derive(Debug, Clone, Copy, PartialEq, Eq, Structural)]
pub struct BoundedPtySizeV1 {
    pub rows: u16,
    pub cols: u16,
}

impl DeepView for BoundedPtySizeV1 {
    type V = BoundedPtySizeV1;

    open spec fn deep_view(&self) -> BoundedPtySizeV1 {
        *self
    }
}

impl Value for BoundedPtySizeV1 {
    fn same(&self, other: &Self) -> (r: bool) {
        *self == *other
    }

    fn duplicate(&self) -> (r: Self) {
        *self
    }
}

/// Post-decision execution request (all fields are approval-bound).
#[derive(Debug, Clone, PartialEq, Eq)]
pub struct ManagedExecutionRequestV1 {
    pub argv: Vec<Vec<u8>>,
    pub cwd_subject_ref: String,
    pub structured_command_digest: CanonicalHash,
    pub admission_ref: String,
    pub execution_plan_draft_hash: CanonicalHash,
    pub environment_profile: EnvironmentProfileRefV1,
    pub capture: ExecutionCapturePolicy,
    pub limits: ExecutionResourceLimits,
    /// Initial PTY dimensions, when the approved capture contract requires a PTY.  Dimensions are a
    /// bounded control input rather than host path material. Subsequent resizes still travel
    /// through `ManagedProcessHandleV1` and produce a typed control receipt.
    pub pty_size: Option<BoundedPtySizeV1>,
    /// Agreed environment (config-granted extension/server env); must match the sealed plan.
    pub environment: Vec<EnvironmentBinding>,
}

/// What a [`ManagedExecutionRequestV1`] holds.
#[verifier::ext_equal]
pub struct ManagedExecutionRequestV1View {
    pub argv: Seq<Seq<u8>>,
    pub cwd_subject_ref: Seq<char>,
    pub structured_command_digest: CanonicalHashView,
    pub admission_ref: Seq<char>,
    pub execution_plan_draft_hash: CanonicalHashView,
    pub environment_profile: EnvironmentProfileRefV1View,
    pub capture: ExecutionCapturePolicyView,
    pub limits: ExecutionResourceLimitsView,
    pub pty_size: Option<BoundedPtySizeV1>,
    pub environment: Seq<EnvironmentBindingView>,
}

impl DeepView for ManagedExecutionRequestV1 {
    type V = ManagedExecutionRequestV1View;

    open spec fn deep_view(&self) -> ManagedExecutionRequestV1View {
        ManagedExecutionRequestV1View {
            argv: self.argv.deep_view(),
            cwd_subject_ref: self.cwd_subject_ref.deep_view(),
            structured_command_digest: self.structured_command_digest.deep_view(),
            admission_ref: self.admission_ref.deep_view(),
            execution_plan_draft_hash: self.execution_plan_draft_hash.deep_view(),
            environment_profile: self.environment_profile.deep_view(),
            capture: self.capture.deep_view(),
            limits: self.limits.deep_view(),
            pty_size: self.pty_size.deep_view(),
            environment: self.environment.deep_view(),
        }
    }
}

impl Value for ManagedExecutionRequestV1 {
    fn same(&self, other: &Self) -> (r: bool) {
        self.argv.same(&other.argv)
            && self.cwd_subject_ref.same(&other.cwd_subject_ref)
            && self.structured_command_digest.same(&other.structured_command_digest)
            && self.admission_ref.same(&other.admission_ref)
            && self.execution_plan_draft_hash.same(&other.execution_plan_draft_hash)
            && self.environment_profile.same(&other.environment_profile)
            && self.capture.same(&other.capture)
            && self.limits.same(&other.limits)
            && self.pty_size.same(&other.pty_size)
            && self.environment.same(&other.environment)
    }

    fn duplicate(&self) -> (r: Self) {
        ManagedExecutionRequestV1 {
            argv: self.argv.duplicate(),
            cwd_subject_ref: self.cwd_subject_ref.duplicate(),
            structured_command_digest: self.structured_command_digest.duplicate(),
            admission_ref: self.admission_ref.duplicate(),
            execution_plan_draft_hash: self.execution_plan_draft_hash.duplicate(),
            environment_profile: self.environment_profile.duplicate(),
            capture: self.capture.duplicate(),
            limits: self.limits.duplicate(),
            pty_size: self.pty_size.duplicate(),
            environment: self.environment.duplicate(),
        }
    }
}

/// Output channel classification.
#[derive(Debug, Clone, Copy, PartialEq, Eq, Structural)]
pub enum ManagedProcessOutputChannelV1 {
    Stdout,
    Stderr,
    Pty,
}

impl DeepView for ManagedProcessOutputChannelV1 {
    type V = ManagedProcessOutputChannelV1;

    open spec fn deep_view(&self) -> ManagedProcessOutputChannelV1 {
        *self
    }
}

impl Value for ManagedProcessOutputChannelV1 {
    fn same(&self, other: &Self) -> (r: bool) {
        *self == *other
    }

    fn duplicate(&self) -> (r: Self) {
        *self
    }
}

/// Bounded output frame; exactly one terminal EOF per process.
#[derive(Debug, Clone, PartialEq, Eq)]
pub struct BoundedProcessOutputFrameV1 {
    pub channel: ManagedProcessOutputChannelV1,
    pub sequence: u64,
    pub payload: Vec<u8>,
    pub end_of_stream: bool,
    pub truncated: bool,
}

/// What a [`BoundedProcessOutputFrameV1`] holds.
#[verifier::ext_equal]
pub struct BoundedProcessOutputFrameV1View {
    pub channel: ManagedProcessOutputChannelV1,
    pub sequence: u64,
    pub payload: Seq<u8>,
    pub end_of_stream: bool,
    pub truncated: bool,
}

impl DeepView for BoundedProcessOutputFrameV1 {
    type V = BoundedProcessOutputFrameV1View;

    open spec fn deep_view(&self) -> BoundedProcessOutputFrameV1View {
        BoundedProcessOutputFrameV1View {
            channel: self.channel.deep_view(),
            sequence: self.sequence.deep_view(),
            payload: self.payload.deep_view(),
            end_of_stream: self.end_of_stream.deep_view(),
            truncated: self.truncated.deep_view(),
        }
    }
}

impl Value for BoundedProcessOutputFrameV1 {
    fn same(&self, other: &Self) -> (r: bool) {
        self.channel.same(&other.channel)
            && self.sequence.same(&other.sequence)
            && self.payload.same(&other.payload)
            && self.end_of_stream.same(&other.end_of_stream)
            && self.truncated.same(&other.truncated)
    }

    fn duplicate(&self) -> (r: Self) {
        BoundedProcessOutputFrameV1 {
            channel: self.channel.duplicate(),
            sequence: self.sequence.duplicate(),
            payload: self.payload.duplicate(),
            end_of_stream: self.end_of_stream.duplicate(),
            truncated: self.truncated.duplicate(),
        }
    }
}

/// Bounded process input for stdin writes.
#[derive(Debug, Clone, PartialEq, Eq)]
pub struct BoundedProcessInputV1 {
    pub payload: Vec<u8>,
}

/// What a [`BoundedProcessInputV1`] holds.
#[verifier::ext_equal]
pub struct BoundedProcessInputV1View {
    pub payload: Seq<u8>,
}

impl DeepView for BoundedProcessInputV1 {
    type V = BoundedProcessInputV1View;

    open spec fn deep_view(&self) -> BoundedProcessInputV1View {
        BoundedProcessInputV1View {
            payload: self.payload.deep_view(),
        }
    }
}

impl Value for BoundedProcessInputV1 {
    fn same(&self, other: &Self) -> (r: bool) {
        self.payload.same(&other.payload)
    }

    fn duplicate(&self) -> (r: Self) {
        BoundedProcessInputV1 {
            payload: self.payload.duplicate(),
        }
    }
}

/// Cancel reason classification.
#[derive(Debug, Clone, Copy, PartialEq, Eq, Structural)]
pub enum ProcessCancelReasonV1 {
    UserCancelled,
    DeadlineExceeded,
    ParentShutdown,
    QuotaExceeded,
}

impl DeepView for ProcessCancelReasonV1 {
    type V = ProcessCancelReasonV1;

    open spec fn deep_view(&self) -> ProcessCancelReasonV1 {
        *self
    }
}

impl Value for ProcessCancelReasonV1 {
    fn same(&self, other: &Self) -> (r: bool) {
        *self == *other
    }

    fn duplicate(&self) -> (r: Self) {
        *self
    }
}

/// Closed process termination classification.
#[derive(Debug, Clone, PartialEq, Eq)]
pub enum ProcessTerminationV1 {
    NotSpawned,
    Exited {
        code: i32,
    },
    Signaled {
        signal: u32,
    },
    Cancelled,
    TimedOut,
    OutcomeUncertain {
        evidence_digest: CanonicalHash,
    },
}

/// What a [`ProcessTerminationV1`] holds.
#[verifier::ext_equal]
pub enum ProcessTerminationV1View {
    NotSpawned,
    Exited {
        code: i32,
    },
    Signaled {
        signal: u32,
    },
    Cancelled,
    TimedOut,
    OutcomeUncertain {
        evidence_digest: CanonicalHashView,
    },
}

impl DeepView for ProcessTerminationV1 {
    type V = ProcessTerminationV1View;

    open spec fn deep_view(&self) -> ProcessTerminationV1View {
        match self {
            ProcessTerminationV1::NotSpawned => ProcessTerminationV1View::NotSpawned,
            ProcessTerminationV1::Exited { code } => ProcessTerminationV1View::Exited {
                code: code.deep_view(),
            },
            ProcessTerminationV1::Signaled { signal } => ProcessTerminationV1View::Signaled {
                signal: signal.deep_view(),
            },
            ProcessTerminationV1::Cancelled => ProcessTerminationV1View::Cancelled,
            ProcessTerminationV1::TimedOut => ProcessTerminationV1View::TimedOut,
            ProcessTerminationV1::OutcomeUncertain { evidence_digest } => ProcessTerminationV1View::OutcomeUncertain {
                evidence_digest: evidence_digest.deep_view(),
            },
        }
    }
}

impl Value for ProcessTerminationV1 {
    fn same(&self, other: &Self) -> (r: bool) {
        match (self, other) {
            (
                ProcessTerminationV1::NotSpawned,
                ProcessTerminationV1::NotSpawned,
            ) => true,
            (
                ProcessTerminationV1::Exited { code },
                ProcessTerminationV1::Exited { code: code2 },
            ) => code.same(code2),
            (
                ProcessTerminationV1::Signaled { signal },
                ProcessTerminationV1::Signaled { signal: signal2 },
            ) => signal.same(signal2),
            (
                ProcessTerminationV1::Cancelled,
                ProcessTerminationV1::Cancelled,
            ) => true,
            (
                ProcessTerminationV1::TimedOut,
                ProcessTerminationV1::TimedOut,
            ) => true,
            (
                ProcessTerminationV1::OutcomeUncertain { evidence_digest },
                ProcessTerminationV1::OutcomeUncertain { evidence_digest: evidence_digest2 },
            ) => evidence_digest.same(evidence_digest2),
            _ => false,
        }
    }

    fn duplicate(&self) -> (r: Self) {
        match self {
            ProcessTerminationV1::NotSpawned => ProcessTerminationV1::NotSpawned,
            ProcessTerminationV1::Exited { code } => ProcessTerminationV1::Exited {
                code: code.duplicate(),
            },
            ProcessTerminationV1::Signaled { signal } => ProcessTerminationV1::Signaled {
                signal: signal.duplicate(),
            },
            ProcessTerminationV1::Cancelled => ProcessTerminationV1::Cancelled,
            ProcessTerminationV1::TimedOut => ProcessTerminationV1::TimedOut,
            ProcessTerminationV1::OutcomeUncertain { evidence_digest } => ProcessTerminationV1::OutcomeUncertain {
                evidence_digest: evidence_digest.duplicate(),
            },
        }
    }
}

/// Bounded output summary (never fabricated by a consumer).
#[derive(Debug, Clone, PartialEq, Eq)]
pub struct BoundedOutputSummaryV1 {
    pub observed_bytes: u64,
    pub retained_bytes: u64,
    /// Bounded bytes retained by the authority-owned capture policy. This is the only output
    /// payload that a consumer may project; consumers must not re-open a process path or rebuild
    /// output from an unbounded post-execution source.
    pub retained_payload: Vec<u8>,
    pub content_digest: CanonicalHash,
    pub truncated: bool,
    pub artifact_ref: Option<String>,
}

/// What a [`BoundedOutputSummaryV1`] holds.
#[verifier::ext_equal]
pub struct BoundedOutputSummaryV1View {
    pub observed_bytes: u64,
    pub retained_bytes: u64,
    pub retained_payload: Seq<u8>,
    pub content_digest: CanonicalHashView,
    pub truncated: bool,
    pub artifact_ref: Option<Seq<char>>,
}

impl DeepView for BoundedOutputSummaryV1 {
    type V = BoundedOutputSummaryV1View;

    open spec fn deep_view(&self) -> BoundedOutputSummaryV1View {
        BoundedOutputSummaryV1View {
            observed_bytes: self.observed_bytes.deep_view(),
            retained_bytes: self.retained_bytes.deep_view(),
            retained_payload: self.retained_payload.deep_view(),
            content_digest: self.content_digest.deep_view(),
            truncated: self.truncated.deep_view(),
            artifact_ref: self.artifact_ref.deep_view(),
        }
    }
}

impl Value for BoundedOutputSummaryV1 {
    fn same(&self, other: &Self) -> (r: bool) {
        self.observed_bytes.same(&other.observed_bytes)
            && self.retained_bytes.same(&other.retained_bytes)
            && self.retained_payload.same(&other.retained_payload)
            && self.content_digest.same(&other.content_digest)
            && self.truncated.same(&other.truncated)
            && self.artifact_ref.same(&other.artifact_ref)
    }

    fn duplicate(&self) -> (r: Self) {
        BoundedOutputSummaryV1 {
            observed_bytes: self.observed_bytes.duplicate(),
            retained_bytes: self.retained_bytes.duplicate(),
            retained_payload: self.retained_payload.duplicate(),
            content_digest: self.content_digest.duplicate(),
            truncated: self.truncated.duplicate(),
            artifact_ref: self.artifact_ref.duplicate(),
        }
    }
}

/// Resource usage snapshot.
#[derive(Debug, Clone, Copy, PartialEq, Eq, Structural)]
pub struct ResourceUsageSnapshotV1 {
    pub logical_bytes: u64,
    pub physical_bytes: u64,
    pub entry_count: u64,
    pub open_holder_count: u64,
}

impl DeepView for ResourceUsageSnapshotV1 {
    type V = ResourceUsageSnapshotV1;

    open spec fn deep_view(&self) -> ResourceUsageSnapshotV1 {
        *self
    }
}

impl Value for ResourceUsageSnapshotV1 {
    fn same(&self, other: &Self) -> (r: bool) {
        *self == *other
    }

    fn duplicate(&self) -> (r: Self) {
        *self
    }
}

/// Access-widening policy requested by the plan.
#[derive(Debug, Clone, PartialEq, Eq)]
pub enum AccessWideningPolicyV1 {
    Exact,
    AllowDeclaredSuperset {
        declaration_hash: CanonicalHash,
    },
    ExplicitUnconfined,
}

/// What a [`AccessWideningPolicyV1`] holds.
#[verifier::ext_equal]
pub enum AccessWideningPolicyV1View {
    Exact,
    AllowDeclaredSuperset {
        declaration_hash: CanonicalHashView,
    },
    ExplicitUnconfined,
}

impl DeepView for AccessWideningPolicyV1 {
    type V = AccessWideningPolicyV1View;

    open spec fn deep_view(&self) -> AccessWideningPolicyV1View {
        match self {
            AccessWideningPolicyV1::Exact => AccessWideningPolicyV1View::Exact,
            AccessWideningPolicyV1::AllowDeclaredSuperset { declaration_hash } => AccessWideningPolicyV1View::AllowDeclaredSuperset {
                declaration_hash: declaration_hash.deep_view(),
            },
            AccessWideningPolicyV1::ExplicitUnconfined => AccessWideningPolicyV1View::ExplicitUnconfined,
        }
    }
}

impl Value for AccessWideningPolicyV1 {
    fn same(&self, other: &Self) -> (r: bool) {
        match (self, other) {
            (
                AccessWideningPolicyV1::Exact,
                AccessWideningPolicyV1::Exact,
            ) => true,
            (
                AccessWideningPolicyV1::AllowDeclaredSuperset { declaration_hash },
                AccessWideningPolicyV1::AllowDeclaredSuperset { declaration_hash: declaration_hash2 },
            ) => declaration_hash.same(declaration_hash2),
            (
                AccessWideningPolicyV1::ExplicitUnconfined,
                AccessWideningPolicyV1::ExplicitUnconfined,
            ) => true,
            _ => false,
        }
    }

    fn duplicate(&self) -> (r: Self) {
        match self {
            AccessWideningPolicyV1::Exact => AccessWideningPolicyV1::Exact,
            AccessWideningPolicyV1::AllowDeclaredSuperset { declaration_hash } => AccessWideningPolicyV1::AllowDeclaredSuperset {
                declaration_hash: declaration_hash.duplicate(),
            },
            AccessWideningPolicyV1::ExplicitUnconfined => AccessWideningPolicyV1::ExplicitUnconfined,
        }
    }
}

/// Access-widening receipt (observed).
#[derive(Debug, Clone, PartialEq, Eq)]
pub struct AccessWideningReceiptV1 {
    pub requested: Vec<String>,
    pub effective: Vec<String>,
    pub unavoidable_widening: Vec<String>,
    pub proof_digest: CanonicalHash,
}

/// What a [`AccessWideningReceiptV1`] holds.
#[verifier::ext_equal]
pub struct AccessWideningReceiptV1View {
    pub requested: Seq<Seq<char>>,
    pub effective: Seq<Seq<char>>,
    pub unavoidable_widening: Seq<Seq<char>>,
    pub proof_digest: CanonicalHashView,
}

impl DeepView for AccessWideningReceiptV1 {
    type V = AccessWideningReceiptV1View;

    open spec fn deep_view(&self) -> AccessWideningReceiptV1View {
        AccessWideningReceiptV1View {
            requested: self.requested.deep_view(),
            effective: self.effective.deep_view(),
            unavoidable_widening: self.unavoidable_widening.deep_view(),
            proof_digest: self.proof_digest.deep_view(),
        }
    }
}

impl AccessWideningReceiptV1 {
    /// The accesses of each sort stand in ascending order, none of them twice.
    pub open spec fn well_formed(&self) -> bool {
        &&& ascending(self.deep_view().requested)
        &&& ascending(self.deep_view().effective)
        &&& ascending(self.deep_view().unavoidable_widening)
    }

    /// The receipt on accesses that were requested, that are effective, and that could not be avoided.
    pub fn new(
        requested: &Vec<String>,
        effective: &Vec<String>,
        unavoidable_widening: &Vec<String>,
        proof_digest: CanonicalHash,
    ) -> (r: Self)
        ensures
            r.well_formed(),
            r.deep_view().requested.to_set() == requested.deep_view().to_set(),
            r.deep_view().effective.to_set() == effective.deep_view().to_set(),
            r.deep_view().unavoidable_widening.to_set()
                == unavoidable_widening.deep_view().to_set(),
            r.deep_view().proof_digest == proof_digest.deep_view(),
    {
        AccessWideningReceiptV1 {
            requested: ascending_texts(requested),
            effective: ascending_texts(effective),
            unavoidable_widening: ascending_texts(unavoidable_widening),
            proof_digest,
        }
    }
}

impl Value for AccessWideningReceiptV1 {
    fn same(&self, other: &Self) -> (r: bool) {
        self.requested.same(&other.requested)
            && self.effective.same(&other.effective)
            && self.unavoidable_widening.same(&other.unavoidable_widening)
            && self.proof_digest.same(&other.proof_digest)
    }

    fn duplicate(&self) -> (r: Self) {
        AccessWideningReceiptV1 {
            requested: self.requested.duplicate(),
            effective: self.effective.duplicate(),
            unavoidable_widening: self.unavoidable_widening.duplicate(),
            proof_digest: self.proof_digest.duplicate(),
        }
    }
}

/// Policy satisfaction classification (observed, never requested self-report).
#[derive(Debug, Clone, PartialEq, Eq)]
pub enum AccessPolicySatisfactionV1 {
    Exact,
    DeclaredSuperset {
        declaration_hash: CanonicalHash,
    },
    ExplicitUnconfined,
}

/// What a [`AccessPolicySatisfactionV1`] holds.
#[verifier::ext_equal]
pub enum AccessPolicySatisfactionV1View {
    Exact,
    DeclaredSuperset {
        declaration_hash: CanonicalHashView,
    },
    ExplicitUnconfined,
}

impl DeepView for AccessPolicySatisfactionV1 {
    type V = AccessPolicySatisfactionV1View;

    open spec fn deep_view(&self) -> AccessPolicySatisfactionV1View {
        match self {
            AccessPolicySatisfactionV1::Exact => AccessPolicySatisfactionV1View::Exact,
            AccessPolicySatisfactionV1::DeclaredSuperset { declaration_hash } => AccessPolicySatisfactionV1View::DeclaredSuperset {
                declaration_hash: declaration_hash.deep_view(),
            },
            AccessPolicySatisfactionV1::ExplicitUnconfined => AccessPolicySatisfactionV1View::ExplicitUnconfined,
        }
    }
}

impl Value for AccessPolicySatisfactionV1 {
    fn same(&self, other: &Self) -> (r: bool) {
        match (self, other) {
            (
                AccessPolicySatisfactionV1::Exact,
                AccessPolicySatisfactionV1::Exact,
            ) => true,
            (
                AccessPolicySatisfactionV1::DeclaredSuperset { declaration_hash },
                AccessPolicySatisfactionV1::DeclaredSuperset { declaration_hash: declaration_hash2 },
            ) => declaration_hash.same(declaration_hash2),
            (
                AccessPolicySatisfactionV1::ExplicitUnconfined,
                AccessPolicySatisfactionV1::ExplicitUnconfined,
            ) => true,
            _ => false,
        }
    }

    fn duplicate(&self) -> (r: Self) {
        match self {
            AccessPolicySatisfactionV1::Exact => AccessPolicySatisfactionV1::Exact,
            AccessPolicySatisfactionV1::DeclaredSuperset { declaration_hash } => AccessPolicySatisfactionV1::DeclaredSuperset {
                declaration_hash: declaration_hash.duplicate(),
            },
            AccessPolicySatisfactionV1::ExplicitUnconfined => AccessPolicySatisfactionV1::ExplicitUnconfined,
        }
    }
}

/// Per-resource enforcement receipt.
#[derive(Debug, Clone, PartialEq, Eq)]
pub struct ResourceEnforcementReceiptV1 {
    pub resource_ref: String,
    pub access: AccessWideningReceiptV1,
    pub requested_policy: AccessWideningPolicyV1,
    pub policy_satisfaction: AccessPolicySatisfactionV1,
    pub enforcement: String,
    pub proof_digest: CanonicalHash,
}

/// What a [`ResourceEnforcementReceiptV1`] holds.
#[verifier::ext_equal]
pub struct ResourceEnforcementReceiptV1View {
    pub resource_ref: Seq<char>,
    pub access: AccessWideningReceiptV1View,
    pub requested_policy: AccessWideningPolicyV1View,
    pub policy_satisfaction: AccessPolicySatisfactionV1View,
    pub enforcement: Seq<char>,
    pub proof_digest: CanonicalHashView,
}

impl DeepView for ResourceEnforcementReceiptV1 {
    type V = ResourceEnforcementReceiptV1View;

    open spec fn deep_view(&self) -> ResourceEnforcementReceiptV1View {
        ResourceEnforcementReceiptV1View {
            resource_ref: self.resource_ref.deep_view(),
            access: self.access.deep_view(),
            requested_policy: self.requested_policy.deep_view(),
            policy_satisfaction: self.policy_satisfaction.deep_view(),
            enforcement: self.enforcement.deep_view(),
            proof_digest: self.proof_digest.deep_view(),
        }
    }
}

impl Value for ResourceEnforcementReceiptV1 {
    fn same(&self, other: &Self) -> (r: bool) {
        self.resource_ref.same(&other.resource_ref)
            && self.access.same(&other.access)
            && self.requested_policy.same(&other.requested_policy)
            && self.policy_satisfaction.same(&other.policy_satisfaction)
            && self.enforcement.same(&other.enforcement)
            && self.proof_digest.same(&other.proof_digest)
    }

    fn duplicate(&self) -> (r: Self) {
        ResourceEnforcementReceiptV1 {
            resource_ref: self.resource_ref.duplicate(),
            access: self.access.duplicate(),
            requested_policy: self.requested_policy.duplicate(),
            policy_satisfaction: self.policy_satisfaction.duplicate(),
            enforcement: self.enforcement.duplicate(),
            proof_digest: self.proof_digest.duplicate(),
        }
    }
}

/// Execution-level resource receipt (requested vs effective, per resource).
#[derive(Debug, Clone, PartialEq, Eq)]
pub struct ExecutionResourceReceiptV1 {
    pub physical_attempt_id: String,
    pub manifest_hash: CanonicalHash,
    pub sandbox_binding_hash: CanonicalHash,
    pub requested_enforcement: String,
    pub effective_enforcement: String,
    pub resources: Vec<ResourceEnforcementReceiptV1>,
    pub enforcement_proof_set_hash: CanonicalHash,
    pub environment_binding_hash: CanonicalHash,
    pub cleanup_status: String,
    pub effect_settlement: String,
}

/// What a [`ExecutionResourceReceiptV1`] holds.
#[verifier::ext_equal]
pub struct ExecutionResourceReceiptV1View {
    pub physical_attempt_id: Seq<char>,
    pub manifest_hash: CanonicalHashView,
    pub sandbox_binding_hash: CanonicalHashView,
    pub requested_enforcement: Seq<char>,
    pub effective_enforcement: Seq<char>,
    pub resources: Seq<ResourceEnforcementReceiptV1View>,
    pub enforcement_proof_set_hash: CanonicalHashView,
    pub environment_binding_hash: CanonicalHashView,
    pub cleanup_status: Seq<char>,
    pub effect_settlement: Seq<char>,
}

impl DeepView for ExecutionResourceReceiptV1 {
    type V = ExecutionResourceReceiptV1View;

    open spec fn deep_view(&self) -> ExecutionResourceReceiptV1View {
        ExecutionResourceReceiptV1View {
            physical_attempt_id: self.physical_attempt_id.deep_view(),
            manifest_hash: self.manifest_hash.deep_view(),
            sandbox_binding_hash: self.sandbox_binding_hash.deep_view(),
            requested_enforcement: self.requested_enforcement.deep_view(),
            effective_enforcement: self.effective_enforcement.deep_view(),
            resources: self.resources.deep_view(),
            enforcement_proof_set_hash: self.enforcement_proof_set_hash.deep_view(),
            environment_binding_hash: self.environment_binding_hash.deep_view(),
            cleanup_status: self.cleanup_status.deep_view(),
            effect_settlement: self.effect_settlement.deep_view(),
        }
    }
}

impl Value for ExecutionResourceReceiptV1 {
    fn same(&self, other: &Self) -> (r: bool) {
        self.physical_attempt_id.same(&other.physical_attempt_id)
            && self.manifest_hash.same(&other.manifest_hash)
            && self.sandbox_binding_hash.same(&other.sandbox_binding_hash)
            && self.requested_enforcement.same(&other.requested_enforcement)
            && self.effective_enforcement.same(&other.effective_enforcement)
            && self.resources.same(&other.resources)
            && self.enforcement_proof_set_hash.same(&other.enforcement_proof_set_hash)
            && self.environment_binding_hash.same(&other.environment_binding_hash)
            && self.cleanup_status.same(&other.cleanup_status)
            && self.effect_settlement.same(&other.effect_settlement)
    }

    fn duplicate(&self) -> (r: Self) {
        ExecutionResourceReceiptV1 {
            physical_attempt_id: self.physical_attempt_id.duplicate(),
            manifest_hash: self.manifest_hash.duplicate(),
            sandbox_binding_hash: self.sandbox_binding_hash.duplicate(),
            requested_enforcement: self.requested_enforcement.duplicate(),
            effective_enforcement: self.effective_enforcement.duplicate(),
            resources: self.resources.duplicate(),
            enforcement_proof_set_hash: self.enforcement_proof_set_hash.duplicate(),
            environment_binding_hash: self.environment_binding_hash.duplicate(),
            cleanup_status: self.cleanup_status.duplicate(),
            effect_settlement: self.effect_settlement.duplicate(),
        }
    }
}

/// Process control action classification.
#[derive(Debug, Clone, Copy, PartialEq, Eq, Structural)]
pub enum ProcessControlActionV1 {
    WriteStdin,
    ResizePty,
    Cancel,
    Terminate,
}

impl DeepView for ProcessControlActionV1 {
    type V = ProcessControlActionV1;

    open spec fn deep_view(&self) -> ProcessControlActionV1 {
        *self
    }
}

impl Value for ProcessControlActionV1 {
    fn same(&self, other: &Self) -> (r: bool) {
        *self == *other
    }

    fn duplicate(&self) -> (r: Self) {
        *self
    }
}

/// Typed process control receipt.
#[derive(Debug, Clone, PartialEq, Eq)]
pub struct ProcessControlReceiptV1 {
    pub process_ref: String,
    pub action: ProcessControlActionV1,
    pub request_digest: CanonicalHash,
    pub observed_process_frontier_hash: CanonicalHash,
    pub effect_settlement: String,
    pub receipt_hash: CanonicalHash,
}

/// What a [`ProcessControlReceiptV1`] holds.
#[verifier::ext_equal]
pub struct ProcessControlReceiptV1View {
    pub process_ref: Seq<char>,
    pub action: ProcessControlActionV1,
    pub request_digest: CanonicalHashView,
    pub observed_process_frontier_hash: CanonicalHashView,
    pub effect_settlement: Seq<char>,
    pub receipt_hash: CanonicalHashView,
}

impl DeepView for ProcessControlReceiptV1 {
    type V = ProcessControlReceiptV1View;

    open spec fn deep_view(&self) -> ProcessControlReceiptV1View {
        ProcessControlReceiptV1View {
            process_ref: self.process_ref.deep_view(),
            action: self.action.deep_view(),
            request_digest: self.request_digest.deep_view(),
            observed_process_frontier_hash: self.observed_process_frontier_hash.deep_view(),
            effect_settlement: self.effect_settlement.deep_view(),
            receipt_hash: self.receipt_hash.deep_view(),
        }
    }
}

impl Value for ProcessControlReceiptV1 {
    fn same(&self, other: &Self) -> (r: bool) {
        self.process_ref.same(&other.process_ref)
            && self.action.same(&other.action)
            && self.request_digest.same(&other.request_digest)
            && self.observed_process_frontier_hash.same(&other.observed_process_frontier_hash)
            && self.effect_settlement.same(&other.effect_settlement)
            && self.receipt_hash.same(&other.receipt_hash)
    }

    fn duplicate(&self) -> (r: Self) {
        ProcessControlReceiptV1 {
            process_ref: self.process_ref.duplicate(),
            action: self.action.duplicate(),
            request_digest: self.request_digest.duplicate(),
            observed_process_frontier_hash: self.observed_process_frontier_hash.duplicate(),
            effect_settlement: self.effect_settlement.duplicate(),
            receipt_hash: self.receipt_hash.duplicate(),
        }
    }
}

/// Process execution receipt (RA constructed; cannot be synthesized by a caller).
#[derive(Debug, Clone, PartialEq, Eq)]
pub struct ProcessExecutionReceiptV1 {
    pub physical_attempt_id: String,
    pub spawn_intent_id: String,
    pub process_ref: Option<String>,
    pub process_frontier_hash: CanonicalHash,
    pub termination: ProcessTerminationV1,
    pub stdout_summary: BoundedOutputSummaryV1,
    pub stderr_summary: BoundedOutputSummaryV1,
    pub effect_settlement: String,
    pub receipt_hash: CanonicalHash,
}

/// What a [`ProcessExecutionReceiptV1`] holds.
#[verifier::ext_equal]
pub struct ProcessExecutionReceiptV1View {
    pub physical_attempt_id: Seq<char>,
    pub spawn_intent_id: Seq<char>,
    pub process_ref: Option<Seq<char>>,
    pub process_frontier_hash: CanonicalHashView,
    pub termination: ProcessTerminationV1View,
    pub stdout_summary: BoundedOutputSummaryV1View,
    pub stderr_summary: BoundedOutputSummaryV1View,
    pub effect_settlement: Seq<char>,
    pub receipt_hash: CanonicalHashView,
}

impl DeepView for ProcessExecutionReceiptV1 {
    type V = ProcessExecutionReceiptV1View;

    open spec fn deep_view(&self) -> ProcessExecutionReceiptV1View {
        ProcessExecutionReceiptV1View {
            physical_attempt_id: self.physical_attempt_id.deep_view(),
            spawn_intent_id: self.spawn_intent_id.deep_view(),
            process_ref: self.process_ref.deep_view(),
            process_frontier_hash: self.process_frontier_hash.deep_view(),
            termination: self.termination.deep_view(),
            stdout_summary: self.stdout_summary.deep_view(),
            stderr_summary: self.stderr_summary.deep_view(),
            effect_settlement: self.effect_settlement.deep_view(),
            receipt_hash: self.receipt_hash.deep_view(),
        }
    }
}

impl Value for ProcessExecutionReceiptV1 {
    fn same(&self, other: &Self) -> (r: bool) {
        self.physical_attempt_id.same(&other.physical_attempt_id)
            && self.spawn_intent_id.same(&other.spawn_intent_id)
            && self.process_ref.same(&other.process_ref)
            && self.process_frontier_hash.same(&other.process_frontier_hash)
            && self.termination.same(&other.termination)
            && self.stdout_summary.same(&other.stdout_summary)
            && self.stderr_summary.same(&other.stderr_summary)
            && self.effect_settlement.same(&other.effect_settlement)
            && self.receipt_hash.same(&other.receipt_hash)
    }

    fn duplicate(&self) -> (r: Self) {
        ProcessExecutionReceiptV1 {
            physical_attempt_id: self.physical_attempt_id.duplicate(),
            spawn_intent_id: self.spawn_intent_id.duplicate(),
            process_ref: self.process_ref.duplicate(),
            process_frontier_hash: self.process_frontier_hash.duplicate(),
            termination: self.termination.duplicate(),
            stdout_summary: self.stdout_summary.duplicate(),
            stderr_summary: self.stderr_summary.duplicate(),
            effect_settlement: self.effect_settlement.duplicate(),
            receipt_hash: self.receipt_hash.duplicate(),
        }
    }
}

/// Borrowed-resource access receipt.
#[derive(Debug, Clone, PartialEq, Eq)]
pub struct BorrowedResourceAccessReceiptV1 {
    pub subject_ref: String,
    pub subject_binding_hash: CanonicalHash,
    pub operation_digest: CanonicalHash,
    pub granted_access_hash: CanonicalHash,
    pub identity_before: Option<CanonicalHash>,
    pub identity_after: Option<CanonicalHash>,
    pub borrowed_effect_frontier_hash: CanonicalHash,
    pub effect_settlement: String,
    pub receipt_hash: CanonicalHash,
}

/// What a [`BorrowedResourceAccessReceiptV1`] holds.
#[verifier::ext_equal]
pub struct BorrowedResourceAccessReceiptV1View {
    pub subject_ref: Seq<char>,
    pub subject_binding_hash: CanonicalHashView,
    pub operation_digest: CanonicalHashView,
    pub granted_access_hash: CanonicalHashView,
    pub identity_before: Option<CanonicalHashView>,
    pub identity_after: Option<CanonicalHashView>,
    pub borrowed_effect_frontier_hash: CanonicalHashView,
    pub effect_settlement: Seq<char>,
    pub receipt_hash: CanonicalHashView,
}

impl DeepView for BorrowedResourceAccessReceiptV1 {
    type V = BorrowedResourceAccessReceiptV1View;

    open spec fn deep_view(&self) -> BorrowedResourceAccessReceiptV1View {
        BorrowedResourceAccessReceiptV1View {
            subject_ref: self.subject_ref.deep_view(),
            subject_binding_hash: self.subject_binding_hash.deep_view(),
            operation_digest: self.operation_digest.deep_view(),
            granted_access_hash: self.granted_access_hash.deep_view(),
            identity_before: self.identity_before.deep_view(),
            identity_after: self.identity_after.deep_view(),
            borrowed_effect_frontier_hash: self.borrowed_effect_frontier_hash.deep_view(),
            effect_settlement: self.effect_settlement.deep_view(),
            receipt_hash: self.receipt_hash.deep_view(),
        }
    }
}

impl Value for BorrowedResourceAccessReceiptV1 {
    fn same(&self, other: &Self) -> (r: bool) {
        self.subject_ref.same(&other.subject_ref)
            && self.subject_binding_hash.same(&other.subject_binding_hash)
            && self.operation_digest.same(&other.operation_digest)
            && self.granted_access_hash.same(&other.granted_access_hash)
            && self.identity_before.same(&other.identity_before)
            && self.identity_after.same(&other.identity_after)
            && self.borrowed_effect_frontier_hash.same(&other.borrowed_effect_frontier_hash)
            && self.effect_settlement.same(&other.effect_settlement)
            && self.receipt_hash.same(&other.receipt_hash)
    }

    fn duplicate(&self) -> (r: Self) {
        BorrowedResourceAccessReceiptV1 {
            subject_ref: self.subject_ref.duplicate(),
            subject_binding_hash: self.subject_binding_hash.duplicate(),
            operation_digest: self.operation_digest.duplicate(),
            granted_access_hash: self.granted_access_hash.duplicate(),
            identity_before: self.identity_before.duplicate(),
            identity_after: self.identity_after.duplicate(),
            borrowed_effect_frontier_hash: self.borrowed_effect_frontier_hash.duplicate(),
            effect_settlement: self.effect_settlement.duplicate(),
            receipt_hash: self.receipt_hash.duplicate(),
        }
    }
}

/// Whether the execution contract observed enough of a pipeline to support repository verification.
/// A final-stage exit code is intentionally not equivalent to full evidence.
#[derive(Debug, Clone, PartialEq, Eq)]
pub enum PipelineOutcomeV1 {
    NotPipeline,
    AllStagesObserved {
        stage_statuses_digest: CanonicalHash,
    },
    FinalStageOnly {
        final_exit_code: i32,
    },
}

/// What a [`PipelineOutcomeV1`] holds.
#[verifier::ext_equal]
pub enum PipelineOutcomeV1View {
    NotPipeline,
    AllStagesObserved {
        stage_statuses_digest: CanonicalHashView,
    },
    FinalStageOnly {
        final_exit_code: i32,
    },
}

impl DeepView for PipelineOutcomeV1 {
    type V = PipelineOutcomeV1View;

    open spec fn deep_view(&self) -> PipelineOutcomeV1View {
        match self {
            PipelineOutcomeV1::NotPipeline => PipelineOutcomeV1View::NotPipeline,
            PipelineOutcomeV1::AllStagesObserved { stage_statuses_digest } => PipelineOutcomeV1View::AllStagesObserved {
                stage_statuses_digest: stage_statuses_digest.deep_view(),
            },
            PipelineOutcomeV1::FinalStageOnly { final_exit_code } => PipelineOutcomeV1View::FinalStageOnly {
                final_exit_code: final_exit_code.deep_view(),
            },
        }
    }
}

impl Value for PipelineOutcomeV1 {
    fn same(&self, other: &Self) -> (r: bool) {
        match (self, other) {
            (
                PipelineOutcomeV1::NotPipeline,
                PipelineOutcomeV1::NotPipeline,
            ) => true,
            (
                PipelineOutcomeV1::AllStagesObserved { stage_statuses_digest },
                PipelineOutcomeV1::AllStagesObserved { stage_statuses_digest: stage_statuses_digest2 },
            ) => stage_statuses_digest.same(stage_statuses_digest2),
            (
                PipelineOutcomeV1::FinalStageOnly { final_exit_code },
                PipelineOutcomeV1::FinalStageOnly { final_exit_code: final_exit_code2 },
            ) => final_exit_code.same(final_exit_code2),
            _ => false,
        }
    }

    fn duplicate(&self) -> (r: Self) {
        match self {
            PipelineOutcomeV1::NotPipeline => PipelineOutcomeV1::NotPipeline,
            PipelineOutcomeV1::AllStagesObserved { stage_statuses_digest } => PipelineOutcomeV1::AllStagesObserved {
                stage_statuses_digest: stage_statuses_digest.duplicate(),
            },
            PipelineOutcomeV1::FinalStageOnly { final_exit_code } => PipelineOutcomeV1::FinalStageOnly {
                final_exit_code: final_exit_code.duplicate(),
            },
        }
    }
}

/// Why a check receipt cannot be promoted to verification evidence.
#[derive(Debug, Clone, Copy, PartialEq, Eq, Structural)]
pub enum VerificationEvidenceReasonV1 {
    UpstreamStatusUnobserved,
    ShellProfileDoesNotSupportPipefail,
}

impl DeepView for VerificationEvidenceReasonV1 {
    type V = VerificationEvidenceReasonV1;

    open spec fn deep_view(&self) -> VerificationEvidenceReasonV1 {
        *self
    }
}

impl Value for VerificationEvidenceReasonV1 {
    fn same(&self, other: &Self) -> (r: bool) {
        *self == *other
    }

    fn duplicate(&self) -> (r: Self) {
        *self
    }
}

/// Evidence sufficiency is kernel-owned; product surfaces only project this result.
#[derive(Debug, Clone, Copy, PartialEq, Eq, Structural)]
pub enum VerificationEvidenceV1 {
    Sufficient,
    Insufficient {
        reason: VerificationEvidenceReasonV1,
    },
}

impl DeepView for VerificationEvidenceV1 {
    type V = VerificationEvidenceV1;

    open spec fn deep_view(&self) -> VerificationEvidenceV1 {
        *self
    }
}

impl Value for VerificationEvidenceV1 {
    fn same(&self, other: &Self) -> (r: bool) {
        *self == *other
    }

    fn duplicate(&self) -> (r: Self) {
        *self
    }
}

/// Execution check receipt (verification pipeline outcome reference).
#[derive(Debug, Clone, PartialEq, Eq)]
pub struct ExecutionCheckReceiptV1 {
    pub check_spec_hash: CanonicalHash,
    pub pipeline_outcome: PipelineOutcomeV1,
    pub verification_evidence: VerificationEvidenceV1,
    pub evidence_binding_hash: CanonicalHash,
    pub shell_profile_hash: CanonicalHash,
}

/// What a [`ExecutionCheckReceiptV1`] holds.
#[verifier::ext_equal]
pub struct ExecutionCheckReceiptV1View {
    pub check_spec_hash: CanonicalHashView,
    pub pipeline_outcome: PipelineOutcomeV1View,
    pub verification_evidence: VerificationEvidenceV1,
    pub evidence_binding_hash: CanonicalHashView,
    pub shell_profile_hash: CanonicalHashView,
}

impl DeepView for ExecutionCheckReceiptV1 {
    type V = ExecutionCheckReceiptV1View;

    open spec fn deep_view(&self) -> ExecutionCheckReceiptV1View {
        ExecutionCheckReceiptV1View {
            check_spec_hash: self.check_spec_hash.deep_view(),
            pipeline_outcome: self.pipeline_outcome.deep_view(),
            verification_evidence: self.verification_evidence.deep_view(),
            evidence_binding_hash: self.evidence_binding_hash.deep_view(),
            shell_profile_hash: self.shell_profile_hash.deep_view(),
        }
    }
}

impl Value for ExecutionCheckReceiptV1 {
    fn same(&self, other: &Self) -> (r: bool) {
        self.check_spec_hash.same(&other.check_spec_hash)
            && self.pipeline_outcome.same(&other.pipeline_outcome)
            && self.verification_evidence.same(&other.verification_evidence)
            && self.evidence_binding_hash.same(&other.evidence_binding_hash)
            && self.shell_profile_hash.same(&other.shell_profile_hash)
    }

    fn duplicate(&self) -> (r: Self) {
        ExecutionCheckReceiptV1 {
            check_spec_hash: self.check_spec_hash.duplicate(),
            pipeline_outcome: self.pipeline_outcome.duplicate(),
            verification_evidence: self.verification_evidence.duplicate(),
            evidence_binding_hash: self.evidence_binding_hash.duplicate(),
            shell_profile_hash: self.shell_profile_hash.duplicate(),
        }
    }
}

/// Combined managed execution receipt.
#[derive(Debug, Clone, PartialEq, Eq)]
pub struct ManagedExecutionReceiptV1 {
    pub physical_attempt_id: String,
    pub process: ProcessExecutionReceiptV1,
    pub resources: ExecutionResourceReceiptV1,
    pub check: Option<ExecutionCheckReceiptV1>,
}

/// What a [`ManagedExecutionReceiptV1`] holds.
#[verifier::ext_equal]
pub struct ManagedExecutionReceiptV1View {
    pub physical_attempt_id: Seq<char>,
    pub process: ProcessExecutionReceiptV1View,
    pub resources: ExecutionResourceReceiptV1View,
    pub check: Option<ExecutionCheckReceiptV1View>,
}

impl DeepView for ManagedExecutionReceiptV1 {
    type V = ManagedExecutionReceiptV1View;

    open spec fn deep_view(&self) -> ManagedExecutionReceiptV1View {
        ManagedExecutionReceiptV1View {
            physical_attempt_id: self.physical_attempt_id.deep_view(),
            process: self.process.deep_view(),
            resources: self.resources.deep_view(),
            check: self.check.deep_view(),
        }
    }
}

impl Value for ManagedExecutionReceiptV1 {
    fn same(&self, other: &Self) -> (r: bool) {
        self.physical_attempt_id.same(&other.physical_attempt_id)
            && self.process.same(&other.process)
            && self.resources.same(&other.resources)
            && self.check.same(&other.check)
    }

    fn duplicate(&self) -> (r: Self) {
        ManagedExecutionReceiptV1 {
            physical_attempt_id: self.physical_attempt_id.duplicate(),
            process: self.process.duplicate(),
            resources: self.resources.duplicate(),
            check: self.check.duplicate(),
        }
    }
}

/// Closed execution error taxonomy.
#[derive(Debug, Clone, PartialEq, Eq)]
pub enum ManagedExecutionErrorV1 {
    AdmissionMismatch,
    ExecutionPlanDrift,
    ProviderUnavailable,
    ProcessOwnershipUnavailable(String),
    ConfinementUnproven,
    OutcomeUncertain,
}

/// What a [`ManagedExecutionErrorV1`] holds.
#[verifier::ext_equal]
pub enum ManagedExecutionErrorV1View {
    AdmissionMismatch,
    ExecutionPlanDrift,
    ProviderUnavailable,
    ProcessOwnershipUnavailable(Seq<char>),
    ConfinementUnproven,
    OutcomeUncertain,
}

impl DeepView for ManagedExecutionErrorV1 {
    type V = ManagedExecutionErrorV1View;

    open spec fn deep_view(&self) -> ManagedExecutionErrorV1View {
        match self {
            ManagedExecutionErrorV1::AdmissionMismatch => ManagedExecutionErrorV1View::AdmissionMismatch,
            ManagedExecutionErrorV1::ExecutionPlanDrift => ManagedExecutionErrorV1View::ExecutionPlanDrift,
            ManagedExecutionErrorV1::ProviderUnavailable => ManagedExecutionErrorV1View::ProviderUnavailable,
            ManagedExecutionErrorV1::ProcessOwnershipUnavailable(x) => ManagedExecutionErrorV1View::ProcessOwnershipUnavailable(x.deep_view()),
            ManagedExecutionErrorV1::ConfinementUnproven => ManagedExecutionErrorV1View::ConfinementUnproven,
            ManagedExecutionErrorV1::OutcomeUncertain => ManagedExecutionErrorV1View::OutcomeUncertain,
        }
    }
}

impl Value for ManagedExecutionErrorV1 {
    fn same(&self, other: &Self) -> (r: bool) {
        match (self, other) {
            (
                ManagedExecutionErrorV1::AdmissionMismatch,
                ManagedExecutionErrorV1::AdmissionMismatch,
            ) => true,
            (
                ManagedExecutionErrorV1::ExecutionPlanDrift,
                ManagedExecutionErrorV1::ExecutionPlanDrift,
            ) => true,
            (
                ManagedExecutionErrorV1::ProviderUnavailable,
                ManagedExecutionErrorV1::ProviderUnavailable,
            ) => true,
            (
                ManagedExecutionErrorV1::ProcessOwnershipUnavailable(x),
                ManagedExecutionErrorV1::ProcessOwnershipUnavailable(x2),
            ) => x.same(x2),
            (
                ManagedExecutionErrorV1::ConfinementUnproven,
                ManagedExecutionErrorV1::ConfinementUnproven,
            ) => true,
            (
                ManagedExecutionErrorV1::OutcomeUncertain,
                ManagedExecutionErrorV1::OutcomeUncertain,
            ) => true,
            _ => false,
        }
    }

    fn duplicate(&self) -> (r: Self) {
        match self {
            ManagedExecutionErrorV1::AdmissionMismatch => ManagedExecutionErrorV1::AdmissionMismatch,
            ManagedExecutionErrorV1::ExecutionPlanDrift => ManagedExecutionErrorV1::ExecutionPlanDrift,
            ManagedExecutionErrorV1::ProviderUnavailable => ManagedExecutionErrorV1::ProviderUnavailable,
            ManagedExecutionErrorV1::ProcessOwnershipUnavailable(x) => ManagedExecutionErrorV1::ProcessOwnershipUnavailable(x.duplicate()),
            ManagedExecutionErrorV1::ConfinementUnproven => ManagedExecutionErrorV1::ConfinementUnproven,
            ManagedExecutionErrorV1::OutcomeUncertain => ManagedExecutionErrorV1::OutcomeUncertain,
        }
    }
}

/// Closed control error taxonomy.
#[derive(Debug, Clone, PartialEq, Eq)]
pub enum ManagedProcessControlErrorV1 {
    StreamAlreadyTaken,
    InvalidState {
        action: &'static str,
    },
    StaleHandle,
}

/// What a [`ManagedProcessControlErrorV1`] holds.
#[verifier::ext_equal]
pub enum ManagedProcessControlErrorV1View {
    StreamAlreadyTaken,
    InvalidState {
        action: Seq<char>,
    },
    StaleHandle,
}

impl DeepView for ManagedProcessControlErrorV1 {
    type V = ManagedProcessControlErrorV1View;

    open spec fn deep_view(&self) -> ManagedProcessControlErrorV1View {
        match self {
            ManagedProcessControlErrorV1::StreamAlreadyTaken => ManagedProcessControlErrorV1View::StreamAlreadyTaken,
            ManagedProcessControlErrorV1::InvalidState { action } => ManagedProcessControlErrorV1View::InvalidState {
                action: action.deep_view(),
            },
            ManagedProcessControlErrorV1::StaleHandle => ManagedProcessControlErrorV1View::StaleHandle,
        }
    }
}

impl Value for ManagedProcessControlErrorV1 {
    fn same(&self, other: &Self) -> (r: bool) {
        match (self, other) {
            (
                ManagedProcessControlErrorV1::StreamAlreadyTaken,
                ManagedProcessControlErrorV1::StreamAlreadyTaken,
            ) => true,
            (
                ManagedProcessControlErrorV1::InvalidState { action },
                ManagedProcessControlErrorV1::InvalidState { action: action2 },
            ) => action.same(action2),
            (
                ManagedProcessControlErrorV1::StaleHandle,
                ManagedProcessControlErrorV1::StaleHandle,
            ) => true,
            _ => false,
        }
    }

    fn duplicate(&self) -> (r: Self) {
        match self {
            ManagedProcessControlErrorV1::StreamAlreadyTaken => ManagedProcessControlErrorV1::StreamAlreadyTaken,
            ManagedProcessControlErrorV1::InvalidState { action } => ManagedProcessControlErrorV1::InvalidState {
                action: action.duplicate(),
            },
            ManagedProcessControlErrorV1::StaleHandle => ManagedProcessControlErrorV1::StaleHandle,
        }
    }
}

/// The message of a failure.
pub open spec fn plan_error_message(e: ManagedExecutionPlanErrorV1View) -> Seq<char> {
    match e {
        ManagedExecutionPlanErrorV1View::ArgvDigestDrift => "argv digest drifted from the resolved executable identity"@,
        ManagedExecutionPlanErrorV1View::ResourcePlanSideEffect(x) => "resource plan is not side-effect-free: "@ + x,
        ManagedExecutionPlanErrorV1View::StaleResolverProof => "toolchain resolver proof is stale; replan required"@,
        ManagedExecutionPlanErrorV1View::SandboxPreviewUnavailable => "sandbox preview cannot be produced for this request"@,
    }
}

impl ManagedExecutionPlanErrorV1 {
    /// The message of the failure.
    pub fn message(&self) -> (r: String)
        ensures
            r@ == plan_error_message(self.deep_view()),
    {
        match self {
            ManagedExecutionPlanErrorV1::ArgvDigestDrift => "argv digest drifted from the resolved executable identity".to_owned(),
            ManagedExecutionPlanErrorV1::ResourcePlanSideEffect(x) => joined("resource plan is not side-effect-free: ", x.as_str()),
            ManagedExecutionPlanErrorV1::StaleResolverProof => "toolchain resolver proof is stale; replan required".to_owned(),
            ManagedExecutionPlanErrorV1::SandboxPreviewUnavailable => "sandbox preview cannot be produced for this request".to_owned(),
        }
    }
}

/// The message of a failure.
pub open spec fn execution_error_message(e: ManagedExecutionErrorV1View) -> Seq<char> {
    match e {
        ManagedExecutionErrorV1View::AdmissionMismatch => "execution admission bundle does not match the approved request"@,
        ManagedExecutionErrorV1View::ExecutionPlanDrift => "argv or structured command drifted after approval; replan required"@,
        ManagedExecutionErrorV1View::ProviderUnavailable => "sandbox provider is unavailable; refusing implicit Local fallback"@,
        ManagedExecutionErrorV1View::ProcessOwnershipUnavailable(x) => "process tree ownership is unavailable: "@ + x,
        ManagedExecutionErrorV1View::ConfinementUnproven => "required confinement not proven"@,
        ManagedExecutionErrorV1View::OutcomeUncertain => "process settlement is outcome-uncertain"@,
    }
}

impl ManagedExecutionErrorV1 {
    /// The message of the failure.
    pub fn message(&self) -> (r: String)
        ensures
            r@ == execution_error_message(self.deep_view()),
    {
        match self {
            ManagedExecutionErrorV1::AdmissionMismatch => "execution admission bundle does not match the approved request".to_owned(),
            ManagedExecutionErrorV1::ExecutionPlanDrift => "argv or structured command drifted after approval; replan required".to_owned(),
            ManagedExecutionErrorV1::ProviderUnavailable => "sandbox provider is unavailable; refusing implicit Local fallback".to_owned(),
            ManagedExecutionErrorV1::ProcessOwnershipUnavailable(x) => joined("process tree ownership is unavailable: ", x.as_str()),
            ManagedExecutionErrorV1::ConfinementUnproven => "required confinement not proven".to_owned(),
            ManagedExecutionErrorV1::OutcomeUncertain => "process settlement is outcome-uncertain".to_owned(),
        }
    }
}

/// The message of a failure.
pub open spec fn control_error_message(e: ManagedProcessControlErrorV1View) -> Seq<char> {
    match e {
        ManagedProcessControlErrorV1View::StreamAlreadyTaken => "process output stream was already taken"@,
        ManagedProcessControlErrorV1View::InvalidState { action } => "process is not in a writable state for "@ + action,
        ManagedProcessControlErrorV1View::StaleHandle => "process handle is stale after supervisor restart"@,
    }
}

impl ManagedProcessControlErrorV1 {
    /// The message of the failure.
    pub fn message(&self) -> (r: String)
        ensures
            r@ == control_error_message(self.deep_view()),
    {
        match self {
            ManagedProcessControlErrorV1::StreamAlreadyTaken => "process output stream was already taken".to_owned(),
            ManagedProcessControlErrorV1::InvalidState { action } => joined("process is not in a writable state for ", action),
            ManagedProcessControlErrorV1::StaleHandle => "process handle is stale after supervisor restart".to_owned(),
        }
    }
}

/// The number of bytes of all arguments together.
pub open spec fn argv_total(argv: Seq<Seq<u8>>) -> nat
    decreases argv.len(),
{
    if argv.len() == 0 {
        0
    } else {
        argv_total(argv.drop_last()) + argv.last().len()
    }
}

proof fn lemma_argv_total_grows(argv: Seq<Seq<u8>>, i: int)
    requires
        0 <= i <= argv.len(),
    ensures
        argv_total(argv.take(i)) <= argv_total(argv),
    decreases argv.len() - i,
{
    if i < argv.len() {
        lemma_argv_total_grows(argv, i + 1);
        assert(argv.take(i + 1).drop_last() =~= argv.take(i));
    } else {
        assert(argv.take(i) =~= argv);
    }
}

/// The number of bytes of all arguments together.
pub fn argv_encoded_bytes(argv: &Vec<Vec<u8>>) -> (r: usize)
    requires
        argv_total(argv.deep_view()) <= usize::MAX,
    ensures
        r == argv_total(argv.deep_view()),
{
    let ghost v = argv.deep_view();
    let mut total: usize = 0;
    let mut i: usize = 0;
    assert(v.take(0) =~= Seq::empty());
    while i < argv.len()
        invariant
            i <= argv.len(),
            v == argv.deep_view(),
            argv_total(v) <= usize::MAX,
            total == argv_total(v.take(i as int)),
        decreases argv.len() - i,
    {
        proof {
            lemma_argv_total_grows(v, i + 1);
            assert(v.take(i + 1).drop_last() =~= v.take(i as int));
            assert(v.take(i + 1).last() == argv@[i as int].deep_view());
            assert(argv@[i as int].deep_view() =~= argv@[i as int]@);
        }
        total = total + argv[i].len();
        i = i + 1;
    }
    assert(v.take(i as int) =~= v);
    total
}

/// One entry stands before another: by its key, then by its value.
pub open spec fn entry_order() -> spec_fn(EnvironmentBindingView, EnvironmentBindingView) -> bool {
    |a: EnvironmentBindingView, b: EnvironmentBindingView|
        precedes(byte_text(a.key), byte_text(b.key)) || (a.key == b.key && precedes(
            byte_text(a.value),
            byte_text(b.value),
        ))
}

/// The bytes of entries: each key, `=`, its value and a zero byte.
pub open spec fn entry_bytes(entries: Seq<EnvironmentBindingView>) -> Seq<u8>
    decreases entries.len(),
{
    if entries.len() == 0 {
        Seq::empty()
    } else {
        ((entry_bytes(entries.drop_last()) + entries.last().key).push(61) + entries.last().value).push(
            0,
        )
    }
}

/// The bytes that the digest of an environment is taken of: a fixed label, and its entries in order.
pub open spec fn environment_bytes(entries: Seq<EnvironmentBindingView>) -> Seq<u8> {
    vstd::utf8::encode_utf8("managed-execution-env-v1"@) + entry_bytes(
        items_in_order(entries, entry_order()),
    )
}

fn add_bytes(to: &mut Vec<u8>, more: &Vec<u8>)
    ensures
        final(to)@ == old(to)@ + more@,
{
    let ghost had = to@;
    let mut i: usize = 0;
    while i < more.len()
        invariant
            i <= more.len(),
            to@ =~= had + more@.take(i as int),
        decreases more.len() - i,
    {
        to.push(more[i]);
        i = i + 1;
    }
    assert(more@.take(i as int) =~= more@);
}

fn entry_precedes(a: &EnvironmentBinding, b: &EnvironmentBinding) -> (r: bool)
    ensures
        r == entry_order()(a.deep_view(), b.deep_view()),
{
    assert(a.key.deep_view() =~= a.key@);
    assert(b.key.deep_view() =~= b.key@);
    assert(a.value.deep_view() =~= a.value@);
    assert(b.value.deep_view() =~= b.value@);
    let ka = text_of_bytes(a.key.as_slice());
    let kb = text_of_bytes(b.key.as_slice());
    if text_precedes(ka.as_str(), kb.as_str()) {
        return true;
    }
    if !a.key.same(&b.key) {
        return false;
    }
    let va = text_of_bytes(a.value.as_slice());
    let vb = text_of_bytes(b.value.as_slice());
    text_precedes(va.as_str(), vb.as_str())
}

/// The digest of an environment: of exact bytes, with the entries in order. Planner and sandbox find
/// the same digest, so that an environment that was not agreed is noticed.
pub fn canonical_environment_digest(environment: &Vec<EnvironmentBinding>) -> (r: CanonicalHash)
    ensures
        r.hex@ == sha256_hex_of(environment_bytes(environment.deep_view())),
{
    let ghost p = entry_order();
    let entries = sort_items(
        environment,
        |a: &EnvironmentBinding, b: &EnvironmentBinding| -> (o: bool)
            ensures
                o == p(a.deep_view(), b.deep_view())
            { entry_precedes(a, b) },
        Ghost(p),
    );
    let ghost v = entries.deep_view();
    let label = "managed-execution-env-v1";
    let mut bytes: Vec<u8> = Vec::new();
    let start = label.as_bytes();
    let mut k: usize = 0;
    while k < start.len()
        invariant
            k <= start.len(),
            bytes@ =~= start@.take(k as int),
        decreases start.len() - k,
    {
        bytes.push(start[k]);
        k = k + 1;
    }
    assert(start@.take(k as int) =~= start@);
    let ghost head = start@;
    let mut i: usize = 0;
    assert(v.take(0) =~= Seq::empty());
    assert(bytes@ =~= head + entry_bytes(v.take(0)));
    while i < entries.len()
        invariant
            i <= entries.len(),
            v == entries.deep_view(),
            bytes@ == head + entry_bytes(v.take(i as int)),
        decreases entries.len() - i,
    {
        let ghost next = v.take(i + 1);
        proof {
            assert(next.drop_last() =~= v.take(i as int));
            assert(next.last() == entries@[i as int].deep_view());
            assert(entries@[i as int].key.deep_view() =~= entries@[i as int].key@);
            assert(entries@[i as int].value.deep_view() =~= entries@[i as int].value@);
        }
        add_bytes(&mut bytes, &entries[i].key);
        bytes.push(61);
        add_bytes(&mut bytes, &entries[i].value);
        bytes.push(0);
        assert(bytes@ =~= head + entry_bytes(next));
        i = i + 1;
    }
    assert(v.take(i as int) =~= v);
    CanonicalHash { hex: sha256_lower_hex(bytes.as_slice()) }
}

/// The bytes of a text that is as close to some bytes as UTF-8 allows.
pub uninterp spec fn lossy_utf8_of(bytes: Seq<u8>) -> Seq<u8>;

/// Calls `String::from_utf8_lossy` of the standard library and takes the bytes of the text. The
/// contract claims that they depend on the argument alone, and that bytes that are UTF-8 already stay
/// as they are. What stands in the place of other bytes is left unsaid.
#[verifier::external_body]
pub(crate) fn lossy_utf8(bytes: &[u8]) -> (r: Vec<u8>)
    ensures
        r@ == lossy_utf8_of(bytes@),
        vstd::utf8::valid_utf8(bytes@) ==> r@ == bytes@,
{
    String::from_utf8_lossy(bytes).into_owned().into_bytes()
}

impl ManagedExecutionPlanRequestV1 {
    /// The arguments in UTF-8.
    pub fn argv_bytes(&self) -> (r: Vec<Vec<u8>>)
        ensures
            r.deep_view() == Seq::new(
                self.deep_view().argv.len(),
                |i: int| lossy_utf8_of(self.deep_view().argv[i]),
            ),
            forall|i: int|
                0 <= i < r.deep_view().len() && vstd::utf8::valid_utf8(self.deep_view().argv[i])
                    ==> #[trigger] r.deep_view()[i] == self.deep_view().argv[i],
    {
        let ghost v = self.deep_view().argv;
        let mut r: Vec<Vec<u8>> = Vec::new();
        let mut i: usize = 0;
        while i < self.argv.len()
            invariant
                i <= self.argv.len(),
                v == self.deep_view().argv,
                r.len() == i,
                forall|j: int|
                    0 <= j < i ==> #[trigger] r.deep_view()[j] == lossy_utf8_of(v[j]) && (
                    vstd::utf8::valid_utf8(v[j]) ==> r.deep_view()[j] == v[j]),
            decreases self.argv.len() - i,
        {
            let ghost had = r;
            let bytes = lossy_utf8(self.argv[i].as_slice());
            assert(v[i as int] =~= self.argv@[i as int]@);
            assert(bytes.deep_view() =~= bytes@);
            r.push(bytes);
            proof {
                lemma_push_view(had, bytes, r);
            }
            i = i + 1;
        }
        assert(r.deep_view() =~= Seq::new(v.len(), |i: int| lossy_utf8_of(v[i])));
        r
    }
}

impl ExecutionCheckReceiptV1 {
    /// Tells whether repository verification passed. A pipeline of which only the last stage was
    /// observed can be a true result of a process, but never a passed verification.
    pub fn verification_passed(&self) -> (r: bool)
        ensures
            r == (self.deep_view().pipeline_outcome !is FinalStageOnly
                && self.deep_view().verification_evidence is Sufficient),
    {
        let observed = match &self.pipeline_outcome {
            PipelineOutcomeV1::FinalStageOnly { .. } => false,
            _ => true,
        };
        observed && match &self.verification_evidence {
            VerificationEvidenceV1::Sufficient => true,
            VerificationEvidenceV1::Insufficient { .. } => false,
        }
    }
}

/// Plans an execution without any effect. Hosts implement it; nothing is assumed of what it plans.
pub trait ManagedExecutionPlannerV1: Send + Sync {
    /// Plans an execution.
    fn plan_execution(&self, request: ManagedExecutionPlanRequestV1) -> (r: Result<
        ManagedExecutionPlanDraftV1,
        ManagedExecutionPlanErrorV1,
    >);
}

// Laws.

proof fn lemma_entry_order_is_total()
    ensures
        total_ordering(may_lead(entry_order())),
{
    let leq = may_lead(entry_order());
    let text = may_lead(text_order());
    lemma_text_order_is_total();
    assert forall|a: EnvironmentBindingView| #[trigger] leq(a, a) by {
        assert(text(byte_text(a.key), byte_text(a.key)));
        assert(text(byte_text(a.value), byte_text(a.value)));
    }
    assert forall|a: EnvironmentBindingView, b: EnvironmentBindingView| #[trigger] leq(a, b)
        && #[trigger] leq(b, a) implies a == b by {
        lemma_byte_text_is_exact(a.key, b.key);
        lemma_byte_text_is_exact(a.value, b.value);
        assert(text(byte_text(a.key), byte_text(b.key)));
        assert(text(byte_text(b.key), byte_text(a.key)));
        assert(text(byte_text(a.value), byte_text(b.value)));
        assert(text(byte_text(b.value), byte_text(a.value)));
    }
    assert forall|a: EnvironmentBindingView, b: EnvironmentBindingView, c: EnvironmentBindingView|
        #[trigger] leq(a, b) && #[trigger] leq(b, c) implies leq(a, c) by {
        lemma_byte_text_is_exact(a.key, b.key);
        lemma_byte_text_is_exact(b.key, c.key);
        lemma_byte_text_is_exact(a.key, c.key);
        assert(text(byte_text(a.key), byte_text(b.key)));
        assert(text(byte_text(b.key), byte_text(c.key)));
        assert(text(byte_text(a.key), byte_text(c.key)));
        if c.key == a.key {
            assert(text(byte_text(b.key), byte_text(a.key)));
            assert(a.key == b.key);
            assert(text(byte_text(a.value), byte_text(b.value)));
            assert(text(byte_text(b.value), byte_text(c.value)));
            assert(text(byte_text(a.value), byte_text(c.value)));
        }
    }
    assert forall|a: EnvironmentBindingView, b: EnvironmentBindingView| #[trigger] leq(a, b)
        || #[trigger] leq(b, a) by {
        lemma_byte_text_is_exact(a.key, b.key);
        assert(text(byte_text(a.key), byte_text(b.key)) || text(
            byte_text(b.key),
            byte_text(a.key),
        ));
        assert(text(byte_text(a.value), byte_text(b.value)) || text(
            byte_text(b.value),
            byte_text(a.value),
        ));
        assert(text(byte_text(a.key), byte_text(a.key)));
    }
}

/// The digest of an environment does not depend on the order in which its entries are listed.
pub proof fn law_environment_digest_ignores_order(
    a: Seq<EnvironmentBindingView>,
    b: Seq<EnvironmentBindingView>,
)
    requires
        a.to_multiset() == b.to_multiset(),
    ensures
        sha256_hex_of(environment_bytes(a)) == sha256_hex_of(environment_bytes(b)),
{
    lemma_entry_order_is_total();
    lemma_order_is_canonical(a, b, entry_order());
}

} // verus!
