//! Admission of extension processes that start before any ordinary tool call: only a durable grant in
//! the configuration lets one through.

use vstd::prelude::*;

use crate::managed_execution::{
    CanonicalHash, CanonicalHashView, ResourceOwnerScopeV1, ResourceOwnerScopeV1View,
};
use crate::records::Session;
use crate::value::{holds, lemma_push_view, Value};

verus! {

/// Closed restart policy.
#[derive(Debug, Clone, Copy, PartialEq, Eq, Structural)]
pub enum ExtensionRestartPolicyV1 {
    Never,
    OnFailure,
    OnConfigChange,
}

impl DeepView for ExtensionRestartPolicyV1 {
    type V = ExtensionRestartPolicyV1;

    open spec fn deep_view(&self) -> ExtensionRestartPolicyV1 {
        *self
    }
}

impl Value for ExtensionRestartPolicyV1 {
    fn same(&self, other: &Self) -> (r: bool) {
        *self == *other
    }

    fn duplicate(&self) -> (r: Self) {
        *self
    }
}

/// Pathless extension execution plan (side-effect-free resolver output).
#[derive(Debug, Clone, PartialEq, Eq)]
pub struct ExtensionProcessPlanV1 {
    pub extension_kind: String,
    pub extension_id: String,
    pub config_generation: u64,
    pub attempt_journal_scope: String,
    pub attempt_journal_scope_hash: CanonicalHash,
    pub executable_and_args_digest: CanonicalHash,
    pub config_policy_digest: CanonicalHash,
    pub permission_upper_bound_hash: CanonicalHash,
    pub execution_plan_draft_hash: CanonicalHash,
    pub resource_plan_hash: CanonicalHash,
    pub requirement_set_hash: CanonicalHash,
    pub requested_enforcement_hash: CanonicalHash,
    pub resolver_proof_digest: CanonicalHash,
    pub sandbox_preview_hash: CanonicalHash,
    pub capture_policy_hash: CanonicalHash,
    pub resource_limits_hash: CanonicalHash,
    pub restart_policy: ExtensionRestartPolicyV1,
    pub extension_plan_hash: CanonicalHash,
}

/// What a [`ExtensionProcessPlanV1`] holds.
#[verifier::ext_equal]
pub struct ExtensionProcessPlanV1View {
    pub extension_kind: Seq<char>,
    pub extension_id: Seq<char>,
    pub config_generation: u64,
    pub attempt_journal_scope: Seq<char>,
    pub attempt_journal_scope_hash: CanonicalHashView,
    pub executable_and_args_digest: CanonicalHashView,
    pub config_policy_digest: CanonicalHashView,
    pub permission_upper_bound_hash: CanonicalHashView,
    pub execution_plan_draft_hash: CanonicalHashView,
    pub resource_plan_hash: CanonicalHashView,
    pub requirement_set_hash: CanonicalHashView,
    pub requested_enforcement_hash: CanonicalHashView,
    pub resolver_proof_digest: CanonicalHashView,
    pub sandbox_preview_hash: CanonicalHashView,
    pub capture_policy_hash: CanonicalHashView,
    pub resource_limits_hash: CanonicalHashView,
    pub restart_policy: ExtensionRestartPolicyV1,
    pub extension_plan_hash: CanonicalHashView,
}

impl DeepView for ExtensionProcessPlanV1 {
    type V = ExtensionProcessPlanV1View;

    open spec fn deep_view(&self) -> ExtensionProcessPlanV1View {
        ExtensionProcessPlanV1View {
            extension_kind: self.extension_kind.deep_view(),
            extension_id: self.extension_id.deep_view(),
            config_generation: self.config_generation.deep_view(),
            attempt_journal_scope: self.attempt_journal_scope.deep_view(),
            attempt_journal_scope_hash: self.attempt_journal_scope_hash.deep_view(),
            executable_and_args_digest: self.executable_and_args_digest.deep_view(),
            config_policy_digest: self.config_policy_digest.deep_view(),
            permission_upper_bound_hash: self.permission_upper_bound_hash.deep_view(),
            execution_plan_draft_hash: self.execution_plan_draft_hash.deep_view(),
            resource_plan_hash: self.resource_plan_hash.deep_view(),
            requirement_set_hash: self.requirement_set_hash.deep_view(),
            requested_enforcement_hash: self.requested_enforcement_hash.deep_view(),
            resolver_proof_digest: self.resolver_proof_digest.deep_view(),
            sandbox_preview_hash: self.sandbox_preview_hash.deep_view(),
            capture_policy_hash: self.capture_policy_hash.deep_view(),
            resource_limits_hash: self.resource_limits_hash.deep_view(),
            restart_policy: self.restart_policy.deep_view(),
            extension_plan_hash: self.extension_plan_hash.deep_view(),
        }
    }
}

impl Value for ExtensionProcessPlanV1 {
    fn same(&self, other: &Self) -> (r: bool) {
        self.extension_kind.same(&other.extension_kind)
            && self.extension_id.same(&other.extension_id)
            && self.config_generation.same(&other.config_generation)
            && self.attempt_journal_scope.same(&other.attempt_journal_scope)
            && self.attempt_journal_scope_hash.same(&other.attempt_journal_scope_hash)
            && self.executable_and_args_digest.same(&other.executable_and_args_digest)
            && self.config_policy_digest.same(&other.config_policy_digest)
            && self.permission_upper_bound_hash.same(&other.permission_upper_bound_hash)
            && self.execution_plan_draft_hash.same(&other.execution_plan_draft_hash)
            && self.resource_plan_hash.same(&other.resource_plan_hash)
            && self.requirement_set_hash.same(&other.requirement_set_hash)
            && self.requested_enforcement_hash.same(&other.requested_enforcement_hash)
            && self.resolver_proof_digest.same(&other.resolver_proof_digest)
            && self.sandbox_preview_hash.same(&other.sandbox_preview_hash)
            && self.capture_policy_hash.same(&other.capture_policy_hash)
            && self.resource_limits_hash.same(&other.resource_limits_hash)
            && self.restart_policy.same(&other.restart_policy)
            && self.extension_plan_hash.same(&other.extension_plan_hash)
    }

    fn duplicate(&self) -> (r: Self) {
        ExtensionProcessPlanV1 {
            extension_kind: self.extension_kind.duplicate(),
            extension_id: self.extension_id.duplicate(),
            config_generation: self.config_generation.duplicate(),
            attempt_journal_scope: self.attempt_journal_scope.duplicate(),
            attempt_journal_scope_hash: self.attempt_journal_scope_hash.duplicate(),
            executable_and_args_digest: self.executable_and_args_digest.duplicate(),
            config_policy_digest: self.config_policy_digest.duplicate(),
            permission_upper_bound_hash: self.permission_upper_bound_hash.duplicate(),
            execution_plan_draft_hash: self.execution_plan_draft_hash.duplicate(),
            resource_plan_hash: self.resource_plan_hash.duplicate(),
            requirement_set_hash: self.requirement_set_hash.duplicate(),
            requested_enforcement_hash: self.requested_enforcement_hash.duplicate(),
            resolver_proof_digest: self.resolver_proof_digest.duplicate(),
            sandbox_preview_hash: self.sandbox_preview_hash.duplicate(),
            capture_policy_hash: self.capture_policy_hash.duplicate(),
            resource_limits_hash: self.resource_limits_hash.duplicate(),
            restart_policy: self.restart_policy.duplicate(),
            extension_plan_hash: self.extension_plan_hash.duplicate(),
        }
    }
}

/// Closed extension approval decision.
#[derive(Debug, Clone, PartialEq, Eq)]
pub enum ExtensionApprovalDecisionV1 {
    AllowByDurableConfigGrant {
        grant_ref: String,
        grant_hash: CanonicalHash,
    },
    Deny,
    AskUnsupported,
}

/// What a [`ExtensionApprovalDecisionV1`] holds.
#[verifier::ext_equal]
pub enum ExtensionApprovalDecisionV1View {
    AllowByDurableConfigGrant {
        grant_ref: Seq<char>,
        grant_hash: CanonicalHashView,
    },
    Deny,
    AskUnsupported,
}

impl DeepView for ExtensionApprovalDecisionV1 {
    type V = ExtensionApprovalDecisionV1View;

    open spec fn deep_view(&self) -> ExtensionApprovalDecisionV1View {
        match self {
            ExtensionApprovalDecisionV1::AllowByDurableConfigGrant { grant_ref, grant_hash } => ExtensionApprovalDecisionV1View::AllowByDurableConfigGrant {
                grant_ref: grant_ref.deep_view(),
                grant_hash: grant_hash.deep_view(),
            },
            ExtensionApprovalDecisionV1::Deny => ExtensionApprovalDecisionV1View::Deny,
            ExtensionApprovalDecisionV1::AskUnsupported => ExtensionApprovalDecisionV1View::AskUnsupported,
        }
    }
}

impl Value for ExtensionApprovalDecisionV1 {
    fn same(&self, other: &Self) -> (r: bool) {
        match (self, other) {
            (
                ExtensionApprovalDecisionV1::AllowByDurableConfigGrant { grant_ref, grant_hash },
                ExtensionApprovalDecisionV1::AllowByDurableConfigGrant { grant_ref: grant_ref2, grant_hash: grant_hash2 },
            ) => grant_ref.same(grant_ref2)
                && grant_hash.same(grant_hash2),
            (
                ExtensionApprovalDecisionV1::Deny,
                ExtensionApprovalDecisionV1::Deny,
            ) => true,
            (
                ExtensionApprovalDecisionV1::AskUnsupported,
                ExtensionApprovalDecisionV1::AskUnsupported,
            ) => true,
            _ => false,
        }
    }

    fn duplicate(&self) -> (r: Self) {
        match self {
            ExtensionApprovalDecisionV1::AllowByDurableConfigGrant { grant_ref, grant_hash } => ExtensionApprovalDecisionV1::AllowByDurableConfigGrant {
                grant_ref: grant_ref.duplicate(),
                grant_hash: grant_hash.duplicate(),
            },
            ExtensionApprovalDecisionV1::Deny => ExtensionApprovalDecisionV1::Deny,
            ExtensionApprovalDecisionV1::AskUnsupported => ExtensionApprovalDecisionV1::AskUnsupported,
        }
    }
}

/// Durable admission scope: session log or application control log.
#[derive(Debug, Clone, PartialEq, Eq)]
pub enum DurableAdmissionScopeV1 {
    Session {
        session_log_id: String,
    },
    ApplicationControl {
        control_log_id: String,
        workspace_id: Option<String>,
    },
}

/// What a [`DurableAdmissionScopeV1`] holds.
#[verifier::ext_equal]
pub enum DurableAdmissionScopeV1View {
    Session {
        session_log_id: Seq<char>,
    },
    ApplicationControl {
        control_log_id: Seq<char>,
        workspace_id: Option<Seq<char>>,
    },
}

impl DeepView for DurableAdmissionScopeV1 {
    type V = DurableAdmissionScopeV1View;

    open spec fn deep_view(&self) -> DurableAdmissionScopeV1View {
        match self {
            DurableAdmissionScopeV1::Session { session_log_id } => DurableAdmissionScopeV1View::Session {
                session_log_id: session_log_id.deep_view(),
            },
            DurableAdmissionScopeV1::ApplicationControl { control_log_id, workspace_id } => DurableAdmissionScopeV1View::ApplicationControl {
                control_log_id: control_log_id.deep_view(),
                workspace_id: workspace_id.deep_view(),
            },
        }
    }
}

impl Value for DurableAdmissionScopeV1 {
    fn same(&self, other: &Self) -> (r: bool) {
        match (self, other) {
            (
                DurableAdmissionScopeV1::Session { session_log_id },
                DurableAdmissionScopeV1::Session { session_log_id: session_log_id2 },
            ) => session_log_id.same(session_log_id2),
            (
                DurableAdmissionScopeV1::ApplicationControl { control_log_id, workspace_id },
                DurableAdmissionScopeV1::ApplicationControl { control_log_id: control_log_id2, workspace_id: workspace_id2 },
            ) => control_log_id.same(control_log_id2)
                && workspace_id.same(workspace_id2),
            _ => false,
        }
    }

    fn duplicate(&self) -> (r: Self) {
        match self {
            DurableAdmissionScopeV1::Session { session_log_id } => DurableAdmissionScopeV1::Session {
                session_log_id: session_log_id.duplicate(),
            },
            DurableAdmissionScopeV1::ApplicationControl { control_log_id, workspace_id } => DurableAdmissionScopeV1::ApplicationControl {
                control_log_id: control_log_id.duplicate(),
                workspace_id: workspace_id.duplicate(),
            },
        }
    }
}

/// Extension process decision (durable facts).
#[derive(Debug, Clone, PartialEq, Eq)]
pub struct ExtensionProcessDecisionV1 {
    pub decision_id: String,
    pub durable_scope: DurableAdmissionScopeV1,
    pub domain_event_id: String,
    pub extension_plan_hash: CanonicalHash,
    pub attempt_journal_scope_hash: CanonicalHash,
    pub policy_version: String,
    pub authorization: ExtensionApprovalDecisionV1,
    pub decision_hash: CanonicalHash,
}

/// What a [`ExtensionProcessDecisionV1`] holds.
#[verifier::ext_equal]
pub struct ExtensionProcessDecisionV1View {
    pub decision_id: Seq<char>,
    pub durable_scope: DurableAdmissionScopeV1View,
    pub domain_event_id: Seq<char>,
    pub extension_plan_hash: CanonicalHashView,
    pub attempt_journal_scope_hash: CanonicalHashView,
    pub policy_version: Seq<char>,
    pub authorization: ExtensionApprovalDecisionV1View,
    pub decision_hash: CanonicalHashView,
}

impl DeepView for ExtensionProcessDecisionV1 {
    type V = ExtensionProcessDecisionV1View;

    open spec fn deep_view(&self) -> ExtensionProcessDecisionV1View {
        ExtensionProcessDecisionV1View {
            decision_id: self.decision_id.deep_view(),
            durable_scope: self.durable_scope.deep_view(),
            domain_event_id: self.domain_event_id.deep_view(),
            extension_plan_hash: self.extension_plan_hash.deep_view(),
            attempt_journal_scope_hash: self.attempt_journal_scope_hash.deep_view(),
            policy_version: self.policy_version.deep_view(),
            authorization: self.authorization.deep_view(),
            decision_hash: self.decision_hash.deep_view(),
        }
    }
}

impl Value for ExtensionProcessDecisionV1 {
    fn same(&self, other: &Self) -> (r: bool) {
        self.decision_id.same(&other.decision_id)
            && self.durable_scope.same(&other.durable_scope)
            && self.domain_event_id.same(&other.domain_event_id)
            && self.extension_plan_hash.same(&other.extension_plan_hash)
            && self.attempt_journal_scope_hash.same(&other.attempt_journal_scope_hash)
            && self.policy_version.same(&other.policy_version)
            && self.authorization.same(&other.authorization)
            && self.decision_hash.same(&other.decision_hash)
    }

    fn duplicate(&self) -> (r: Self) {
        ExtensionProcessDecisionV1 {
            decision_id: self.decision_id.duplicate(),
            durable_scope: self.durable_scope.duplicate(),
            domain_event_id: self.domain_event_id.duplicate(),
            extension_plan_hash: self.extension_plan_hash.duplicate(),
            attempt_journal_scope_hash: self.attempt_journal_scope_hash.duplicate(),
            policy_version: self.policy_version.duplicate(),
            authorization: self.authorization.duplicate(),
            decision_hash: self.decision_hash.duplicate(),
        }
    }
}

/// Extension process admission (all digests bound; one physical attempt).
#[derive(Debug, Clone, PartialEq, Eq)]
pub struct ExtensionProcessAdmissionV1 {
    pub admission_id: String,
    pub physical_attempt_id: String,
    pub extension_kind: String,
    pub extension_id: String,
    pub config_generation: u64,
    pub authority_generation: u64,
    pub attempt_journal_scope: String,
    pub attempt_journal_scope_hash: CanonicalHash,
    pub executable_and_args_digest: CanonicalHash,
    pub config_policy_digest: CanonicalHash,
    pub permission_upper_bound_hash: CanonicalHash,
    pub execution_plan_draft_hash: CanonicalHash,
    pub resource_plan_hash: CanonicalHash,
    pub extension_plan_hash: CanonicalHash,
    pub decision_hash: CanonicalHash,
    pub durable_scope_hash: CanonicalHash,
    pub extension_start_event_digest: CanonicalHash,
    pub resource_requirements: String,
    pub requirement_set_hash: CanonicalHash,
    pub requested_enforcement: String,
    pub requested_enforcement_hash: CanonicalHash,
    pub resolver_proof_digest: CanonicalHash,
    pub sandbox_preview_hash: CanonicalHash,
    pub capture_policy_hash: CanonicalHash,
    pub resource_limits_hash: CanonicalHash,
    pub restart_policy: ExtensionRestartPolicyV1,
    pub admission_hash: CanonicalHash,
}

/// What a [`ExtensionProcessAdmissionV1`] holds.
#[verifier::ext_equal]
pub struct ExtensionProcessAdmissionV1View {
    pub admission_id: Seq<char>,
    pub physical_attempt_id: Seq<char>,
    pub extension_kind: Seq<char>,
    pub extension_id: Seq<char>,
    pub config_generation: u64,
    pub authority_generation: u64,
    pub attempt_journal_scope: Seq<char>,
    pub attempt_journal_scope_hash: CanonicalHashView,
    pub executable_and_args_digest: CanonicalHashView,
    pub config_policy_digest: CanonicalHashView,
    pub permission_upper_bound_hash: CanonicalHashView,
    pub execution_plan_draft_hash: CanonicalHashView,
    pub resource_plan_hash: CanonicalHashView,
    pub extension_plan_hash: CanonicalHashView,
    pub decision_hash: CanonicalHashView,
    pub durable_scope_hash: CanonicalHashView,
    pub extension_start_event_digest: CanonicalHashView,
    pub resource_requirements: Seq<char>,
    pub requirement_set_hash: CanonicalHashView,
    pub requested_enforcement: Seq<char>,
    pub requested_enforcement_hash: CanonicalHashView,
    pub resolver_proof_digest: CanonicalHashView,
    pub sandbox_preview_hash: CanonicalHashView,
    pub capture_policy_hash: CanonicalHashView,
    pub resource_limits_hash: CanonicalHashView,
    pub restart_policy: ExtensionRestartPolicyV1,
    pub admission_hash: CanonicalHashView,
}

impl DeepView for ExtensionProcessAdmissionV1 {
    type V = ExtensionProcessAdmissionV1View;

    open spec fn deep_view(&self) -> ExtensionProcessAdmissionV1View {
        ExtensionProcessAdmissionV1View {
            admission_id: self.admission_id.deep_view(),
            physical_attempt_id: self.physical_attempt_id.deep_view(),
            extension_kind: self.extension_kind.deep_view(),
            extension_id: self.extension_id.deep_view(),
            config_generation: self.config_generation.deep_view(),
            authority_generation: self.authority_generation.deep_view(),
            attempt_journal_scope: self.attempt_journal_scope.deep_view(),
            attempt_journal_scope_hash: self.attempt_journal_scope_hash.deep_view(),
            executable_and_args_digest: self.executable_and_args_digest.deep_view(),
            config_policy_digest: self.config_policy_digest.deep_view(),
            permission_upper_bound_hash: self.permission_upper_bound_hash.deep_view(),
            execution_plan_draft_hash: self.execution_plan_draft_hash.deep_view(),
            resource_plan_hash: self.resource_plan_hash.deep_view(),
            extension_plan_hash: self.extension_plan_hash.deep_view(),
            decision_hash: self.decision_hash.deep_view(),
            durable_scope_hash: self.durable_scope_hash.deep_view(),
            extension_start_event_digest: self.extension_start_event_digest.deep_view(),
            resource_requirements: self.resource_requirements.deep_view(),
            requirement_set_hash: self.requirement_set_hash.deep_view(),
            requested_enforcement: self.requested_enforcement.deep_view(),
            requested_enforcement_hash: self.requested_enforcement_hash.deep_view(),
            resolver_proof_digest: self.resolver_proof_digest.deep_view(),
            sandbox_preview_hash: self.sandbox_preview_hash.deep_view(),
            capture_policy_hash: self.capture_policy_hash.deep_view(),
            resource_limits_hash: self.resource_limits_hash.deep_view(),
            restart_policy: self.restart_policy.deep_view(),
            admission_hash: self.admission_hash.deep_view(),
        }
    }
}

impl Value for ExtensionProcessAdmissionV1 {
    fn same(&self, other: &Self) -> (r: bool) {
        self.admission_id.same(&other.admission_id)
            && self.physical_attempt_id.same(&other.physical_attempt_id)
            && self.extension_kind.same(&other.extension_kind)
            && self.extension_id.same(&other.extension_id)
            && self.config_generation.same(&other.config_generation)
            && self.authority_generation.same(&other.authority_generation)
            && self.attempt_journal_scope.same(&other.attempt_journal_scope)
            && self.attempt_journal_scope_hash.same(&other.attempt_journal_scope_hash)
            && self.executable_and_args_digest.same(&other.executable_and_args_digest)
            && self.config_policy_digest.same(&other.config_policy_digest)
            && self.permission_upper_bound_hash.same(&other.permission_upper_bound_hash)
            && self.execution_plan_draft_hash.same(&other.execution_plan_draft_hash)
            && self.resource_plan_hash.same(&other.resource_plan_hash)
            && self.extension_plan_hash.same(&other.extension_plan_hash)
            && self.decision_hash.same(&other.decision_hash)
            && self.durable_scope_hash.same(&other.durable_scope_hash)
            && self.extension_start_event_digest.same(&other.extension_start_event_digest)
            && self.resource_requirements.same(&other.resource_requirements)
            && self.requirement_set_hash.same(&other.requirement_set_hash)
            && self.requested_enforcement.same(&other.requested_enforcement)
            && self.requested_enforcement_hash.same(&other.requested_enforcement_hash)
            && self.resolver_proof_digest.same(&other.resolver_proof_digest)
            && self.sandbox_preview_hash.same(&other.sandbox_preview_hash)
            && self.capture_policy_hash.same(&other.capture_policy_hash)
            && self.resource_limits_hash.same(&other.resource_limits_hash)
            && self.restart_policy.same(&other.restart_policy)
            && self.admission_hash.same(&other.admission_hash)
    }

    fn duplicate(&self) -> (r: Self) {
        ExtensionProcessAdmissionV1 {
            admission_id: self.admission_id.duplicate(),
            physical_attempt_id: self.physical_attempt_id.duplicate(),
            extension_kind: self.extension_kind.duplicate(),
            extension_id: self.extension_id.duplicate(),
            config_generation: self.config_generation.duplicate(),
            authority_generation: self.authority_generation.duplicate(),
            attempt_journal_scope: self.attempt_journal_scope.duplicate(),
            attempt_journal_scope_hash: self.attempt_journal_scope_hash.duplicate(),
            executable_and_args_digest: self.executable_and_args_digest.duplicate(),
            config_policy_digest: self.config_policy_digest.duplicate(),
            permission_upper_bound_hash: self.permission_upper_bound_hash.duplicate(),
            execution_plan_draft_hash: self.execution_plan_draft_hash.duplicate(),
            resource_plan_hash: self.resource_plan_hash.duplicate(),
            extension_plan_hash: self.extension_plan_hash.duplicate(),
            decision_hash: self.decision_hash.duplicate(),
            durable_scope_hash: self.durable_scope_hash.duplicate(),
            extension_start_event_digest: self.extension_start_event_digest.duplicate(),
            resource_requirements: self.resource_requirements.duplicate(),
            requirement_set_hash: self.requirement_set_hash.duplicate(),
            requested_enforcement: self.requested_enforcement.duplicate(),
            requested_enforcement_hash: self.requested_enforcement_hash.duplicate(),
            resolver_proof_digest: self.resolver_proof_digest.duplicate(),
            sandbox_preview_hash: self.sandbox_preview_hash.duplicate(),
            capture_policy_hash: self.capture_policy_hash.duplicate(),
            resource_limits_hash: self.resource_limits_hash.duplicate(),
            restart_policy: self.restart_policy.duplicate(),
            admission_hash: self.admission_hash.duplicate(),
        }
    }
}

/// Closed extension admission error taxonomy.
#[derive(Debug, Clone, Copy, PartialEq, Eq, Structural)]
pub enum ExtensionAdmissionErrorV1 {
    DomainSinkUnavailable,
    AskUnsupported,
    ConfigGrantDrift,
    AdmissionDrift,
    ActiveBlocker,
}

impl DeepView for ExtensionAdmissionErrorV1 {
    type V = ExtensionAdmissionErrorV1;

    open spec fn deep_view(&self) -> ExtensionAdmissionErrorV1 {
        *self
    }
}

impl Value for ExtensionAdmissionErrorV1 {
    fn same(&self, other: &Self) -> (r: bool) {
        *self == *other
    }

    fn duplicate(&self) -> (r: Self) {
        *self
    }
}

/// The message of a failure.
pub open spec fn admission_error_message(e: ExtensionAdmissionErrorV1) -> Seq<char> {
    match e {
        ExtensionAdmissionErrorV1::DomainSinkUnavailable => "no current-schema session or application control writer is available; failing closed"@,
        ExtensionAdmissionErrorV1::AskUnsupported => "AskUnsupported is not supported on any surface in V1"@,
        ExtensionAdmissionErrorV1::ConfigGrantDrift => "durable config grant is stale, revoked or hash-drifted"@,
        ExtensionAdmissionErrorV1::AdmissionDrift => "config, executable, requirement, enforcement or authority generation drifted; replan required"@,
        ExtensionAdmissionErrorV1::ActiveBlocker => "active extension resource blocker is unresolved; no restart storm"@,
    }
}

impl ExtensionAdmissionErrorV1 {
    /// The message of the failure.
    pub fn message(&self) -> (r: String)
        ensures
            r@ == admission_error_message(self.deep_view()),
    {
        match self {
            ExtensionAdmissionErrorV1::DomainSinkUnavailable => "no current-schema session or application control writer is available; failing closed".to_owned(),
            ExtensionAdmissionErrorV1::AskUnsupported => "AskUnsupported is not supported on any surface in V1".to_owned(),
            ExtensionAdmissionErrorV1::ConfigGrantDrift => "durable config grant is stale, revoked or hash-drifted".to_owned(),
            ExtensionAdmissionErrorV1::AdmissionDrift => "config, executable, requirement, enforcement or authority generation drifted; replan required".to_owned(),
            ExtensionAdmissionErrorV1::ActiveBlocker => "active extension resource blocker is unresolved; no restart storm".to_owned(),
        }
    }
}

/// The admissions that a token was signed for. An admission is claimed once.
#[derive(Debug)]
pub struct ExtensionAdmissionClaimsV1 {
    claimed: Vec<String>,
}

impl DeepView for ExtensionAdmissionClaimsV1 {
    type V = Seq<Seq<char>>;

    closed spec fn deep_view(&self) -> Seq<Seq<char>> {
        self.claimed.deep_view()
    }
}

impl ExtensionAdmissionClaimsV1 {
    /// Nothing is claimed yet.
    pub fn new() -> (r: Self)
        ensures
            r.deep_view() == Seq::<Seq<char>>::empty(),
    {
        let r = ExtensionAdmissionClaimsV1 { claimed: Vec::new() };
        assert(r.deep_view() =~= Seq::empty());
        r
    }
}

/// The right to execute one admitted extension process. It is made once and cannot be copied.
#[derive(Debug)]
pub struct ExtensionExecutionAdmissionTokenV1 {
    admission: ExtensionProcessAdmissionV1,
}

impl DeepView for ExtensionExecutionAdmissionTokenV1 {
    type V = ExtensionProcessAdmissionV1View;

    closed spec fn deep_view(&self) -> ExtensionProcessAdmissionV1View {
        self.admission.deep_view()
    }
}

/// A token may be signed for an admission: the decision grants the plan, the admission is one of that
/// plan under that decision, and it was not claimed before.
pub open spec fn signature_verdict(
    claimed: Seq<Seq<char>>,
    admission: ExtensionProcessAdmissionV1View,
    decision: ExtensionProcessDecisionV1View,
    plan: ExtensionProcessPlanV1View,
) -> Result<(), ExtensionAdmissionErrorV1> {
    match authorized(decision, plan) {
        Err(e) => Err(e),
        Ok(_) => if admission.extension_plan_hash != plan.extension_plan_hash
            || admission.decision_hash != decision.decision_hash || claimed.contains(
            admission.admission_id,
        ) {
            Err(ExtensionAdmissionErrorV1::AdmissionDrift)
        } else {
            Ok(())
        },
    }
}

impl ExtensionExecutionAdmissionTokenV1 {
    /// Signs the token of an admission, and claims the admission. Only a durable grant for the plan of
    /// the admission has one signed, and only once.
    pub fn sign(
        claims: &mut ExtensionAdmissionClaimsV1,
        admission: ExtensionProcessAdmissionV1,
        decision: &ExtensionProcessDecisionV1,
        plan: &ExtensionProcessPlanV1,
    ) -> (r: Result<Self, ExtensionAdmissionErrorV1>)
        ensures
            match signature_verdict(
                old(claims).deep_view(),
                admission.deep_view(),
                decision.deep_view(),
                plan.deep_view(),
            ) {
                Ok(_) => r matches Ok(token) && token.deep_view() == admission.deep_view()
                    && final(claims).deep_view() == old(claims).deep_view().push(
                    admission.deep_view().admission_id,
                ),
                Err(e) => r matches Err(x) && x == e && final(claims).deep_view() == old(
                    claims,
                ).deep_view(),
            },
    {
        authorize_extension(decision, plan)?;
        if !admission.extension_plan_hash.same(&plan.extension_plan_hash)
            || !admission.decision_hash.same(&decision.decision_hash) || holds(
            &claims.claimed,
            &admission.admission_id,
        ) {
            return Err(ExtensionAdmissionErrorV1::AdmissionDrift);
        }
        let ghost had = claims.claimed;
        let id = admission.admission_id.duplicate();
        claims.claimed.push(id);
        proof {
            lemma_push_view(had, id, claims.claimed);
        }
        Ok(ExtensionExecutionAdmissionTokenV1 { admission })
    }

    /// The admission that the token is for.
    pub fn admission(&self) -> (r: &ExtensionProcessAdmissionV1)
        ensures
            r.deep_view() == self.deep_view(),
    {
        &self.admission
    }
}

/// The durable domain that writes for an extension process.
pub fn extension_owner_scope(extension_kind: &str, extension_id: &str, generation: u64) -> (r:
    ResourceOwnerScopeV1)
    ensures
        r.deep_view() == (ResourceOwnerScopeV1View::ExtensionProcess {
            extension_kind: extension_kind@,
            extension_id: extension_id@,
            generation,
        }),
{
    ResourceOwnerScopeV1::ExtensionProcess {
        extension_kind: extension_kind.to_owned(),
        extension_id: extension_id.to_owned(),
        generation,
    }
}

/// What a decision authorizes for a plan: the durable grant, where the decision is about this plan.
pub open spec fn authorized(
    decision: ExtensionProcessDecisionV1View,
    plan: ExtensionProcessPlanV1View,
) -> Result<ExtensionApprovalDecisionV1View, ExtensionAdmissionErrorV1> {
    match decision.authorization {
        ExtensionApprovalDecisionV1View::AllowByDurableConfigGrant { .. } => {
            if plan.extension_plan_hash != decision.extension_plan_hash {
                Err(ExtensionAdmissionErrorV1::AdmissionDrift)
            } else {
                Ok(decision.authorization)
            }
        },
        ExtensionApprovalDecisionV1View::Deny => Err(ExtensionAdmissionErrorV1::ConfigGrantDrift),
        ExtensionApprovalDecisionV1View::AskUnsupported => Err(
            ExtensionAdmissionErrorV1::AskUnsupported,
        ),
    }
}

/// Finds what a decision authorizes for a plan. A denial, and a question that cannot be asked, never
/// make an admission.
pub fn authorize_extension(
    decision: &ExtensionProcessDecisionV1,
    plan: &ExtensionProcessPlanV1,
) -> (r: Result<ExtensionApprovalDecisionV1, ExtensionAdmissionErrorV1>)
    ensures
        match r {
            Ok(a) => authorized(decision.deep_view(), plan.deep_view()) == Ok::<
                ExtensionApprovalDecisionV1View,
                ExtensionAdmissionErrorV1,
            >(a.deep_view()),
            Err(e) => authorized(decision.deep_view(), plan.deep_view()) == Err::<
                ExtensionApprovalDecisionV1View,
                ExtensionAdmissionErrorV1,
            >(e),
        },
{
    match &decision.authorization {
        ExtensionApprovalDecisionV1::AllowByDurableConfigGrant { .. } => {
            if !plan.extension_plan_hash.same(&decision.extension_plan_hash) {
                return Err(ExtensionAdmissionErrorV1::AdmissionDrift);
            }
            Ok(decision.authorization.duplicate())
        },
        ExtensionApprovalDecisionV1::Deny => Err(ExtensionAdmissionErrorV1::ConfigGrantDrift),
        ExtensionApprovalDecisionV1::AskUnsupported => Err(
            ExtensionAdmissionErrorV1::AskUnsupported,
        ),
    }
}

/// Checks whether an extension may be started again: not while something active blocks it.
pub fn check_restart_gate(active_blocker_resolved: bool) -> (r: Result<(), ExtensionAdmissionErrorV1>)
    ensures
        r is Ok == active_blocker_resolved,
        r matches Err(e) ==> e == ExtensionAdmissionErrorV1::ActiveBlocker,
{
    if !active_blocker_resolved {
        return Err(ExtensionAdmissionErrorV1::ActiveBlocker);
    }
    Ok(())
}

/// What is authorized always is a durable grant, and for the plan that was decided on.
pub proof fn law_only_durable_grants_are_authorized(
    decision: ExtensionProcessDecisionV1View,
    plan: ExtensionProcessPlanV1View,
)
    requires
        authorized(decision, plan) is Ok,
    ensures
        authorized(decision, plan)->Ok_0 is AllowByDurableConfigGrant,
        plan.extension_plan_hash == decision.extension_plan_hash,
{
}

/// An admission has one token: once one was signed for it, no other is, whatever is decided.
pub proof fn law_admissions_are_claimed_once(
    claimed: Seq<Seq<char>>,
    admission: ExtensionProcessAdmissionV1View,
    decision: ExtensionProcessDecisionV1View,
    plan: ExtensionProcessPlanV1View,
)
    requires
        claimed.contains(admission.admission_id),
    ensures
        signature_verdict(claimed, admission, decision, plan) is Err,
{
}

} // verus!
