//! Managed executions and extension admissions.

use sigil_kernel::extension_admission::{
    authorize_extension, check_restart_gate, extension_owner_scope, DurableAdmissionScopeV1,
    ExtensionAdmissionClaimsV1, ExtensionAdmissionErrorV1, ExtensionApprovalDecisionV1,
    ExtensionExecutionAdmissionTokenV1, ExtensionProcessAdmissionV1, ExtensionProcessDecisionV1,
    ExtensionProcessPlanV1, ExtensionRestartPolicyV1,
};
use sigil_kernel::managed_execution::{
    argv_encoded_bytes, canonical_environment_digest, AccessWideningReceiptV1, CanonicalHash,
    CaptureModeV1, EnvironmentBinding, ExecutionCapturePolicy, ExecutionCheckReceiptV1, ExecutionPurposeV1,
    ExecutionResourceLimits, ManagedExecutionErrorV1, ManagedExecutionPlanErrorV1,
    ManagedExecutionPlanRequestV1, ManagedProcessControlErrorV1, PipelineOutcomeV1,
    ResourceOwnerScopeV1, VerificationEvidenceReasonV1, VerificationEvidenceV1,
};

fn text(value: &str) -> String {
    value.to_owned()
}

fn hash(value: &str) -> CanonicalHash {
    CanonicalHash { hex: value.to_owned() }
}

fn bytes(value: &str) -> Vec<u8> {
    value.as_bytes().to_vec()
}

fn binding(key: &str, value: &str) -> EnvironmentBinding {
    EnvironmentBinding { key: bytes(key), value: bytes(value) }
}

fn plan(plan_hash: &str) -> ExtensionProcessPlanV1 {
    ExtensionProcessPlanV1 {
        extension_kind: text("mcp_stdio"),
        extension_id: text("search"),
        config_generation: 3,
        attempt_journal_scope: text("session"),
        attempt_journal_scope_hash: hash("01"),
        executable_and_args_digest: hash("02"),
        config_policy_digest: hash("03"),
        permission_upper_bound_hash: hash("04"),
        execution_plan_draft_hash: hash("05"),
        resource_plan_hash: hash("06"),
        requirement_set_hash: hash("07"),
        requested_enforcement_hash: hash("08"),
        resolver_proof_digest: hash("09"),
        sandbox_preview_hash: hash("0a"),
        capture_policy_hash: hash("0b"),
        resource_limits_hash: hash("0c"),
        restart_policy: ExtensionRestartPolicyV1::OnFailure,
        extension_plan_hash: hash(plan_hash),
    }
}

fn decision(authorization: ExtensionApprovalDecisionV1) -> ExtensionProcessDecisionV1 {
    ExtensionProcessDecisionV1 {
        decision_id: text("decision-1"),
        durable_scope: DurableAdmissionScopeV1::Session { session_log_id: text("session-1") },
        domain_event_id: text("event-1"),
        extension_plan_hash: hash("aa"),
        attempt_journal_scope_hash: hash("01"),
        policy_version: text("v1"),
        authorization,
        decision_hash: hash("bb"),
    }
}

fn grant() -> ExtensionApprovalDecisionV1 {
    ExtensionApprovalDecisionV1::AllowByDurableConfigGrant {
        grant_ref: text("grant-1"),
        grant_hash: hash("cc"),
    }
}

fn admission() -> ExtensionProcessAdmissionV1 {
    ExtensionProcessAdmissionV1 {
        admission_id: text("admission-1"),
        physical_attempt_id: text("attempt-1"),
        extension_kind: text("mcp_stdio"),
        extension_id: text("search"),
        config_generation: 3,
        authority_generation: 7,
        attempt_journal_scope: text("session"),
        attempt_journal_scope_hash: hash("01"),
        executable_and_args_digest: hash("02"),
        config_policy_digest: hash("03"),
        permission_upper_bound_hash: hash("04"),
        execution_plan_draft_hash: hash("05"),
        resource_plan_hash: hash("06"),
        extension_plan_hash: hash("aa"),
        decision_hash: hash("bb"),
        durable_scope_hash: hash("0d"),
        extension_start_event_digest: hash("0e"),
        resource_requirements: text("none"),
        requirement_set_hash: hash("07"),
        requested_enforcement: text("exact"),
        requested_enforcement_hash: hash("08"),
        resolver_proof_digest: hash("09"),
        sandbox_preview_hash: hash("0a"),
        capture_policy_hash: hash("0b"),
        resource_limits_hash: hash("0c"),
        restart_policy: ExtensionRestartPolicyV1::Never,
        admission_hash: hash("0f"),
    }
}

fn check_receipt(
    pipeline_outcome: PipelineOutcomeV1,
    verification_evidence: VerificationEvidenceV1,
) -> ExecutionCheckReceiptV1 {
    ExecutionCheckReceiptV1 {
        check_spec_hash: hash("01"),
        pipeline_outcome,
        verification_evidence,
        evidence_binding_hash: hash("02"),
        shell_profile_hash: hash("03"),
    }
}

#[test]
fn only_a_matching_grant_is_authorized() {
    assert_eq!(authorize_extension(&decision(grant()), &plan("aa")), Ok(grant()));
    assert_eq!(
        authorize_extension(&decision(grant()), &plan("ab")),
        Err(ExtensionAdmissionErrorV1::AdmissionDrift),
    );
    assert_eq!(
        authorize_extension(&decision(ExtensionApprovalDecisionV1::Deny), &plan("aa")),
        Err(ExtensionAdmissionErrorV1::ConfigGrantDrift),
    );
    assert_eq!(
        authorize_extension(&decision(ExtensionApprovalDecisionV1::AskUnsupported), &plan("aa")),
        Err(ExtensionAdmissionErrorV1::AskUnsupported),
    );
}

fn sign(
    claims: &mut ExtensionAdmissionClaimsV1,
    admission: ExtensionProcessAdmissionV1,
    authorization: ExtensionApprovalDecisionV1,
    plan: &ExtensionProcessPlanV1,
) -> Result<ExtensionExecutionAdmissionTokenV1, ExtensionAdmissionErrorV1> {
    ExtensionExecutionAdmissionTokenV1::sign(claims, admission, &decision(authorization), plan)
}

#[test]
fn refused_extensions_get_no_token() {
    let mut claims = ExtensionAdmissionClaimsV1::new();
    for (refused, error) in [
        (ExtensionApprovalDecisionV1::Deny, ExtensionAdmissionErrorV1::ConfigGrantDrift),
        (ExtensionApprovalDecisionV1::AskUnsupported, ExtensionAdmissionErrorV1::AskUnsupported),
    ] {
        assert_eq!(sign(&mut claims, admission(), refused, &plan("aa")).unwrap_err(), error);
    }
    let drift = ExtensionAdmissionErrorV1::AdmissionDrift;
    assert_eq!(sign(&mut claims, admission(), grant(), &plan("ab")).unwrap_err(), drift);
    let mut other_plan = admission();
    other_plan.extension_plan_hash = plan("ab").extension_plan_hash;
    assert_eq!(sign(&mut claims, other_plan, grant(), &plan("aa")).unwrap_err(), drift);
    let mut other_decision = admission();
    other_decision.decision_hash = plan("ab").extension_plan_hash;
    assert_eq!(sign(&mut claims, other_decision, grant(), &plan("aa")).unwrap_err(), drift);
    let token = sign(&mut claims, admission(), grant(), &plan("aa")).unwrap();
    assert_eq!(token.admission(), &admission());
}

#[test]
fn admissions_are_claimed_once() {
    let mut claims = ExtensionAdmissionClaimsV1::new();
    assert!(sign(&mut claims, admission(), grant(), &plan("aa")).is_ok());
    assert_eq!(
        sign(&mut claims, admission(), grant(), &plan("aa")).unwrap_err(),
        ExtensionAdmissionErrorV1::AdmissionDrift,
    );
    let mut other = admission();
    other.admission_id = text("admission-2");
    assert!(sign(&mut claims, other, grant(), &plan("aa")).is_ok());
}

#[test]
fn accesses_are_held_once_in_order() {
    let accesses = vec![text("write"), text("read"), text("write")];
    let none: Vec<String> = vec![];
    let receipt = AccessWideningReceiptV1::new(&accesses, &accesses, &none, hash("01"));
    assert_eq!(receipt.requested, vec![text("read"), text("write")]);
    assert_eq!(receipt.effective, receipt.requested);
    assert!(receipt.unavoidable_widening.is_empty());
}

#[test]
fn blocked_extensions_are_not_restarted() {
    assert_eq!(check_restart_gate(true), Ok(()));
    assert_eq!(check_restart_gate(false), Err(ExtensionAdmissionErrorV1::ActiveBlocker));
    assert_eq!(
        extension_owner_scope("mcp_stdio", "search", 4),
        ResourceOwnerScopeV1::ExtensionProcess {
            extension_kind: text("mcp_stdio"),
            extension_id: text("search"),
            generation: 4,
        },
    );
}

#[test]
fn admission_errors_are_explained() {
    assert_eq!(
        ExtensionAdmissionErrorV1::DomainSinkUnavailable.message(),
        "no current-schema session or application control writer is available; failing closed",
    );
    assert_eq!(
        ExtensionAdmissionErrorV1::AskUnsupported.message(),
        "AskUnsupported is not supported on any surface in V1",
    );
    assert_eq!(
        ExtensionAdmissionErrorV1::ConfigGrantDrift.message(),
        "durable config grant is stale, revoked or hash-drifted",
    );
    assert_eq!(
        ExtensionAdmissionErrorV1::AdmissionDrift.message(),
        "config, executable, requirement, enforcement or authority generation drifted; replan \
         required",
    );
    assert_eq!(
        ExtensionAdmissionErrorV1::ActiveBlocker.message(),
        "active extension resource blocker is unresolved; no restart storm",
    );
}

#[test]
fn environments_have_one_digest_whatever_their_order() {
    let ordered = canonical_environment_digest(&vec![
        binding("HOME", "/root"),
        binding("PATH", "/bin"),
    ]);
    let reversed = canonical_environment_digest(&vec![
        binding("PATH", "/bin"),
        binding("HOME", "/root"),
    ]);
    assert_eq!(
        ordered.hex,
        "f637ef145b22bbecdb560b8f1eea14c1bdac599a4ab6fc73c1e4d432ff812270",
    );
    assert_eq!(ordered, reversed);
    assert_eq!(
        canonical_environment_digest(&vec![]).hex,
        "fe0d8ab047b8f70a30d8081b24d13942446070c39f40718846ddf84fe48bd380",
    );
}

#[test]
fn argument_bytes_are_counted_and_decoded() {
    assert_eq!(argv_encoded_bytes(&vec![bytes("cargo"), bytes(""), bytes("test")]), 9);
    let request = ManagedExecutionPlanRequestV1 {
        argv: vec![bytes("echo"), vec![0x61, 0xff, 0x62]],
        cwd_subject_ref: text("workspace"),
        purpose: ExecutionPurposeV1::OneShot,
        structured_command_digest: hash("01"),
        owner_scope: ResourceOwnerScopeV1::Named { name: text("session") },
        capture: ExecutionCapturePolicy {
            stdout_capture: CaptureModeV1::BoundedRing { max_bytes: 64 },
            stderr_capture: CaptureModeV1::NoCapture,
            pty: false,
        },
        limits: ExecutionResourceLimits {
            max_output_bytes: 64,
            max_runtime_ms: 1000,
            max_children: 1,
            max_fds: 16,
            pty_required: false,
        },
        environment: vec![],
    };
    assert_eq!(request.argv_bytes(), vec![bytes("echo"), bytes("a\u{fffd}b")]);
}

#[test]
fn a_final_stage_alone_verifies_nothing() {
    let all = PipelineOutcomeV1::AllStagesObserved { stage_statuses_digest: hash("04") };
    let last = PipelineOutcomeV1::FinalStageOnly { final_exit_code: 0 };
    let unsure = VerificationEvidenceV1::Insufficient {
        reason: VerificationEvidenceReasonV1::UpstreamStatusUnobserved,
    };
    assert!(check_receipt(all.clone(), VerificationEvidenceV1::Sufficient).verification_passed());
    assert!(check_receipt(PipelineOutcomeV1::NotPipeline, VerificationEvidenceV1::Sufficient)
        .verification_passed());
    assert!(!check_receipt(last, VerificationEvidenceV1::Sufficient).verification_passed());
    assert!(!check_receipt(all, unsure).verification_passed());
}

#[test]
fn execution_errors_are_explained() {
    assert_eq!(
        ManagedExecutionPlanErrorV1::ArgvDigestDrift.message(),
        "argv digest drifted from the resolved executable identity",
    );
    assert_eq!(
        ManagedExecutionPlanErrorV1::ResourcePlanSideEffect(text("mkdir")).message(),
        "resource plan is not side-effect-free: mkdir",
    );
    assert_eq!(
        ManagedExecutionPlanErrorV1::StaleResolverProof.message(),
        "toolchain resolver proof is stale; replan required",
    );
    assert_eq!(
        ManagedExecutionPlanErrorV1::SandboxPreviewUnavailable.message(),
        "sandbox preview cannot be produced for this request",
    );
    assert_eq!(
        ManagedExecutionErrorV1::AdmissionMismatch.message(),
        "execution admission bundle does not match the approved request",
    );
    assert_eq!(
        ManagedExecutionErrorV1::ExecutionPlanDrift.message(),
        "argv or structured command drifted after approval; replan required",
    );
    assert_eq!(
        ManagedExecutionErrorV1::ProviderUnavailable.message(),
        "sandbox provider is unavailable; refusing implicit Local fallback",
    );
    assert_eq!(
        ManagedExecutionErrorV1::ProcessOwnershipUnavailable(text("no cgroup")).message(),
        "process tree ownership is unavailable: no cgroup",
    );
    assert_eq!(
        ManagedExecutionErrorV1::ConfinementUnproven.message(),
        "required confinement not proven",
    );
    assert_eq!(
        ManagedExecutionErrorV1::OutcomeUncertain.message(),
        "process settlement is outcome-uncertain",
    );
    assert_eq!(
        ManagedProcessControlErrorV1::StreamAlreadyTaken.message(),
        "process output stream was already taken",
    );
    assert_eq!(
        ManagedProcessControlErrorV1::InvalidState { action: "write_stdin" }.message(),
        "process is not in a writable state for write_stdin",
    );
    assert_eq!(
        ManagedProcessControlErrorV1::StaleHandle.message(),
        "process handle is stale after supervisor restart",
    );
}
