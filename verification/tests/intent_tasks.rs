//! Intents that a task carries out: decompositions, task plans, promotions and evidence.

use sigil_kernel::integration::{
    IntegrationEffect, IntegrationPlanId, IntegrationPlanRecorded, IntegrationPromotionEffect,
    IntegrationPromotionRecorded, IntegrationPromotionStatus, IntegrationPromotionTarget,
    IntegrationProposalSpec,
};
use sigil_kernel::integration_plan::build_integration_plan;
use sigil_kernel::intent::{
    IntentApplicationState, IntentCriterionEvidenceLevel, IntentCriterionEvidenceV1, IntentDigest,
    IntentOperationErrorCode, IntentPlanProposalV1, IntentProposalCriterionV1,
    IntentProposalUnitV1, IntentStackId, IntentVerificationImpact, IntentVersionRef,
};
use sigil_kernel::intent::{IntentEventV1, IntentExecutionId, IntentTaskPlanBindingV1};
use sigil_kernel::intent_admission::{
    admit_suggested_decomposition, admit_user_declared_root, bind_task_plan_intents,
    IntentAcceptanceAuthorityV1, IntentPlanAdmissionV1,
};
use sigil_kernel::intent_drop::preview_intent_drop;
use sigil_kernel::intent_impact::preview_intent_revision;
use sigil_kernel::intent_stack::{append_chat_root_intent_admission, append_task_intent_plan_admission};
use sigil_kernel::intent_state::{
    IntentAdmissionContextV1, IntentLineageReadOnlyReasonV1, IntentRevisionProposalV1,
    TaskStepIntentAliasBindingV1, UserDeclaredIntentV1,
};
use sigil_kernel::lineage_append::{
    append_intent_changeset_binding, append_intent_verification_evidence,
    append_task_intent_execution_binding,
};
use sigil_kernel::records::{
    ChangeSet, ChangeSetFile, ChangeSetFileAction, ChangeSetResult, ChangeSetResultStatus,
    ChangeSetRisk, ControlEntry, FileType, IntentCriterionScope, MutationBatchFinished,
    MutationBatchStarted, MutationBatchStatus, MutationCommitted, MutationPrepared,
    MutationSubject, ReceiptStatus, RecordBody, Session, SessionStreamRecord, SnapshotCoverage,
    TaskParticipantAttemptEntry, TaskParticipantAttemptStatus, TaskParticipantPurpose,
    TaskPlanEntry, TaskPlanState, TaskPlanStatus, TaskState, TaskStateProjection, TaskStepMode,
    TaskStepSpec, VerificationCheckSpec, VerificationPolicyChangedEntry, VerificationReceipt,
    WorkspaceMutationDetected,
};
use sigil_kernel::value::KernelError;

struct Stream {
    records: Vec<SessionStreamRecord>,
    tasks: TaskStateProjection,
}

impl Stream {
    fn push(&mut self, body: RecordBody) -> String {
        let stream_sequence = self.records.len() as u64 + 1;
        let event_id = format!("event-{stream_sequence}");
        self.records.push(SessionStreamRecord {
            event_id: event_id.clone(),
            session_id: text("session-1"),
            stream_sequence,
            body,
        });
        event_id
    }

    fn control(&mut self, entry: ControlEntry) -> String {
        self.push(RecordBody::Control(entry))
    }

    fn append(&mut self, events: Vec<IntentEventV1>, entries: Vec<ControlEntry>) {
        for event in events {
            self.push(RecordBody::Intent(event));
        }
        for entry in entries {
            self.control(entry);
        }
    }

    fn session(&self) -> Session {
        Session {
            session_scope_id: text("session-1"),
            durable_records: Some(self.records.clone()),
            tasks: self.tasks.clone(),
        }
    }
}

fn text(value: &str) -> String {
    value.to_owned()
}

fn texts(values: &[&str]) -> Vec<String> {
    values.iter().map(|value| text(value)).collect()
}

fn why<T>(result: Result<T, KernelError>) -> String {
    match result {
        Ok(_) => text("accepted"),
        Err(error) => error.message,
    }
}

fn policy() -> IntentDigest {
    IntentDigest::new(format!("sha256:jcs-v1:{}", "5".repeat(64))).unwrap()
}

fn unit(alias: &str, depends_on: &[&str]) -> IntentProposalUnitV1 {
    IntentProposalUnitV1 {
        intent_alias: text(alias),
        title: text("Title"),
        statement: text("Statement"),
        acceptance_criteria: vec![IntentProposalCriterionV1 {
            criterion_alias: text("done"),
            statement: text("It holds"),
            required: true,
        }],
        depends_on_aliases: texts(depends_on),
    }
}

fn context() -> IntentAdmissionContextV1 {
    IntentAdmissionContextV1::initial(
        IntentStackId::new(text("stack-1")).unwrap(),
        text("workspace-1"),
        text("session-1"),
    )
    .unwrap()
}

fn proposal() -> IntentPlanProposalV1 {
    IntentPlanProposalV1::new(
        text("proposal-1"),
        text("turn-1"),
        vec![unit("base", &[]), unit("top", &["base"])],
    )
    .unwrap()
}

fn confirmation(turn: &str) -> IntentAcceptanceAuthorityV1 {
    IntentAcceptanceAuthorityV1::explicit_user_confirmation(
        text(turn),
        text("authority-1"),
        proposal().proposal_digest,
    )
    .unwrap()
}

fn admission() -> IntentPlanAdmissionV1 {
    admit_suggested_decomposition(&context(), &proposal(), &confirmation("turn-1")).unwrap()
}

fn intent(alias: &str) -> IntentVersionRef {
    admission().intent_ref_for_alias(alias).unwrap().clone()
}

fn step(id: &str, mode: TaskStepMode) -> TaskStepSpec {
    TaskStepSpec { step_id: text(id), mode, intent_refs: vec![] }
}

fn task_plan() -> TaskPlanEntry {
    TaskPlanEntry {
        task_id: text("task-1"),
        plan_version: 1,
        status: TaskPlanStatus::Accepted,
        steps: vec![step("step-1", TaskStepMode::Write), step("step-2", TaskStepMode::Read)],
        reason: None,
        graph_validation_error: None,
    }
}

fn alias_binding(step: &str, aliases: &[&str]) -> TaskStepIntentAliasBindingV1 {
    TaskStepIntentAliasBindingV1 { step_id: text(step), intent_aliases: texts(aliases) }
}

fn bound_plan() -> TaskPlanEntry {
    bind_task_plan_intents(
        &admission(),
        task_plan(),
        &vec![alias_binding("step-1", &["base"]), alias_binding("step-2", &["base", "top"])],
    )
    .unwrap()
}

fn live_tasks() -> TaskStateProjection {
    TaskStateProjection {
        tasks: vec![TaskState {
            task_id: text("task-1"),
            participant_conflicts: 0,
            plans: vec![TaskPlanState {
                plan_version: 1,
                status: TaskPlanStatus::Accepted,
                steps: bound_plan().steps,
                reason: None,
                graph_validation_error: None,
            }],
        }],
    }
}

fn admitted() -> Stream {
    let mut stream = Stream { records: vec![], tasks: TaskStateProjection { tasks: vec![] } };
    let made =
        append_task_intent_plan_admission(&stream.session(), &admission(), bound_plan()).unwrap();
    assert!(made.outcome.appended && made.record_live);
    stream.append(made.events, made.entries);
    stream.tasks = live_tasks();
    stream
}

fn attempt(step: &str, status: TaskParticipantAttemptStatus) -> ControlEntry {
    ControlEntry::TaskParticipantAttempt(TaskParticipantAttemptEntry {
        attempt_id: text("attempt-1"),
        task_id: text("task-1"),
        plan_version: Some(1),
        step_id: Some(text(step)),
        status,
        purpose: TaskParticipantPurpose::Step,
    })
}

fn bind_execution(stream: &Stream, step: &str, alias: &str) -> Result<IntentExecutionId, KernelError> {
    append_task_intent_execution_binding(
        &stream.session(),
        intent(alias),
        "task-1",
        1,
        step,
        "attempt-1",
    )
    .map(|made| made.outcome.execution_id.unwrap())
}

fn executing() -> (Stream, IntentExecutionId) {
    let mut stream = admitted();
    stream.control(attempt("step-1", TaskParticipantAttemptStatus::Started));
    let made = append_task_intent_execution_binding(
        &stream.session(),
        intent("base"),
        "task-1",
        1,
        "step-1",
        "attempt-1",
    )
    .unwrap();
    let execution = made.outcome.execution_id.clone().unwrap();
    stream.append(made.events, made.entries);
    (stream, execution)
}

fn subject() -> MutationSubject {
    MutationSubject::File {
        path: text("src/a.rs"),
        portable_path: Some(text("src/a.rs")),
        normalized: true,
        file_type: FileType::File,
    }
}

fn proposed() -> ControlEntry {
    ControlEntry::ChangeSetProposed(ChangeSet {
        id: text("cs-1"),
        title: text("Change"),
        summary: text("A change"),
        risk: ChangeSetRisk::Low,
        files: vec![ChangeSetFile {
            path: text("src/a.rs"),
            previous_path: None,
            action: ChangeSetFileAction::Update,
            risk: ChangeSetRisk::Low,
            before_hash: Some(text("hash-a")),
            after_hash: Some(text("hash-b")),
            diff_hash: None,
            additions: 1,
            deletions: 1,
            validations: vec![],
        }],
        validations: vec![],
    })
}

fn promotion(target: IntegrationPromotionTarget, effect: IntegrationPromotionEffect) -> ControlEntry {
    ControlEntry::IntegrationPromotionRecorded(IntegrationPromotionRecorded {
        plan_id: IntegrationPlanId::new(text("plan-1")).unwrap(),
        status: IntegrationPromotionStatus::Promoted,
        preview_digest: text("digest"),
        target,
        effect: Some(effect),
        reason: None,
    })
}

fn applied_to_workspace() -> ControlEntry {
    promotion(
        IntegrationPromotionTarget::WorkspaceApply {
            expected_snapshot_id: text("snapshot-1"),
            expected_revision: 1,
        },
        IntegrationPromotionEffect::WorkspaceApplied {
            promoted_snapshot_id: text("snapshot-2"),
            promoted_revision: 2,
        },
    )
}

/// Proposes the change set of an execution, applies it in a batch and records its promotion.
fn promoted(promotion: ControlEntry) -> (Stream, IntentExecutionId) {
    let (mut stream, execution) = executing();
    stream.control(proposed());
    stream.push(RecordBody::MutationBatchStarted(MutationBatchStarted {
        batch_id: text("batch-1"),
        operation_id: text("apply-1"),
        expected_subjects: vec![subject()],
        prepared_digest: None,
        approval_identity: None,
        policy_fingerprint: None,
    }));
    stream.push(RecordBody::MutationPrepared(MutationPrepared {
        operation_id: text("op-1"),
        batch_id: Some(text("batch-1")),
        workspace_id: text("workspace-1"),
        base_workspace_revision: 1,
        subject: subject(),
        before_hash: Some(text("hash-a")),
        intended_after_hash: Some(text("hash-b")),
        tool_call_id: None,
        snapshot_coverage: SnapshotCoverage::Captured(text("captured-1")),
    }));
    stream.push(RecordBody::MutationCommitted(MutationCommitted {
        operation_id: text("op-1"),
        batch_id: Some(text("batch-1")),
        workspace_id: Some(text("workspace-1")),
        committed_subject: subject(),
        observed_after_hash: Some(text("hash-b")),
        workspace_snapshot_id: text("snapshot-2"),
        workspace_revision: 2,
    }));
    stream.push(RecordBody::MutationBatchFinished(MutationBatchFinished {
        batch_id: text("batch-1"),
        status: MutationBatchStatus::Applied,
        committed_operations: texts(&["op-1"]),
        failed_operations: vec![],
        prepared_digest: None,
        approval_identity: None,
        policy_fingerprint: None,
    }));
    stream.control(ControlEntry::ChangeSetApplied(ChangeSetResult {
        id: text("cs-1"),
        status: ChangeSetResultStatus::Applied,
        file_results: vec![],
        message: None,
    }));
    let plan = build_integration_plan(
        IntegrationPlanId::new(text("plan-1")).unwrap(),
        text("task-1"),
        1,
        vec![IntegrationProposalSpec {
            change_set_id: text("cs-1"),
            step_id: text("step-1"),
            base_snapshot_id: text("snapshot-1"),
            changed_paths: texts(&["src/a.rs"]),
            depends_on: vec![],
            generated_artifacts: vec![],
            effect: IntegrationEffect::Files,
            verification_scope_hash: text("scope"),
        }],
    )
    .unwrap();
    stream.control(ControlEntry::IntegrationPlanRecorded(IntegrationPlanRecorded { plan }));
    stream.control(promotion);
    let made =
        append_intent_changeset_binding(&stream.session(), &execution, texts(&["cs-1"])).unwrap();
    assert!(made.outcome.appended);
    stream.append(made.events, made.entries);
    (stream, execution)
}

fn receipt(status: ReceiptStatus) -> ControlEntry {
    ControlEntry::VerificationRecorded(VerificationReceipt {
        receipt_id: text("receipt-1"),
        status,
        policy_hash: Some(text(policy().as_str())),
        check_spec_id: text("check-1"),
        check_spec_hash: text("check-hash"),
        check_status: status,
        mutates_verification_scope: false,
        workspace_snapshot_id: text("snapshot-2"),
        execution_backend: Some(text("local")),
        source_identity_error: None,
    })
}

fn verified(status: ReceiptStatus) -> (Stream, IntentCriterionEvidenceV1) {
    let (mut stream, _) = promoted(applied_to_workspace());
    let criterion_id = admission().plan().intents[0].acceptance_criteria[0].criterion_id.clone();
    stream.control(ControlEntry::VerificationPolicyChanged(VerificationPolicyChangedEntry {
        policy_hash: text(policy().as_str()),
        stable_hash: text(policy().as_str()),
        required_checks: vec![VerificationCheckSpec {
            check_spec_id: text("check-1"),
            check_spec_hash: text("check-hash"),
            intent_criteria: vec![IntentCriterionScope {
                intent_ref: intent("base"),
                criterion_id: criterion_id.clone(),
            }],
            shape_error: None,
        }],
    }));
    let source_event_id = stream.control(receipt(status));
    let evidence = IntentCriterionEvidenceV1 {
        intent_ref: intent("base"),
        criterion_id,
        level: IntentCriterionEvidenceLevel::SystemVerified,
        receipt_id: text("receipt-1"),
        parent_snapshot_id: text("snapshot-2"),
        verification_policy_digest: policy(),
        changeset_ids: texts(&["cs-1"]),
        source_event_id,
    };
    (stream, evidence)
}

#[test]
fn suggestions_need_the_exact_confirmation() {
    let made = admission();
    assert_eq!(made.plan().intents.len(), 2);
    assert_eq!(made.plan().intents[1].depends_on, vec![intent("base").intent_id]);
    assert_ne!(intent("base").intent_id.as_str(), "base");
    let refusal = "suggested decomposition requires explicit authority for the exact proposal";
    assert_eq!(
        why(admit_suggested_decomposition(&context(), &proposal(), &confirmation("turn-2"))),
        refusal,
    );
    let root = IntentAcceptanceAuthorityV1::user_declared_root(text("turn-1"), text("event")).unwrap();
    assert_eq!(why(admit_suggested_decomposition(&context(), &proposal(), &root)), refusal);
    let other = IntentPlanProposalV1::new(text("p"), text("turn-1"), vec![unit("x", &[])]).unwrap();
    assert_eq!(
        why(admit_suggested_decomposition(&context(), &other, &confirmation("turn-1"))),
        refusal,
    );
    assert_eq!(
        why(IntentAcceptanceAuthorityV1::user_declared_root(text(""), text("event"))),
        "intent acceptance source turn id is invalid",
    );
    assert_eq!(
        why(IntentAdmissionContextV1::initial(
            IntentStackId::new(text("stack-1")).unwrap(),
            text(" "),
            text("session-1"),
        )),
        "intent admission workspace id is invalid",
    );
}

#[test]
fn roots_need_the_original_turn() {
    let root = |aliases: &[&str]| UserDeclaredIntentV1 {
        title: text("Root"),
        statement: text("Do it"),
        acceptance_criteria: aliases
            .iter()
            .map(|alias| IntentProposalCriterionV1 {
                criterion_alias: text(alias),
                statement: text("It holds"),
                required: true,
            })
            .collect(),
    };
    let original =
        IntentAcceptanceAuthorityV1::user_declared_root(text("turn-1"), text("event-1")).unwrap();
    let declare = |root: UserDeclaredIntentV1| why(admit_user_declared_root(&context(), root, &original));
    assert_eq!(declare(root(&["a", "b"])), "accepted");
    assert_eq!(
        why(admit_user_declared_root(&context(), root(&["a"]), &confirmation("turn-1"))),
        "user-declared root admission requires original user-turn authority",
    );
    assert_eq!(declare(root(&[])), "user-declared root requires at least one acceptance criterion");
    assert_eq!(
        declare(root(&["a", "a"])),
        "user-declared root contains duplicate criterion aliases",
    );
    assert_eq!(
        declare(root(&["a b"])),
        "intent root criterion alias is not a stable local alias",
    );
    let untitled = UserDeclaredIntentV1 { title: text(""), ..root(&["a"]) };
    assert_eq!(declare(untitled), "intent root title is invalid");
}

#[test]
fn write_steps_bind_one_intent() {
    let bound = bound_plan();
    assert_eq!(bound.steps[0].intent_refs, vec![intent("base")]);
    assert_eq!(bound.steps[1].intent_refs, vec![intent("base"), intent("top")]);
    let refused = |bindings: Vec<TaskStepIntentAliasBindingV1>| {
        why(bind_task_plan_intents(&admission(), task_plan(), &bindings))
    };
    assert_eq!(
        refused(vec![]),
        "Intent-enabled write task step step-1 must bind exactly one accepted intent",
    );
    assert_eq!(
        refused(vec![alias_binding("step-1", &["base", "top"])]),
        "Intent-enabled write task step step-1 must bind exactly one accepted intent",
    );
    assert_eq!(
        refused(vec![alias_binding("step-1", &["base"]), alias_binding("step-1", &["top"])]),
        "task step step-1 has more than one intent alias mapping",
    );
    assert_eq!(
        refused(vec![alias_binding("step-1", &["base", "base"])]),
        "task step step-1 repeats intent alias base",
    );
    assert_eq!(
        refused(vec![alias_binding("step-1", &["other"])]),
        "task step references unknown intent alias other",
    );
    assert_eq!(
        refused(vec![alias_binding("step-1", &["base"]), alias_binding("step-9", &["top"])]),
        "intent alias mapping references unknown task step step-9",
    );
}

#[test]
fn task_plans_are_admitted_with_their_intents() {
    let stream = admitted();
    let projection = stream.session().intent_stack_projection().unwrap();
    let accepted = projection.latest_accepted_plan().unwrap();
    assert_eq!(
        accepted.task_plan_binding,
        Some(IntentTaskPlanBindingV1 { task_id: text("task-1"), task_plan_version: 1 }),
    );
    let again =
        append_task_intent_plan_admission(&stream.session(), &admission(), bound_plan()).unwrap();
    assert!(!again.outcome.appended && !again.record_live);
    let draft = TaskPlanEntry { status: TaskPlanStatus::Draft, ..bound_plan() };
    assert_eq!(
        why(append_task_intent_plan_admission(&stream.session(), &admission(), draft)),
        "IntentPlan task admission requires an accepted TaskPlan",
    );
    let unbound = Stream { records: vec![], tasks: TaskStateProjection { tasks: vec![] } };
    assert_eq!(
        why(append_chat_root_intent_admission(&unbound.session(), &admission())),
        "Chat admission only accepts the original user-declared root",
    );
}

#[test]
fn unfinished_acceptances_wait_for_their_plan() {
    let mut stream = Stream { records: vec![], tasks: TaskStateProjection { tasks: vec![] } };
    let made =
        append_task_intent_plan_admission(&stream.session(), &admission(), bound_plan()).unwrap();
    stream.append(made.events, vec![]);
    let projection = stream.session().intent_stack_projection().unwrap();
    assert!(projection.has_incomplete_task_acceptance());
    assert!(projection.latest_accepted_plan().is_none());
    assert_eq!(
        why(projection.public_state()),
        "IntentPlan admission is incomplete and cannot be rendered as accepted",
    );
    assert_eq!(
        why(append_task_intent_plan_admission(&stream.session(), &admission(), bound_plan())),
        "an incomplete task-bound IntentPlan admission requires recovery",
    );
    let mut followed = Stream { records: stream.records.clone(), tasks: stream.tasks.clone() };
    followed.push(RecordBody::Control(ControlEntry::TaskPlan(bound_plan())));
    let complete = followed.session().intent_stack_projection().unwrap();
    assert!(!complete.has_incomplete_task_acceptance());
    assert_eq!(&complete.latest_accepted_plan().unwrap().plan, admission().plan());
    stream.push(RecordBody::Unrelated);
    assert_eq!(
        why(stream.session().intent_stack_projection()),
        "task-bound IntentPlan acceptance was not followed by its TaskPlan record",
    );
}

#[test]
fn task_executions_match_their_step() {
    let (stream, execution) = executing();
    assert_eq!(bind_execution(&stream, "step-1", "base"), Ok(execution));
    assert_eq!(
        why(bind_execution(&stream, "step-2", "base")),
        "Task Intent execution has no exact started participant attempt",
    );
    assert_eq!(
        why(bind_execution(&stream, "step-1", "top")),
        "Task Intent execution is not declared by its TaskPlan step",
    );
}

#[test]
fn promoted_change_sets_are_parent_lineage() {
    let (stream, execution) = promoted(applied_to_workspace());
    let lineage = stream.session().intent_lineage_projection().unwrap();
    let bound = lineage.execution(&execution).unwrap();
    assert_eq!(bound.changeset_ids, texts(&["cs-1"]));
    assert_eq!(bound.parent_snapshot_id, Some(text("snapshot-2")));
    assert_eq!(bound.read_only_reason, None);
    let again = append_intent_changeset_binding(&stream.session(), &execution, texts(&["cs-1"]));
    assert!(!again.unwrap().outcome.appended);
    assert_eq!(
        why(append_intent_changeset_binding(&stream.session(), &execution, vec![])),
        "Intent execution requires at least one ChangeSet",
    );
    assert_eq!(
        why(append_intent_changeset_binding(&stream.session(), &execution, texts(&["cs-2"]))),
        "Intent ChangeSet binding references an unknown proposal",
    );
}

#[test]
fn git_promotions_stay_read_only() {
    let (stream, execution) = promoted(promotion(
        IntegrationPromotionTarget::GitRefAdvance {
            target_ref: text("refs/heads/main"),
            expected_old_oid: text("aa"),
            candidate_oid: text("bb"),
        },
        IntegrationPromotionEffect::GitRefAdvanced { old_oid: text("aa"), new_oid: text("bb") },
    ));
    let lineage = stream.session().intent_lineage_projection().unwrap();
    assert_eq!(
        lineage.execution(&execution).unwrap().read_only_reason,
        Some(IntentLineageReadOnlyReasonV1::GitRefAdvance),
    );
}

#[test]
fn system_evidence_counts_while_it_is_current() {
    let (mut stream, evidence) = verified(ReceiptStatus::Succeeded);
    let made = append_intent_verification_evidence(&stream.session(), vec![evidence.clone()]).unwrap();
    assert!(made.outcome.appended);
    stream.append(made.events, made.entries);
    let lineage = stream.session().intent_lineage_projection().unwrap();
    let summary = lineage.summary_for(&intent("base"));
    assert_eq!(summary.system_verified_criterion_count, 1);
    assert_eq!(summary.application_state, Some(IntentApplicationState::NeedsReview));
    assert_eq!(
        lineage.current_system_verification_receipt_ids(&intent("base")),
        texts(&["receipt-1"]),
    );
    let again = append_intent_verification_evidence(&stream.session(), vec![evidence]).unwrap();
    assert!(!again.outcome.appended);
    let preview = preview_intent_drop(
        &stream.session(),
        "workspace-1",
        2,
        Some(&vec![]),
        &vec![],
        &intent("base"),
    )
    .unwrap();
    let impacts: Vec<IntentVerificationImpact> =
        preview.verification_impacts.iter().map(|impact| impact.impact).collect();
    assert_eq!(
        impacts,
        vec![IntentVerificationImpact::BecomesStale, IntentVerificationImpact::RerunRequired],
    );
    stream.push(RecordBody::WorkspaceMutation(WorkspaceMutationDetected {
        workspace_id: text("workspace-1"),
        to_workspace_snapshot_id: Some(text("snapshot-3")),
        unknown_dirty: false,
    }));
    let stale = stream.session().intent_lineage_projection().unwrap();
    let summary = stale.summary_for(&intent("base"));
    assert_eq!(summary.system_verified_criterion_count, 0);
    assert_eq!(summary.application_state, Some(IntentApplicationState::ReadOnly));
    assert_eq!(
        summary.read_only_reason,
        Some(IntentLineageReadOnlyReasonV1::StaleParentSnapshot),
    );
    assert!(stale.current_system_verification_receipt_ids(&intent("base")).is_empty());
}

#[test]
fn bound_executions_are_read_back() {
    let (stream, execution) = executing();
    let lineage = stream.session().intent_lineage_projection().unwrap();
    assert_eq!(lineage.executions.len(), 1);
    let bound = lineage.execution(&execution).unwrap();
    assert_eq!(bound.binding.intent_ref, intent("base"));
    assert_eq!(bound.binding_event_id, "event-6");
    assert_eq!(bound.binding_stream_sequence, 6);
    assert_eq!(
        bound.read_only_reason,
        Some(IntentLineageReadOnlyReasonV1::MissingChangeSet),
    );
}

#[test]
fn evidence_speaks_for_the_execution_before() {
    let (mut stream, evidence) = verified(ReceiptStatus::Succeeded);
    let linked = append_intent_verification_evidence(&stream.session(), vec![evidence]).unwrap();
    stream.append(linked.events, linked.entries);
    stream.control(ControlEntry::TaskParticipantAttempt(TaskParticipantAttemptEntry {
        attempt_id: text("attempt-2"),
        task_id: text("task-1"),
        plan_version: Some(1),
        step_id: Some(text("step-1")),
        status: TaskParticipantAttemptStatus::Started,
        purpose: TaskParticipantPurpose::Step,
    }));
    let again = append_task_intent_execution_binding(
        &stream.session(),
        intent("base"),
        "task-1",
        1,
        "step-1",
        "attempt-2",
    )
    .unwrap();
    assert!(again.outcome.appended);
    stream.append(again.events, again.entries);
    assert_eq!(
        why(stream.session().intent_lineage_projection()),
        "system Intent evidence does not bind the execution parent snapshot",
    );
}

#[test]
fn forged_evidence_is_refused() {
    let (stream, evidence) = verified(ReceiptStatus::Succeeded);
    let refused = |item: IntentCriterionEvidenceV1| {
        why(append_intent_verification_evidence(&stream.session(), vec![item]))
    };
    assert_eq!(
        why(append_intent_verification_evidence(&stream.session(), vec![])),
        "Intent verification link requires evidence",
    );
    assert_eq!(
        refused(IntentCriterionEvidenceV1 { receipt_id: text("receipt-2"), ..evidence.clone() }),
        "Intent verification source event has no matching receipt",
    );
    assert_eq!(
        refused(IntentCriterionEvidenceV1 {
            parent_snapshot_id: text("snapshot-9"),
            ..evidence.clone()
        }),
        "Intent verification evidence does not match its receipt snapshot",
    );
    assert_eq!(
        refused(IntentCriterionEvidenceV1 { intent_ref: intent("top"), ..evidence.clone() }),
        "Intent verification evidence has no execution binding",
    );
    assert_eq!(
        refused(IntentCriterionEvidenceV1 { changeset_ids: texts(&["cs-2"]), ..evidence }),
        "Intent verification evidence does not match execution ChangeSets",
    );
    let (failed, evidence) = verified(ReceiptStatus::Failed);
    assert_eq!(
        why(append_intent_verification_evidence(&failed.session(), vec![evidence])),
        "system Intent evidence receipt is not successful and parent-bound",
    );
}

#[test]
fn depended_intents_are_not_dropped() {
    let preview = preview_intent_drop(
        &admitted().session(),
        "workspace-1",
        2,
        Some(&vec![]),
        &vec![],
        &intent("base"),
    )
    .unwrap();
    assert!(!preview.target_is_leaf);
    assert_eq!(preview.retained_intents, vec![intent("top")]);
    let codes: Vec<IntentOperationErrorCode> =
        preview.conflicts.iter().map(|conflict| conflict.code).collect();
    assert_eq!(
        codes,
        vec![
            IntentOperationErrorCode::MissingExecutionLineage,
            IntentOperationErrorCode::TargetNotLeaf,
        ],
    );
}

#[test]
fn revisions_reach_their_dependents() {
    let proposal = IntentRevisionProposalV1::new(
        text("revision-1"),
        text("turn-2"),
        intent("base"),
        text("Base, again"),
        text("Statement"),
        unit("base", &[]).acceptance_criteria,
        vec![],
    )
    .unwrap();
    let preview =
        preview_intent_revision(&admitted().session(), "workspace-1", Some(2), &proposal).unwrap();
    assert_eq!(preview.operation.target_intents, vec![intent("base"), intent("top")]);
    assert!(!preview.operation.target_is_leaf);
    let states: Vec<IntentApplicationState> =
        preview.application_impacts.iter().map(|impact| impact.application_state).collect();
    assert_eq!(
        states,
        vec![IntentApplicationState::NeedsRebuild, IntentApplicationState::NeedsReview],
    );
}
