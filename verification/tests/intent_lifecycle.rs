//! The life of an intent in a durable stream: admitted, executed, layered, dropped, recovered,
//! revised and adopted.

use sigil_kernel::drop_execution::{
    append_conflicted_operation, append_operation_requested, append_unique_operation_event,
    execute_intent_drop, DropActionV1, DropEventV1, IntentDropRunV1, IntentDropStartV1,
};
use sigil_kernel::intent::{
    IntentApplicationState, IntentArtifactAvailability, IntentArtifactOwnership,
    IntentAuthorityState, IntentContentDigest, IntentDigest, IntentEventV1, IntentExecutionId,
    IntentOperationErrorCode, IntentOperationFileAction, IntentOperationId, IntentOperationKind,
    IntentOperationPreviewV1, IntentOperationResolution, IntentProposalCriterionV1, IntentStackId,
    IntentStackVersion, IntentVersionRef, PublicIntentStackStateV1,
};
use sigil_kernel::intent_admission::{
    admit_user_declared_root, IntentAcceptanceAuthorityV1, IntentPlanAdmissionV1,
};
use sigil_kernel::intent_drop::{
    preview_intent_drop, DropTargetObservationV1, DropTargetStateV1,
};
use sigil_kernel::intent_impact::{preview_intent_replace, preview_intent_revision};
use sigil_kernel::intent_layer::ArtifactContentV1;
use sigil_kernel::intent_lineage::IntentLineageProjectionV1;
use sigil_kernel::intent_operation::{IntentOperationAuthorityV1, IntentOperationProjectionV1};
use sigil_kernel::intent_revision::{
    accept_intent_revision, adopt_forked_intent_stack, IntentAdoptionAuthorityV1,
    IntentRevisionAuthorityV1,
};
use sigil_kernel::intent_stack::{append_chat_root_intent_admission, IntentStackProjectionV1};
use sigil_kernel::intent_state::{
    IntentAdmissionContextV1, IntentDropRequestV1, IntentLayerProjectionV1,
    IntentLayerReadOnlyReasonV1, IntentLayerSummaryV1, IntentLineageReadOnlyReasonV1,
    IntentLineageSummaryV1, IntentOperationStateV1, IntentRevisionProposalV1,
    UserDeclaredIntentV1,
};
use sigil_kernel::json::Encode;
use sigil_kernel::layer_materialization::{
    append_layer_pair, materialize_intent_layer, paths_to_observe, IntentFileObservationV1,
    IntentLayerDraftV1, IntentLayerMaterializationV1, WorkspaceFileStateV1,
};
use sigil_kernel::lineage_append::{
    append_chat_direct_mutation_changeset_binding, append_chat_intent_execution_binding,
};
use sigil_kernel::operation_recovery::{
    cancel_intent_operation, checkpoint_intent_conflict_paths,
    intent_operation_mutation_operation_ids, reconcile_intent_operations,
};
use sigil_kernel::records::{
    AgentRunAttemptStartedEntry, ControlEntry, ConversationForked, FileType,
    MutationArtifactLifecycleRecorded, MutationArtifactLifecycleStatus, MutationBatchStatus, MutationCommitted, MutationPrepared,
    MutationResolution, MutationSubject, RecordBody, Session, SessionStreamRecord,
    SnapshotCoverage, TaskStateProjection, WorkspaceMutationDetected,
};
use sigil_kernel::value::KernelError;

const BEFORE: &str = "fn old() {}\n";
const AFTER: &str = "fn new() {}\n";
const PATH: &str = "src/lib.rs";
const INTENT: &str = "intent-1f1aa8951d2e2a6fc8f6a801793f2574c6ae249454bc4a240e9d57300246bbbb";
const EXECUTION: &str = "execution-69fcacd0a12d7b1b36995cb2";
const OPERATION: &str = "intent-drop-676fcc09-5cf6-5b81-8c65-2e23d59d28e8";
const BATCH: &str = "intent-drop-batch-7f04d9b8-1757-5905-9d94-71ad8bac4e46";

struct Stream {
    session: String,
    records: Vec<SessionStreamRecord>,
}

impl Stream {
    fn new(session: &str) -> Stream {
        Stream { session: text(session), records: vec![] }
    }

    fn push(&mut self, body: RecordBody) -> String {
        let stream_sequence = self.records.len() as u64 + 1;
        let event_id = format!("event-{stream_sequence}");
        self.records.push(SessionStreamRecord {
            event_id: event_id.clone(),
            session_id: self.session.clone(),
            stream_sequence,
            body,
        });
        event_id
    }

    fn append(&mut self, events: Vec<IntentEventV1>, entries: Vec<ControlEntry>) {
        for event in events {
            self.push(RecordBody::Intent(event));
        }
        for entry in entries {
            self.push(RecordBody::Control(entry));
        }
    }

    fn session(&self) -> Session {
        Session {
            session_scope_id: self.session.clone(),
            durable_records: Some(self.records.clone()),
            tasks: TaskStateProjection { tasks: vec![] },
        }
    }
}

fn text(value: &str) -> String {
    value.to_owned()
}

fn why<T>(result: Result<T, KernelError>) -> String {
    match result {
        Ok(_) => text("accepted"),
        Err(error) => error.message,
    }
}

fn hash(value: &str) -> String {
    text(IntentContentDigest::from_bytes(value.as_bytes()).as_str())
}

fn digest(last: char) -> IntentDigest {
    IntentDigest::new(format!("sha256:jcs-v1:{}{last}", "0".repeat(63))).unwrap()
}

fn criterion(statement: &str) -> IntentProposalCriterionV1 {
    IntentProposalCriterionV1 {
        criterion_alias: text("done"),
        statement: text(statement),
        required: true,
    }
}

fn admission() -> IntentPlanAdmissionV1 {
    let context = IntentAdmissionContextV1::initial(
        IntentStackId::new(text("stack-1")).unwrap(),
        text("workspace-1"),
        text("session-1"),
    )
    .unwrap();
    let root = UserDeclaredIntentV1 {
        title: text("Root"),
        statement: text("Rename the function"),
        acceptance_criteria: vec![criterion("It is renamed")],
    };
    let authority =
        IntentAcceptanceAuthorityV1::user_declared_root(text("turn-1"), text("authority-1"))
            .unwrap();
    admit_user_declared_root(&context, root, &authority).unwrap()
}

fn target() -> IntentVersionRef {
    admission().plan().intents[0].intent_ref.clone()
}

fn execution() -> IntentExecutionId {
    IntentExecutionId::new(text(EXECUTION)).unwrap()
}

fn subject(path: &str) -> MutationSubject {
    MutationSubject::File {
        path: text(path),
        portable_path: Some(text(path)),
        normalized: true,
        file_type: FileType::File,
    }
}

fn prepared(operation: &str, batch: Option<&str>, from: &str, to: &str, call: Option<&str>) -> RecordBody {
    RecordBody::MutationPrepared(MutationPrepared {
        operation_id: text(operation),
        batch_id: batch.map(text),
        workspace_id: text("workspace-1"),
        base_workspace_revision: 4,
        subject: subject(PATH),
        before_hash: Some(hash(from)),
        intended_after_hash: Some(hash(to)),
        tool_call_id: call.map(text),
        snapshot_coverage: SnapshotCoverage::Captured(text("captured-1")),
    })
}

fn committed(operation: &str, batch: Option<&str>, to: &str, snapshot: &str) -> RecordBody {
    RecordBody::MutationCommitted(MutationCommitted {
        operation_id: text(operation),
        batch_id: batch.map(text),
        workspace_id: Some(text("workspace-1")),
        committed_subject: subject(PATH),
        observed_after_hash: Some(hash(to)),
        workspace_snapshot_id: text(snapshot),
        workspace_revision: 5,
    })
}

fn rooted() -> Stream {
    let mut stream = Stream::new("session-1");
    let made = append_chat_root_intent_admission(&stream.session(), &admission()).unwrap();
    assert!(made.outcome.appended);
    stream.append(made.events, made.entries);
    stream
}

fn started() -> Stream {
    let mut stream = rooted();
    stream.push(RecordBody::Control(ControlEntry::AgentRunAttemptStarted(
        AgentRunAttemptStartedEntry {
            thread_id: text("run-1"),
            attempt_id: text("attempt-1"),
            background: false,
        },
    )));
    let made = append_chat_intent_execution_binding(
        &stream.session(),
        target(),
        "run-1",
        "turn-1",
        "attempt-1",
    )
    .unwrap();
    assert_eq!(made.outcome.execution_id, Some(execution()));
    stream.append(made.events, made.entries);
    stream
}

fn changed() -> Stream {
    let mut stream = started();
    let first = stream.push(prepared("op-1", None, BEFORE, AFTER, None));
    let second = stream.push(committed("op-1", None, AFTER, "snapshot-1"));
    let made = append_chat_direct_mutation_changeset_binding(
        &stream.session(),
        &execution(),
        &first,
        &second,
    )
    .unwrap();
    assert!(made.outcome.appended);
    stream.append(made.events, made.entries);
    stream
}

fn completed() -> Stream {
    let mut stream = changed();
    stream.push(RecordBody::RunFinalized { run_id: text("run-1"), succeeded: true });
    stream
}

fn observation() -> IntentFileObservationV1 {
    IntentFileObservationV1 {
        path: text(PATH),
        absolute_path: format!("/work/{PATH}"),
        sensitive_path: false,
        captured: Some(BEFORE.as_bytes().to_vec()),
        parent_inside_workspace: true,
        state: WorkspaceFileStateV1::Plain {
            size: AFTER.len() as u64,
            inside_workspace: true,
            content: AFTER.as_bytes().to_vec(),
        },
        secret_before: false,
        secret_after: false,
        failure: None,
    }
}

fn materialized(
    stream: &Stream,
    observation: IntentFileObservationV1,
) -> Result<IntentLayerMaterializationV1, KernelError> {
    materialize_intent_layer(
        &stream.session(),
        true,
        "workspace-1",
        &execution(),
        &vec![observation],
    )
}

fn draft() -> IntentLayerDraftV1 {
    match materialized(&completed(), observation()).unwrap() {
        IntentLayerMaterializationV1::Draft(draft) => draft,
        IntentLayerMaterializationV1::Settled(_) => panic!("no draft"),
    }
}

fn read_only(stream: &Stream, observation: IntentFileObservationV1) -> IntentLayerReadOnlyReasonV1 {
    match materialized(stream, observation).unwrap() {
        IntentLayerMaterializationV1::Settled(outcome) => {
            assert!(!outcome.appended);
            assert_eq!(outcome.manifest_digest, None);
            outcome.read_only_reason.unwrap()
        }
        IntentLayerMaterializationV1::Draft(_) => panic!("not read-only"),
    }
}

fn stored(id: &str, content: Vec<u8>) -> ArtifactContentV1 {
    ArtifactContentV1 { artifact_id: text(id), content }
}

fn layered() -> (Stream, Vec<ArtifactContentV1>) {
    let mut stream = completed();
    let draft = draft();
    let core = draft.layer_core("artifact-forward", "artifact-reverse");
    let hunk = draft.hunk(0, &core.core_digest);
    let artifacts = draft.artifact_manifest(&core, &vec![text("artifact-hunk-0")]).unwrap();
    let layer = draft.layer_manifest(core, "artifact-manifest", &artifacts);
    let contents = vec![
        stored("artifact-forward", draft.forward_patch().unwrap()),
        stored("artifact-reverse", draft.reverse_patch().unwrap()),
        stored("artifact-hunk-0", hunk),
        stored("artifact-manifest", artifacts.to_json().into_bytes()),
    ];
    let made = append_layer_pair(&stream.session(), artifacts, layer).unwrap();
    assert!(made.outcome.appended);
    stream.append(made.events, vec![]);
    (stream, contents)
}

fn observed(content: &str) -> Vec<DropTargetObservationV1> {
    vec![DropTargetObservationV1 {
        path: text(PATH),
        state: DropTargetStateV1::PlainFile,
        parent_is_plain_directory: true,
        content_hash: Some(hash(content)),
    }]
}

fn previewed(
    stream: &Stream,
    contents: &Vec<ArtifactContentV1>,
    content: &str,
) -> IntentOperationPreviewV1 {
    preview_intent_drop(
        &stream.session(),
        "workspace-1",
        5,
        Some(contents),
        &observed(content),
        &target(),
    )
    .unwrap()
}

fn request_of(preview: &IntentOperationPreviewV1) -> IntentDropRequestV1 {
    IntentDropRequestV1 {
        operation_id: preview.operation_id.clone(),
        stack_version: preview.stack_version,
        preview_digest: preview.preview_digest.clone(),
    }
}

fn authority(expires_at_ms: Option<u64>) -> IntentOperationAuthorityV1 {
    IntentOperationAuthorityV1::new(digest('7'), text("approval-1"), expires_at_ms).unwrap()
}

fn executed(
    stream: &Stream,
    contents: &Vec<ArtifactContentV1>,
    content: &str,
    request: &IntentDropRequestV1,
    authority: &IntentOperationAuthorityV1,
) -> Result<IntentDropStartV1, KernelError> {
    execute_intent_drop(
        &stream.session(),
        "workspace-1",
        5,
        Some(contents),
        &observed(content),
        request,
        authority,
        1_000,
        text("no longer wanted"),
    )
}

/// Requests and prepares the drop of the root, and starts its batch.
fn dropping() -> (Stream, Vec<ArtifactContentV1>, IntentDropRequestV1, IntentDropRunV1) {
    let (mut stream, contents) = layered();
    let request = request_of(&previewed(&stream, &contents, AFTER));
    match executed(&stream, &contents, AFTER, &request, &authority(None)).unwrap() {
        IntentDropStartV1::Apply { requested, source_frontier_sequence, prepared, batch_start, run } => {
            assert_eq!(source_frontier_sequence, 13);
            stream.append(vec![requested, prepared], vec![]);
            stream.push(RecordBody::MutationBatchStarted(batch_start));
            (stream, contents, request, run)
        }
        other => panic!("{other:?}"),
    }
}

/// Carries the drop out, but for its end.
fn dropped_files() -> (Stream, Vec<ArtifactContentV1>, IntentDropRequestV1, IntentDropRunV1) {
    let (mut stream, contents, request, mut run) = dropping();
    assert_eq!(run.next_action(), Ok(DropActionV1::PrepareFile(0)));
    stream.push(prepared("drop-1", Some(BATCH), AFTER, BEFORE, Some(OPERATION)));
    run.on_event(DropEventV1::Prepared { operation_id: text("drop-1") });
    assert_eq!(run.next_action(), Ok(DropActionV1::CommitFile(0)));
    stream.push(committed("drop-1", Some(BATCH), BEFORE, "snapshot-2"));
    run.on_event(DropEventV1::Committed {
        operation_id: text("drop-1"),
        workspace_snapshot_id: text("snapshot-2"),
    });
    (stream, contents, request, run)
}

fn dropped() -> (Stream, Vec<ArtifactContentV1>, IntentDropRequestV1) {
    let (mut stream, contents, request, run) = dropped_files();
    match run.next_action().unwrap() {
        DropActionV1::Finish(end) => {
            assert_eq!(end.batch_end.status, MutationBatchStatus::Applied);
            assert_eq!(end.execution.resolution, IntentOperationResolution::Committed);
            stream.push(RecordBody::MutationBatchFinished(end.batch_end));
            stream.append(vec![end.resolved], vec![]);
        }
        other => panic!("{other:?}"),
    }
    (stream, contents, request)
}

fn operation_state(stream: &Stream, contents: &Vec<ArtifactContentV1>) -> IntentOperationStateV1 {
    let projection = stream.session().intent_operation_projection(Some(contents)).unwrap();
    projection.operation(&IntentOperationId::new(text(OPERATION)).unwrap()).unwrap().state
}

fn revision(source_turn: &str, statement: &str) -> IntentRevisionProposalV1 {
    IntentRevisionProposalV1::new(
        text("revision-1"),
        text(source_turn),
        target(),
        text("Root, again"),
        text(statement),
        vec![criterion("It is renamed twice")],
        vec![],
    )
    .unwrap()
}

#[test]
fn roots_get_runtime_identities() {
    let made = admission();
    assert_eq!(target().intent_id.as_str(), INTENT);
    assert_eq!(
        made.plan().intents[0].acceptance_criteria[0].criterion_id.as_str(),
        "criterion-9fa63580f1a8f9aea9d8d12678f335cd006e76e30bae6032af99b3dc9089d618",
    );
    assert_eq!(
        made.plan().plan_digest.as_str(),
        "sha256:jcs-v1:5a490e0b5f1c6bb53b2c38a18fbefb1bbb5415862249524d39cc363985195582",
    );
    assert_eq!(made.intent_ref_for_alias("root"), Some(&target()));
    assert_eq!(made.intent_ref_for_alias("other"), None);
}

#[test]
fn admissions_are_appended_once() {
    let stream = rooted();
    let again = append_chat_root_intent_admission(&stream.session(), &admission()).unwrap();
    assert!(!again.outcome.appended);
    assert!(again.events.is_empty());
    let projection = stream.session().intent_stack_projection().unwrap();
    assert_eq!(&projection.latest_accepted_plan().unwrap().plan, admission().plan());
    assert!(!projection.has_incomplete_task_acceptance());
    assert_eq!(projection.cursor().unwrap().stream_sequence, 3);
    let elsewhere = Stream::new("session-2");
    assert_eq!(
        why(append_chat_root_intent_admission(&elsewhere.session(), &admission())),
        "IntentPlan admission belongs to another durable session",
    );
    let in_memory = Session { durable_records: None, ..stream.session() };
    assert_eq!(
        why(append_chat_root_intent_admission(&in_memory, &admission())),
        "IntentPlan admission requires a durable session store",
    );
}

#[test]
fn reading_a_record_again_changes_nothing() {
    let stream = rooted();
    let mut projection = stream.session().intent_stack_projection().unwrap();
    let before = projection.clone();
    assert_eq!(projection.apply_record(&stream.records[1]), Ok(()));
    assert_eq!(projection, before);
}

#[test]
fn sessions_without_history_say_so() {
    let empty = Stream::new("session-1");
    assert_eq!(
        empty.session().public_intent_stack_state().unwrap(),
        PublicIntentStackStateV1::HistoryUnavailable {
            schema_version: 1,
            safe_message: text("Intent history is unavailable for this session."),
        },
    );
    match rooted().session().public_intent_stack_state().unwrap() {
        PublicIntentStackStateV1::Available { stack, .. } => {
            assert_eq!(stack.authority_state, IntentAuthorityState::Active);
            assert_eq!(stack.intents[0].application_state, IntentApplicationState::Unapplied);
            assert_eq!(stack.intents[0].title, "Root");
        }
        other => panic!("{other:?}"),
    }
}

#[test]
fn executions_are_bound_to_exact_attempts() {
    let stream = started();
    let again = append_chat_intent_execution_binding(
        &stream.session(),
        target(),
        "run-1",
        "turn-1",
        "attempt-1",
    )
    .unwrap();
    assert!(!again.outcome.appended);
    assert_eq!(
        why(append_chat_intent_execution_binding(
            &stream.session(),
            target(),
            "run-1",
            "turn-1",
            "attempt-2",
        )),
        "Chat Intent execution has no exact foreground agent-run attempt",
    );
    assert_eq!(
        why(append_chat_intent_execution_binding(
            &stream.session(),
            target(),
            "run-1",
            "turn-2",
            "attempt-1",
        )),
        "Chat Intent execution does not match its accepted root attempt",
    );
    let lineage = stream.session().intent_lineage_projection().unwrap();
    assert_eq!(
        lineage.execution(&execution()).unwrap().read_only_reason,
        Some(IntentLineageReadOnlyReasonV1::MissingChangeSet),
    );
    assert_eq!(
        lineage.summary_for(&target()).application_state,
        Some(IntentApplicationState::ReadOnly),
    );
}

#[test]
fn mutations_become_change_sets() {
    let stream = changed();
    let lineage = stream.session().intent_lineage_projection().unwrap();
    let bound = lineage.latest_execution_for(&target()).unwrap();
    assert_eq!(bound.changeset_ids, vec![text("intent-chat-1e0d6290e60315138039f7c2")]);
    assert_eq!(bound.parent_mutation_event_id, Some(text("event-7")));
    assert_eq!(bound.parent_snapshot_id, Some(text("snapshot-1")));
    assert_eq!(bound.read_only_reason, None);
    assert_eq!(
        lineage.summary_for(&target()).application_state,
        Some(IntentApplicationState::NeedsReview),
    );
    let again = append_chat_direct_mutation_changeset_binding(
        &stream.session(),
        &execution(),
        "event-6",
        "event-7",
    )
    .unwrap();
    assert!(!again.outcome.appended);
    assert_eq!(
        why(append_chat_direct_mutation_changeset_binding(
            &stream.session(),
            &execution(),
            "event-7",
            "event-6",
        )),
        "Chat mutation projection has no exact prepare event",
    );
}

#[test]
fn mutations_after_the_attempt_are_not_its_own() {
    let mut stream = started();
    stream.push(RecordBody::Control(ControlEntry::AgentRunAttemptStarted(
        AgentRunAttemptStartedEntry {
            thread_id: text("run-1"),
            attempt_id: text("attempt-2"),
            background: false,
        },
    )));
    let first = stream.push(prepared("op-1", None, BEFORE, AFTER, None));
    let second = stream.push(committed("op-1", None, AFTER, "snapshot-1"));
    assert_eq!(
        why(append_chat_direct_mutation_changeset_binding(
            &stream.session(),
            &execution(),
            &first,
            &second,
        )),
        "Chat mutation prepare/commit lineage is inconsistent",
    );
}

#[test]
fn layers_are_drafted_from_what_was_found() {
    let draft = draft();
    assert_eq!(
        draft.base_snapshot_id,
        "sha256:jcs-v1:94f3392c71da55953779477a30ca4204923e50655df6b791177dae0a18ab0e98",
    );
    assert_eq!(draft.result_snapshot_id, "snapshot-1");
    assert_eq!(draft.operation_id(), format!("intent-layer-{EXECUTION}"));
    assert_eq!(draft.files.len(), 1);
    assert_eq!(draft.files[0].old_changed_bytes, b"old".to_vec());
    assert_eq!((draft.files[0].new_range.start, draft.files[0].new_range.end), (3, 6));
    assert_eq!(draft.files[0].mutation_identity, "op-1");
}

#[test]
fn layers_need_exact_evidence() {
    assert_eq!(
        read_only(&started(), observation()),
        IntentLayerReadOnlyReasonV1::MissingMutationArtifact,
    );
    assert_eq!(
        read_only(&changed(), observation()),
        IntentLayerReadOnlyReasonV1::MissingTerminalAttempt,
    );
    let stream = completed();
    let sensitive = IntentFileObservationV1 { sensitive_path: true, ..observation() };
    assert_eq!(read_only(&stream, sensitive), IntentLayerReadOnlyReasonV1::SensitiveContent);
    let secret = IntentFileObservationV1 { secret_after: true, ..observation() };
    assert_eq!(read_only(&stream, secret), IntentLayerReadOnlyReasonV1::SensitiveContent);
    let lost = IntentFileObservationV1 { captured: None, ..observation() };
    assert_eq!(read_only(&stream, lost), IntentLayerReadOnlyReasonV1::ArtifactUnavailable);
    let outside = IntentFileObservationV1 { parent_inside_workspace: false, ..observation() };
    assert_eq!(read_only(&stream, outside), IntentLayerReadOnlyReasonV1::UnsupportedFileKind);
    let link = IntentFileObservationV1 { state: WorkspaceFileStateV1::Other, ..observation() };
    assert_eq!(read_only(&stream, link), IntentLayerReadOnlyReasonV1::UnsupportedFileKind);
    let drifted = IntentFileObservationV1 {
        state: WorkspaceFileStateV1::Plain {
            size: 4,
            inside_workspace: true,
            content: b"else".to_vec(),
        },
        ..observation()
    };
    assert_eq!(read_only(&stream, drifted), IntentLayerReadOnlyReasonV1::DriftedArtifact);
    assert_eq!(
        why(materialize_intent_layer(
            &stream.session(),
            true,
            "workspace-2",
            &execution(),
            &vec![observation()],
        )),
        "Intent layer workspace identity does not match the accepted plan",
    );
    assert_eq!(
        why(materialize_intent_layer(
            &stream.session(),
            true,
            "workspace-1",
            &IntentExecutionId::new(text("execution-0")).unwrap(),
            &vec![observation()],
        )),
        "Intent layer references an unknown execution",
    );
    assert_eq!(
        why(materialize_intent_layer(
            &stream.session(),
            false,
            "workspace-1",
            &execution(),
            &vec![observation()],
        )),
        "Intent layer materialization requires mutation artifacts",
    );
    let absent = IntentFileObservationV1 { state: WorkspaceFileStateV1::Absent, ..observation() };
    assert_eq!(
        why(materialized(&stream, absent)),
        format!("failed to inspect Intent layer file /work/{PATH}"),
    );
    let lineage = stream.session().intent_lineage_projection().unwrap();
    assert_eq!(
        paths_to_observe(&stream.records, lineage.execution(&execution()).unwrap()),
        vec![text(PATH)],
    );
}

#[test]
fn projections_start_empty() {
    let nothing: Vec<SessionStreamRecord> = vec![];
    assert_eq!(
        IntentStackProjectionV1::from_records(&nothing),
        Ok(IntentStackProjectionV1::default()),
    );
    assert!(IntentStackProjectionV1::default().latest_accepted_plan().is_none());
    assert!(IntentLineageProjectionV1::default().executions.is_empty());
    assert!(IntentLayerProjectionV1::default().layers.is_empty());
    assert!(IntentOperationProjectionV1::default().operations.is_empty());
    assert_eq!(IntentLineageSummaryV1::default().application_state, None);
    assert_eq!(IntentLayerSummaryV1::default().exclusive_artifact_count, 0);
    assert_eq!(
        IntentLayerProjectionV1::default().summary_for(&target()),
        IntentLayerSummaryV1::default(),
    );
}

#[test]
fn layers_are_replayed() {
    let (stream, contents) = layered();
    let layers = stream.session().intent_layer_projection(Some(&contents)).unwrap();
    let layer = layers.latest_layer_for(&target()).unwrap();
    assert_eq!(
        layer.layer_manifest.manifest_digest.as_str(),
        "sha256:jcs-v1:67f17362314290ca3fcac22bc7721eb8604abd1d1f097164af80b16438013d53",
    );
    assert_eq!(layer.layer_stream_sequence, 13);
    let summary = layers.summary_for(&target());
    assert_eq!(summary.application_state, Some(IntentApplicationState::Applied));
    assert_eq!(summary.exclusive_artifact_count, 1);
    assert_eq!(summary.artifacts[0].normalized_relative_path, Some(text(PATH)));
    match materialized(&stream, observation()).unwrap() {
        IntentLayerMaterializationV1::Settled(outcome) => {
            assert!(!outcome.appended);
            assert_eq!(
                outcome.manifest_digest,
                Some(text(layer.layer_manifest.manifest_digest.as_str())),
            );
            assert_eq!(outcome.read_only_reason, None);
        }
        other => panic!("{other:?}"),
    }
}

#[test]
fn lost_artifacts_degrade_their_layer() {
    let (stream, mut contents) = layered();
    contents.pop();
    let layers = stream.session().intent_layer_projection(Some(&contents)).unwrap();
    let artifact = &layers.layer(&execution()).unwrap().artifacts[0];
    assert_eq!(artifact.availability, IntentArtifactAvailability::Corrupted);
    let summary = layers.summary_for(&target());
    assert_eq!(summary.application_state, Some(IntentApplicationState::ReadOnly));
    assert_eq!(summary.read_only_reason, Some(IntentLayerReadOnlyReasonV1::ArtifactUnavailable));
}

#[test]
fn expired_artifacts_stay_expired() {
    let (mut stream, contents) = layered();
    stream.push(RecordBody::ArtifactLifecycle(MutationArtifactLifecycleRecorded {
        artifact_id: text("artifact-reverse"),
        status: MutationArtifactLifecycleStatus::Expired,
    }));
    let layers = stream.session().intent_layer_projection(Some(&contents)).unwrap();
    let artifact = &layers.layer(&execution()).unwrap().artifacts[0];
    assert_eq!(artifact.availability, IntentArtifactAvailability::Expired);
}

#[test]
fn unknown_changes_are_drift() {
    let (mut stream, contents) = layered();
    stream.push(RecordBody::WorkspaceMutation(WorkspaceMutationDetected {
        workspace_id: text("workspace-1"),
        to_workspace_snapshot_id: None,
        unknown_dirty: true,
    }));
    let layers = stream.session().intent_layer_projection(Some(&contents)).unwrap();
    let artifact = &layers.layer(&execution()).unwrap().artifacts[0];
    assert_eq!(artifact.ownership, IntentArtifactOwnership::Drifted);
    let preview = previewed(&stream, &contents, AFTER);
    assert_eq!(preview.conflicts.len(), 1);
    assert_eq!(preview.conflicts[0].code, IntentOperationErrorCode::DriftedArtifact);
    assert_eq!(
        preview.conflicts[0].safe_reason,
        "Intent artifact no longer matches the workspace",
    );
}

#[test]
fn drops_are_previewed_exactly() {
    let (stream, contents) = layered();
    let preview = previewed(&stream, &contents, AFTER);
    assert_eq!(preview.operation_id.as_str(), OPERATION);
    assert_eq!(preview.operation_kind, IntentOperationKind::Drop);
    assert_eq!(preview.target_intents, vec![target()]);
    assert!(preview.target_is_leaf && preview.conflicts.is_empty());
    assert_eq!(preview.file_effects.len(), 1);
    assert_eq!(preview.file_effects[0].normalized_relative_path, PATH);
    assert_eq!(preview.file_effects[0].action, IntentOperationFileAction::Update);
    assert_eq!(preview.validate_contract(), Ok(()));
}

#[test]
fn drops_tell_their_conflicts() {
    let (stream, contents) = layered();
    let changed = previewed(&stream, &contents, "else");
    assert_eq!(changed.conflicts.len(), 1);
    assert_eq!(
        changed.conflicts[0].safe_reason,
        "Intent target content changed after layer materialization",
    );
    let missing = preview_intent_drop(
        &stream.session(),
        "workspace-1",
        5,
        Some(&contents),
        &vec![DropTargetObservationV1 {
            path: text(PATH),
            state: DropTargetStateV1::Missing,
            parent_is_plain_directory: true,
            content_hash: None,
        }],
        &target(),
    )
    .unwrap();
    let codes: Vec<IntentOperationErrorCode> =
        missing.conflicts.iter().map(|conflict| conflict.code).collect();
    assert_eq!(
        codes,
        vec![
            IntentOperationErrorCode::DriftedArtifact,
            IntentOperationErrorCode::WorkspaceOutOfScope,
        ],
    );
    let bare = previewed(&rooted(), &contents, AFTER);
    assert_eq!(bare.conflicts.len(), 1);
    assert_eq!(bare.conflicts[0].code, IntentOperationErrorCode::MissingExecutionLineage);
    assert_eq!(
        why(preview_intent_drop(
            &stream.session(),
            "workspace-2",
            5,
            Some(&contents),
            &observed(AFTER),
            &target(),
        )),
        "Intent drop workspace identity does not match the accepted plan",
    );
    let unknown = IntentVersionRef { version: 9, ..target() };
    assert_eq!(
        why(preview_intent_drop(
            &stream.session(),
            "workspace-1",
            5,
            Some(&contents),
            &observed(AFTER),
            &unknown,
        )),
        "Intent drop target is not in the accepted plan",
    );
    assert_eq!(
        why(preview_intent_drop(
            &stream.session(),
            "workspace-1",
            5,
            None,
            &observed(AFTER),
            &target(),
        )),
        "Intent drop preview requires mutation artifacts",
    );
}

#[test]
fn drops_start_from_their_preview() {
    let (stream, contents, _, run) = dropping();
    assert_eq!(run.batch_id, BATCH);
    assert_eq!(run.files.len(), 1);
    assert_eq!(run.files[0].target, Some(BEFORE.as_bytes().to_vec()));
    assert_eq!(run.files[0].expected_hash, Some(hash(AFTER)));
    assert_eq!(operation_state(&stream, &contents), IntentOperationStateV1::Prepared);
    let projection = stream.session().intent_operation_projection(Some(&contents)).unwrap();
    assert!(projection.has_active_operation_for(&target()));
    assert!(!projection.is_dropped(&target()));
}

#[test]
fn stale_requests_are_refused() {
    let (stream, contents) = layered();
    let request = request_of(&previewed(&stream, &contents, AFTER));
    let failure = |request: &IntentDropRequestV1| {
        why(executed(&stream, &contents, AFTER, request, &authority(None)))
    };
    let unknown = IntentDropRequestV1 {
        operation_id: IntentOperationId::new(text("intent-drop-0")).unwrap(),
        ..request.clone()
    };
    assert_eq!(failure(&unknown), "Intent drop request references an unknown operation");
    let version = IntentDropRequestV1 {
        stack_version: IntentStackVersion::new(2).unwrap(),
        ..request.clone()
    };
    assert_eq!(failure(&version), "Intent drop stack version is stale");
    let forged = IntentDropRequestV1 { preview_digest: digest('1'), ..request.clone() };
    assert_eq!(failure(&forged), "Intent drop preview digest is stale");
    assert_eq!(
        why(execute_intent_drop(
            &stream.session(),
            "workspace-1",
            5,
            Some(&contents),
            &observed(AFTER),
            &request,
            &authority(None),
            1_000,
            text(" "),
        )),
        "intent drop reason is empty or too long",
    );
}

#[test]
fn conflicting_drops_are_refused_durably() {
    let (mut stream, contents) = layered();
    let request = request_of(&previewed(&stream, &contents, "else"));
    match executed(&stream, &contents, "else", &request, &authority(None)).unwrap() {
        IntentDropStartV1::Refused { requested, events, execution, .. } => {
            assert_eq!(execution.resolution, IntentOperationResolution::Conflicted);
            assert_eq!(execution.error_code, Some(IntentOperationErrorCode::IntentStateConflict));
            let operation = request.operation_id.clone();
            assert!(append_conflicted_operation(&stream.records, &operation));
            stream.append(vec![requested], vec![]);
            stream.append(events, vec![]);
            assert!(!append_conflicted_operation(&stream.records, &operation));
        }
        other => panic!("{other:?}"),
    }
    let projection = stream.session().intent_operation_projection(Some(&contents)).unwrap();
    assert_eq!(
        projection.operation(&request.operation_id).unwrap().state,
        IntentOperationStateV1::Conflicted,
    );
    assert_eq!(projection.conflicts.len(), 1);
    assert!(!projection.is_dropped(&target()));
}

#[test]
fn expired_authority_rejects_the_drop() {
    let (mut stream, contents) = layered();
    let request = request_of(&previewed(&stream, &contents, AFTER));
    assert!(authority(Some(1_000)).is_current(1_000));
    match executed(&stream, &contents, AFTER, &request, &authority(Some(999))).unwrap() {
        IntentDropStartV1::Refused { requested, events, execution, .. } => {
            assert_eq!(execution.resolution, IntentOperationResolution::Rejected);
            assert_eq!(execution.error_code, Some(IntentOperationErrorCode::PermissionDenied));
            stream.append(vec![requested], vec![]);
            stream.append(events, vec![]);
        }
        other => panic!("{other:?}"),
    }
    assert_eq!(operation_state(&stream, &contents), IntentOperationStateV1::Rejected);
}

#[test]
fn committed_drops_are_replayed_as_dropped() {
    let (stream, contents, request) = dropped();
    assert_eq!(operation_state(&stream, &contents), IntentOperationStateV1::Committed);
    let projection = stream.session().intent_operation_projection(Some(&contents)).unwrap();
    assert!(projection.is_dropped(&target()));
    assert_eq!(projection.dropped_intents(), &vec![target()]);
    assert!(!projection.has_active_operation_for(&target()));
    match executed(&stream, &contents, BEFORE, &request, &authority(None)).unwrap() {
        IntentDropStartV1::Settled(execution) => {
            assert_eq!(execution.resolution, IntentOperationResolution::Committed);
            assert_eq!(execution.committed_operation_ids, vec![text("drop-1")]);
            assert_eq!(execution.result_snapshot_id, Some(text("snapshot-2")));
            assert_eq!(execution.mutation_batch_id, Some(text(BATCH)));
        }
        other => panic!("{other:?}"),
    }
    let again = previewed(&stream, &contents, BEFORE);
    assert!(again.conflicts.iter().any(|conflict| {
        conflict.code == IntentOperationErrorCode::IntentStateConflict
            && conflict.safe_reason == "Intent is already dropped"
    }));
}

#[test]
fn failed_commits_leave_a_partial_or_interrupted_drop() {
    let (_, _, _, mut run) = dropping();
    run.on_event(DropEventV1::PrepareFailed);
    match run.next_action().unwrap() {
        DropActionV1::Finish(end) => {
            assert_eq!(end.execution.resolution, IntentOperationResolution::Interrupted);
            assert_eq!(end.batch_end.status, MutationBatchStatus::Failed);
        }
        other => panic!("{other:?}"),
    }
    let (_, _, _, mut run) = dropping();
    run.on_event(DropEventV1::Prepared { operation_id: text("drop-1") });
    run.on_event(DropEventV1::CommitFailed);
    assert_eq!(run.next_action(), Ok(DropActionV1::ReconcileFile(0)));
    run.on_event(DropEventV1::Reconciled {
        resolution: MutationResolution::MarkCommitted,
        workspace_snapshot_id: Some(text("snapshot-2")),
    });
    match run.next_action().unwrap() {
        DropActionV1::Finish(end) => {
            assert_eq!(end.execution.resolution, IntentOperationResolution::PartiallyApplied);
            assert_eq!(
                end.execution.error_code,
                Some(IntentOperationErrorCode::PartialApplication),
            );
            assert_eq!(end.batch_end.committed_operations, vec![text("drop-1")]);
            assert_eq!(end.batch_end.failed_operations, vec![text("drop-1")]);
        }
        other => panic!("{other:?}"),
    }
}

#[test]
fn prepared_drops_are_not_replayed() {
    let (stream, contents, request, _) = dropping();
    assert_eq!(
        why(executed(&stream, &contents, AFTER, &request, &authority(None))),
        "prepared Intent operation requires reconciliation and will not be replayed",
    );
    let other = IntentDropRequestV1 { preview_digest: digest('1'), ..request };
    assert_eq!(
        why(executed(&stream, &contents, AFTER, &other, &authority(None))),
        "Intent operation id is already bound to another preview",
    );
}

#[test]
fn events_are_appended_once() {
    let (stream, _, _, _) = dropping();
    let requested = match &stream.records[13].body {
        RecordBody::Intent(event) => event.clone(),
        other => panic!("{other:?}"),
    };
    assert_eq!(append_unique_operation_event(&stream.records, &requested), Ok(false));
    assert_eq!(
        why(append_operation_requested(&stream.records, &requested, 13)),
        "Intent operation preview frontier changed before request",
    );
    let before: Vec<SessionStreamRecord> = stream.records[..13].to_vec();
    assert_eq!(append_operation_requested(&before, &requested, 13), Ok(true));
    assert_eq!(append_unique_operation_event(&before, &requested), Ok(true));
    let other = match requested {
        IntentEventV1::OperationRequested { schema_version, preview, .. } => {
            IntentEventV1::OperationRequested { schema_version, preview, safe_reason: text("else") }
        }
        other => panic!("{other:?}"),
    };
    assert_eq!(
        why(append_unique_operation_event(&stream.records, &other)),
        "Intent operation event identity is already bound to another payload",
    );
}

#[test]
fn only_untouched_operations_are_cancelled() {
    let (mut stream, contents, request, _) = dropping();
    let cancelled = cancel_intent_operation(&stream.session(), &request.operation_id).unwrap();
    match cancelled.clone().unwrap() {
        IntentEventV1::OperationResolved { resolution, mutation_batch_id, .. } => {
            assert_eq!(resolution, IntentOperationResolution::Cancelled);
            assert_eq!(mutation_batch_id, Some(text(BATCH)));
        }
        other => panic!("{other:?}"),
    }
    stream.append(vec![cancelled.unwrap()], vec![]);
    assert_eq!(operation_state(&stream, &contents), IntentOperationStateV1::Cancelled);
    assert_eq!(cancel_intent_operation(&stream.session(), &request.operation_id), Ok(None));
    let (touched, _, _, _) = dropped_files();
    assert_eq!(
        why(cancel_intent_operation(&touched.session(), &request.operation_id)),
        "cannot cancel an Intent operation after file preparation began",
    );
    let unknown = IntentOperationId::new(text("intent-drop-0")).unwrap();
    assert_eq!(
        why(cancel_intent_operation(&touched.session(), &unknown)),
        "cannot cancel an unknown Intent operation",
    );
}

#[test]
fn interrupted_drops_are_recovered_without_a_replay() {
    let (mut stream, contents, request, _) = dropped_files();
    let recovery = reconcile_intent_operations(&stream.session(), "workspace-1", true).unwrap();
    assert_eq!(recovery.failure, None);
    assert_eq!(recovery.steps.len(), 1);
    let step = recovery.steps[0].clone();
    assert_eq!(step.operation_id, request.operation_id);
    assert_eq!(step.batch_end.clone().unwrap().status, MutationBatchStatus::Applied);
    stream.push(RecordBody::MutationBatchFinished(step.batch_end.unwrap()));
    stream.append(vec![step.resolved], vec![]);
    assert_eq!(operation_state(&stream, &contents), IntentOperationStateV1::Committed);
    let (untouched, _, _, _) = dropping();
    let recovery = reconcile_intent_operations(&untouched.session(), "workspace-1", true).unwrap();
    match &recovery.steps[0].resolved {
        IntentEventV1::OperationResolved { resolution, error_code, .. } => {
            assert_eq!(*resolution, IntentOperationResolution::Interrupted);
            assert_eq!(*error_code, Some(IntentOperationErrorCode::ReconciliationRequired));
        }
        other => panic!("{other:?}"),
    }
    assert_eq!(
        why(reconcile_intent_operations(&untouched.session(), "workspace-2", true)),
        "Intent operation recovery workspace does not match the accepted plan",
    );
    assert_eq!(
        why(reconcile_intent_operations(&untouched.session(), "workspace-1", false)),
        "Intent operation recovery requires mutation evidence",
    );
}

#[test]
fn checkpoints_leave_intent_files_alone() {
    let none = TaskStateProjection { tasks: vec![] };
    let (layer, _) = layered();
    assert_eq!(checkpoint_intent_conflict_paths(&layer.records, &none, 13), Ok(vec![text(PATH)]));
    let (gone, _, _) = dropped();
    let last = gone.records.len() as u64;
    assert_eq!(checkpoint_intent_conflict_paths(&gone.records, &none, last), Ok(vec![]));
    assert_eq!(checkpoint_intent_conflict_paths(&gone.records, &none, 13), Ok(vec![text(PATH)]));
    assert_eq!(intent_operation_mutation_operation_ids(&gone.records), vec![text("drop-1")]);
    assert!(intent_operation_mutation_operation_ids(&layer.records).is_empty());
    assert_eq!(checkpoint_intent_conflict_paths(&vec![], &none, 0), Ok(vec![]));
}

#[test]
fn impacts_are_previewed_without_effect() {
    let (stream, _) = layered();
    let preview =
        preview_intent_replace(&stream.session(), "workspace-1", Some(5), &target()).unwrap();
    assert_eq!(
        preview.operation.operation_id.as_str(),
        "intent-impact-636f83b4effccec766ddfc72ebdd4589072352303cec230516a708f56ad4080b",
    );
    assert!(preview.operation.file_effects.is_empty());
    assert_eq!(preview.application_impacts.len(), 1);
    assert_eq!(
        preview.application_impacts[0].application_state,
        IntentApplicationState::NeedsRebuild,
    );
    assert_eq!(preview.validate_contract(), Ok(()));
    assert_eq!(
        why(preview_intent_replace(&stream.session(), "workspace-1", None, &target())),
        "Intent impact preview requires mutation workspace evidence",
    );
    assert_eq!(
        why(preview_intent_replace(&stream.session(), "workspace-2", Some(5), &target())),
        "Intent impact preview workspace is out of scope",
    );
    let unknown = IntentVersionRef { version: 9, ..target() };
    assert_eq!(
        why(preview_intent_replace(&stream.session(), "workspace-1", Some(5), &unknown)),
        "Intent impact preview target is stale or unknown",
    );
}

#[test]
fn accepted_revisions_are_the_next_version() {
    let (mut stream, _) = layered();
    let proposal = revision("turn-2", "Rename it twice");
    assert_eq!(proposal.replacement_ref().unwrap().version, 2);
    let mut last = proposal.clone();
    last.target_intent_ref.version = u64::MAX - 1;
    assert_eq!(last.replacement_ref().unwrap().version, u64::MAX);
    last.target_intent_ref.version = u64::MAX;
    assert_eq!(
        why(last.replacement_ref()),
        "intent revision target has no next version",
    );
    let preview =
        preview_intent_revision(&stream.session(), "workspace-1", Some(5), &proposal).unwrap();
    let authority = IntentRevisionAuthorityV1::explicit_user_confirmation(
        &proposal,
        &preview,
        text("authority-2"),
    )
    .unwrap();
    let accept = |session: &Session| {
        accept_intent_revision(
            session,
            "workspace-1",
            Some(5),
            &proposal,
            &preview,
            &authority,
            None,
        )
    };
    let made = accept(&stream.session()).unwrap();
    assert!(made.outcome.appended);
    stream.append(made.events, made.entries);
    let projection = stream.session().intent_stack_projection().unwrap();
    let accepted = projection.latest_accepted_plan().unwrap();
    assert_eq!(accepted.plan.stack_version.get(), 2);
    let definition = &accepted.plan.intents[0];
    assert_eq!(definition.intent_ref.version, 2);
    assert_eq!(definition.intent_ref.intent_id, target().intent_id);
    assert_eq!(definition.supersedes, Some(target()));
    assert_eq!(definition.statement, "Rename it twice");
    let first = projection.accepted_plan(IntentStackVersion::new(1).unwrap()).unwrap();
    assert_eq!(&first.plan, admission().plan());
    assert!(!accept(&stream.session()).unwrap().outcome.appended);
}

#[test]
fn changed_revisions_are_refused() {
    let (mut stream, _) = layered();
    let proposal = revision("turn-2", "Rename it twice");
    let preview =
        preview_intent_revision(&stream.session(), "workspace-1", Some(5), &proposal).unwrap();
    let authority = IntentRevisionAuthorityV1::explicit_user_confirmation(
        &proposal,
        &preview,
        text("authority-2"),
    )
    .unwrap();
    let other = revision("turn-2", "Rename it thrice");
    assert_eq!(
        why(accept_intent_revision(
            &stream.session(),
            "workspace-1",
            Some(5),
            &other,
            &preview,
            &authority,
            None,
        )),
        "Intent revision authority does not match its proposal and preview",
    );
    stream.push(RecordBody::Unrelated);
    assert_eq!(
        why(accept_intent_revision(
            &stream.session(),
            "workspace-1",
            Some(5),
            &proposal,
            &preview,
            &authority,
            None,
        )),
        "Intent revision impact changed before acceptance",
    );
    let mut tampered = proposal;
    tampered.title = text("Other");
    assert_eq!(
        why(tampered.validate_contract()),
        "intent revision proposal canonical digest mismatch",
    );
    let controls = IntentRevisionProposalV1::new(
        text("revision-1"),
        text("turn-2"),
        target(),
        text("Title\n"),
        text("Statement"),
        vec![criterion("It holds")],
        vec![],
    );
    assert_eq!(
        why(controls),
        "intent revision title is empty, too long, or contains control characters",
    );
    let itself = IntentRevisionProposalV1::new(
        text("revision-1"),
        text("turn-2"),
        target(),
        text("Title"),
        text("Statement"),
        vec![criterion("It holds")],
        vec![target().intent_id],
    );
    assert_eq!(why(itself), "intent revision contains a self or duplicate dependency");
}

#[test]
fn forks_adopt_the_plan_and_nothing_else() {
    let (source, _) = layered();
    let mut fork = Stream::new("session-2");
    fork.push(RecordBody::ConversationForked(ConversationForked {
        source_session_id: text("session-1"),
    }));
    let captured = |destination: &Session, lineage: &str, snapshot: &str| {
        IntentAdoptionAuthorityV1::capture(
            &source.session(),
            destination,
            text("workspace-1"),
            text("workspace-2"),
            text("snapshot-a"),
            text(snapshot),
            text("branch-1"),
            lineage,
            text("turn-9"),
            text("authority-9"),
            IntentStackId::new(text("stack-2")).unwrap(),
        )
    };
    let authority = captured(&fork.session(), "branch-1", "snapshot-a").unwrap();
    assert_eq!(
        why(captured(&fork.session(), "branch-2", "snapshot-a")),
        "Intent adoption branch lineage does not match",
    );
    assert_eq!(
        why(captured(&fork.session(), "branch-1", "snapshot-b")),
        "Intent adoption tracked workspace bytes do not match",
    );
    assert_eq!(
        why(captured(&Stream::new("session-3").session(), "branch-1", "snapshot-a")),
        "Intent adoption destination is not an unused exact conversation fork",
    );
    let adopt = |destination: &Session, snapshot: &str| {
        adopt_forked_intent_stack(
            &source.session(),
            destination,
            "workspace-1",
            text("workspace-2"),
            "snapshot-a",
            snapshot,
            "branch-1",
            "branch-1",
            &authority,
        )
    };
    assert_eq!(
        why(adopt(&fork.session(), "snapshot-c")),
        "Intent adoption workspace, branch, or snapshot proof changed",
    );
    let made = adopt(&fork.session(), "snapshot-a").unwrap();
    assert!(made.outcome.appended);
    fork.append(made.events, made.entries);
    let projection = fork.session().intent_stack_projection().unwrap();
    assert_eq!(projection.fork_source_session_id(), Some(&text("session-1")));
    let plan = &projection.latest_accepted_plan().unwrap().plan;
    assert_eq!(plan.stack_id.as_str(), "stack-2");
    assert_eq!(plan.workspace_id, "workspace-2");
    assert_eq!(plan.source_session_id, "session-2");
    assert_eq!(plan.intents, admission().plan().intents);
    assert!(fork.session().intent_layer_projection(None).unwrap().layers.is_empty());
    assert!(!adopt(&fork.session(), "snapshot-a").unwrap().outcome.appended);
}

#[test]
fn streams_out_of_order_are_refused() {
    let stream = rooted();
    let projected = |bodies: Vec<RecordBody>| {
        let mut other = Stream::new("session-1");
        for body in bodies {
            other.push(body);
        }
        why(IntentStackProjectionV1::from_records(&other.records))
    };
    let body = |i: usize| stream.records[i].body.clone();
    assert_eq!(projected(vec![body(0), body(1), body(2)]), "accepted");
    assert_eq!(projected(vec![body(0), body(0)]), "Intent Stack was created more than once");
    assert_eq!(
        projected(vec![body(1)]),
        "IntentPlan was recorded before Intent Stack creation",
    );
    assert_eq!(
        projected(vec![body(2)]),
        "IntentPlan was accepted before Intent Stack creation",
    );
    assert_eq!(
        projected(vec![body(0), body(2)]),
        "IntentPlan acceptance has no recorded plan",
    );
    assert_eq!(
        projected(vec![body(0), body(1), body(2), body(2)]),
        "IntentPlan version was accepted more than once",
    );
    assert_eq!(
        projected(vec![body(0), body(1), body(1)]),
        "IntentPlan version 1 does not follow recorded version 1",
    );
    let mut elsewhere = Stream::new("session-2");
    elsewhere.push(body(0));
    assert_eq!(
        why(IntentStackProjectionV1::from_records(&elsewhere.records)),
        "Intent Stack source session does not match its durable stream",
    );
}
