//! The contracts of intents: identities, digests, plans, layers, previews and events.

use sigil_kernel::intent::{
    BoundedIntentArtifactSubjectV1, IntentAcceptanceCriterionV1, IntentAcceptanceKind,
    IntentArtifactAvailability, IntentArtifactBindingV1, IntentArtifactId, IntentArtifactKind,
    IntentArtifactManifestV1, IntentArtifactOwnership, IntentArtifactProvenanceV1,
    IntentByteRangeV1, IntentConflictV1, IntentContentDigest, IntentCriterionEvidenceLevel,
    IntentCriterionEvidenceV1, IntentCriterionId, IntentDefinitionV1, IntentDigest,
    IntentDigestDomain, IntentEventV1, IntentExecutionBindingKind, IntentExecutionBindingV1,
    IntentExecutionId, IntentExecutionOriginV1, IntentId, IntentLayerCoreV1,
    IntentLayerManifestV1, IntentOperationErrorCode, IntentOperationFileAction,
    IntentOperationFileSummaryV1, IntentOperationId, IntentOperationKind,
    IntentOperationPreviewV1, IntentOperationResolution, IntentPlanKind, IntentPlanProposalV1,
    IntentPlanV1, IntentProposalCriterionV1, IntentProposalUnitV1, IntentSourceV1, IntentStackId,
    IntentStackVersion, IntentTaskPlanBindingV1, IntentVerificationImpact,
    IntentVerificationImpactV1, IntentVersionRef,
};
use sigil_kernel::intent_contract::{
    canonical_intent_digest, validate_bounded_identity, validate_bounded_text,
    validate_execution_binding, validate_execution_origin, validate_intent_source,
    validate_normalized_relative_path,
};
use sigil_kernel::json::Encode;
use sigil_kernel::value::KernelError;

fn text(value: &str) -> String {
    value.to_owned()
}

fn texts(values: &[&str]) -> Vec<String> {
    values.iter().map(|value| text(value)).collect()
}

fn why<T>(result: Result<T, KernelError>) -> String {
    match result {
        Ok(_) => text("accepted"),
        Err(error) => error.message,
    }
}

fn intent_id(value: &str) -> IntentId {
    IntentId::new(text(value)).unwrap()
}

fn stack_id() -> IntentStackId {
    IntentStackId::new(text("stack-1")).unwrap()
}

fn version(value: u64) -> IntentStackVersion {
    IntentStackVersion::new(value).unwrap()
}

fn intent_ref(id: &str, version: u64) -> IntentVersionRef {
    IntentVersionRef { intent_id: intent_id(id), version }
}

fn digest(last: char) -> IntentDigest {
    let mut value = text("sha256:jcs-v1:");
    for _ in 0..63 {
        value.push('0');
    }
    value.push(last);
    IntentDigest::new(value).unwrap()
}

fn content(value: &str) -> IntentContentDigest {
    IntentContentDigest::from_bytes(value.as_bytes())
}

fn proposed_criterion(alias: &str, statement: &str, required: bool) -> IntentProposalCriterionV1 {
    IntentProposalCriterionV1 {
        criterion_alias: text(alias),
        statement: text(statement),
        required,
    }
}

fn unit(alias: &str, depends_on: &[&str]) -> IntentProposalUnitV1 {
    IntentProposalUnitV1 {
        intent_alias: text(alias),
        title: text("Title"),
        statement: text("Statement"),
        acceptance_criteria: vec![proposed_criterion("c1", "It holds", true)],
        depends_on_aliases: texts(depends_on),
    }
}

fn proposal(intents: Vec<IntentProposalUnitV1>) -> Result<IntentPlanProposalV1, KernelError> {
    IntentPlanProposalV1::new(text("proposal-1"), text("turn-1"), intents)
}

fn definition(id: &str, depends_on: &[&str], source: IntentSourceV1) -> IntentDefinitionV1 {
    IntentDefinitionV1 {
        intent_ref: intent_ref(id, 1),
        title: text("Title"),
        statement: text("Statement"),
        acceptance_criteria: vec![IntentAcceptanceCriterionV1 {
            criterion_id: IntentCriterionId::new(text("criterion-1")).unwrap(),
            statement: text("It holds"),
            required: true,
        }],
        depends_on: depends_on.iter().map(|value| intent_id(value)).collect(),
        source,
        supersedes: None,
    }
}

fn user_turn() -> IntentSourceV1 {
    IntentSourceV1::UserTurn { source_turn_id: text("turn-1") }
}

fn suggestion() -> IntentSourceV1 {
    IntentSourceV1::AcceptedSuggestion { source_turn_id: text("turn-1"), proposal_digest: digest('1') }
}

fn sealed(mut plan: IntentPlanV1) -> IntentPlanV1 {
    plan.plan_digest = plan.computed_digest().unwrap();
    plan
}

fn plan(kind: IntentPlanKind, intents: Vec<IntentDefinitionV1>) -> IntentPlanV1 {
    sealed(IntentPlanV1 {
        schema_version: 1,
        stack_id: stack_id(),
        stack_version: version(1),
        workspace_id: text("workspace-1"),
        source_session_id: text("session-1"),
        kind,
        intents,
        plan_digest: digest('0'),
    })
}

fn root_plan() -> IntentPlanV1 {
    plan(IntentPlanKind::UserDeclaredRoot, vec![definition("intent-1", &[], user_turn())])
}

fn suggested(intents: Vec<IntentDefinitionV1>) -> IntentPlanV1 {
    plan(IntentPlanKind::SuggestedDecomposition, intents)
}

fn chat_origin(attempt: Option<&str>) -> IntentExecutionOriginV1 {
    IntentExecutionOriginV1::Chat {
        root_logical_run_id: text("run-1"),
        source_turn_id: text("turn-1"),
        attempt_id: attempt.map(text),
    }
}

fn task_origin(plan_version: u32) -> IntentExecutionOriginV1 {
    IntentExecutionOriginV1::Task {
        task_id: text("task-1"),
        task_plan_version: plan_version,
        step_id: text("step-1"),
        attempt_id: None,
    }
}

fn layer_core() -> IntentLayerCoreV1 {
    let mut made = IntentLayerCoreV1 {
        schema_version: 1,
        intent_ref: intent_ref("intent-1", 1),
        execution_id: IntentExecutionId::new(text("execution-1")).unwrap(),
        execution_origin: chat_origin(Some("attempt-1")),
        base_snapshot_id: text("snap-a"),
        result_snapshot_id: text("snap-b"),
        changeset_ids: texts(&["cs-1"]),
        operation_ids: vec![IntentOperationId::new(text("op-1")).unwrap()],
        forward_patch_artifact_id: text("forward"),
        reverse_patch_artifact_id: text("reverse"),
        core_digest: digest('0'),
    };
    made.core_digest = made.computed_digest().unwrap();
    made
}

fn hunk() -> IntentArtifactBindingV1 {
    IntentArtifactBindingV1 {
        artifact_id: IntentArtifactId::new(text("hunk-1")).unwrap(),
        artifact_kind: IntentArtifactKind::FileHunk,
        subject: BoundedIntentArtifactSubjectV1::FileHunk {
            normalized_relative_path: text("src/a.rs"),
            before_file_digest: content("old"),
            after_file_digest: content("new"),
            old_range: IntentByteRangeV1 { start: 0, end: 3 },
            new_range: IntentByteRangeV1 { start: 0, end: 3 },
            old_content_digest: content("old"),
            new_content_digest: content("new"),
            layer_core_digest: layer_core().core_digest,
        },
        ownership: IntentArtifactOwnership::Exclusive,
        availability: IntentArtifactAvailability::Available,
        before_digest: Some(content("old")),
        after_digest: content("new"),
        provenance: IntentArtifactProvenanceV1 {
            source_event_id: text("event-1"),
            execution_id: IntentExecutionId::new(text("execution-1")).unwrap(),
            mutation_batch_id: Some(text("batch-1")),
            changeset_id: Some(text("cs-1")),
            verification_receipt_id: None,
        },
    }
}

fn artifact_manifest(artifacts: Vec<IntentArtifactBindingV1>) -> IntentArtifactManifestV1 {
    let mut manifest = IntentArtifactManifestV1 {
        schema_version: 1,
        intent_ref: intent_ref("intent-1", 1),
        execution_id: IntentExecutionId::new(text("execution-1")).unwrap(),
        layer_core_digest: layer_core().core_digest,
        artifacts,
        manifest_digest: digest('0'),
    };
    manifest.manifest_digest = manifest.computed_digest().unwrap();
    manifest
}

fn layer_manifest(core: IntentLayerCoreV1) -> IntentLayerManifestV1 {
    let mut manifest = IntentLayerManifestV1 {
        schema_version: 1,
        core,
        artifact_manifest_id: text("am-1"),
        artifact_manifest_digest: artifact_manifest(vec![hunk()]).manifest_digest,
        manifest_digest: digest('0'),
    };
    manifest.manifest_digest = manifest.computed_digest().unwrap();
    manifest
}

fn preview() -> IntentOperationPreviewV1 {
    resealed(IntentOperationPreviewV1 {
        schema_version: 1,
        operation_id: IntentOperationId::new(text("op-1")).unwrap(),
        operation_kind: IntentOperationKind::Drop,
        stack_id: stack_id(),
        stack_version: version(1),
        target_intents: vec![intent_ref("intent-1", 1)],
        target_is_leaf: true,
        workspace_revision: 7,
        expires_at_ms: None,
        file_effects: vec![IntentOperationFileSummaryV1 {
            normalized_relative_path: text("src/a.rs"),
            action: IntentOperationFileAction::Update,
            artifact_ids: vec![IntentArtifactId::new(text("hunk-1")).unwrap()],
        }],
        retained_intents: vec![intent_ref("intent-2", 1)],
        verification_impacts: vec![IntentVerificationImpactV1 {
            receipt_id: text("receipt-1"),
            impact: IntentVerificationImpact::BecomesStale,
        }],
        conflicts: vec![IntentConflictV1 {
            code: IntentOperationErrorCode::TargetNotLeaf,
            intent_ref: Some(intent_ref("intent-1", 1)),
            artifact_id: None,
            safe_reason: text("has dependents"),
        }],
        preview_digest: digest('0'),
    })
}

fn resealed(mut preview: IntentOperationPreviewV1) -> IntentOperationPreviewV1 {
    preview.preview_digest = preview.computed_digest().unwrap();
    preview
}

fn resolved(
    resolution: IntentOperationResolution,
    batch: Option<&str>,
    snapshot: Option<&str>,
    error_code: Option<IntentOperationErrorCode>,
) -> IntentEventV1 {
    IntentEventV1::OperationResolved {
        schema_version: 1,
        operation_id: IntentOperationId::new(text("op-1")).unwrap(),
        resolution,
        mutation_batch_id: batch.map(text),
        result_snapshot_id: snapshot.map(text),
        error_code,
    }
}

fn evidence(level: IntentCriterionEvidenceLevel, changesets: &[&str]) -> IntentEventV1 {
    IntentEventV1::VerificationLinked {
        schema_version: 1,
        evidence: vec![IntentCriterionEvidenceV1 {
            intent_ref: intent_ref("intent-1", 1),
            criterion_id: IntentCriterionId::new(text("criterion-1")).unwrap(),
            level,
            receipt_id: text("receipt-1"),
            parent_snapshot_id: text("snap-b"),
            verification_policy_digest: digest('2'),
            changeset_ids: texts(changesets),
            source_event_id: text("event-1"),
        }],
    }
}

#[test]
fn stable_identities_are_bounded() {
    assert_eq!(intent_id("a-b_c.d:E9").as_str(), "a-b_c.d:E9");
    assert_eq!(why(IntentId::new(text(""))), "intent id cannot be empty");
    assert_eq!(why(IntentStackId::new("a".repeat(129))), "intent stack id is too long");
    assert_eq!(
        why(IntentOperationId::new(text("a b"))),
        "intent operation id contains unsupported characters",
    );
    assert_eq!(
        why(IntentArtifactId::new(text("a/b"))),
        "intent artifact id contains unsupported characters",
    );
    assert_eq!(why(IntentStackVersion::new(0)), "intent stack version must be non-zero");
    assert_eq!(version(3).get(), 3);
    assert_eq!(why(IntentVersionRef::new(intent_id("a"), 0)), "intent version must be non-zero");
    assert_eq!(why(intent_ref("a", 0).validate()), "intent version must be non-zero");
}

#[test]
fn digests_are_parsed_strictly() {
    assert_eq!(why(IntentDigest::new(text("sha256:00"))), "intent digest must use sha256:jcs-v1:");
    assert_eq!(
        why(IntentDigest::new(text("sha256:jcs-v1:00"))),
        "intent digest must contain a 64-character hexadecimal sha256 digest",
    );
    assert_eq!(
        why(IntentContentDigest::new(text("md5:00"))),
        "intent content digest must use sha256:",
    );
    assert_eq!(
        why(IntentContentDigest::new(text("sha256:zz"))),
        "intent content digest must contain a 64-character hexadecimal sha256 digest",
    );
    assert_eq!(
        content("abc").as_str(),
        "sha256:ba7816bf8f01cfea414140de5dae2223b00361a396177a9cb410ff61f20015ad",
    );
}

#[test]
fn digests_are_separated_by_domain() {
    let value = intent_ref("intent-1", 1);
    assert_eq!(
        canonical_intent_digest(IntentDigestDomain::Plan, &value).unwrap().as_str(),
        "sha256:jcs-v1:946f3511665ee5f026ce83dd3138469a2be8007f3e531addc18559dfdec0e81f",
    );
    assert_ne!(
        canonical_intent_digest(IntentDigestDomain::Plan, &value),
        canonical_intent_digest(IntentDigestDomain::Proposal, &value),
    );
}

#[test]
fn bounded_texts_are_checked() {
    assert_eq!(why(validate_bounded_identity("turn id", " ")), "turn id cannot be empty");
    assert_eq!(
        why(validate_bounded_identity("turn id", &"a".repeat(257))),
        "turn id is too long",
    );
    assert_eq!(
        why(validate_bounded_identity("turn id", "a\u{7}b")),
        "turn id contains control characters",
    );
    assert_eq!(why(validate_bounded_identity("turn id", " a\n")), "accepted");
    assert_eq!(why(validate_bounded_text("reason", "\n", 8)), "reason cannot be empty");
    assert_eq!(why(validate_bounded_text("reason", "123456789", 8)), "reason exceeds 8 bytes");
    assert_eq!(
        why(validate_bounded_text("reason", "a\u{0}b", 8)),
        "reason contains unsupported control characters",
    );
    assert_eq!(why(validate_bounded_text("reason", "a\tb\r\n", 8)), "accepted");
    for bad in ["", "/a", "a\\b", "a//b", "a/./b", "../a", "a/"] {
        assert_eq!(
            why(validate_normalized_relative_path(bad)),
            "intent artifact path must be a normalized relative path",
            "{bad}",
        );
    }
    assert_eq!(
        why(validate_normalized_relative_path("a\u{7}")),
        "intent artifact path contains control characters",
    );
}

#[test]
fn proposals_are_sealed_by_their_digest() {
    let mut base = unit("base", &[]);
    base.title = text("Base \"one\"");
    base.statement = text("B\u{e4}se\tline\n");
    base.acceptance_criteria = vec![proposed_criterion("c1", "It builds", true)];
    let mut top = unit("top", &["base"]);
    top.title = text("Top");
    top.statement = text("On top");
    top.acceptance_criteria = vec![proposed_criterion("c1", "It runs", false)];
    let mut made = proposal(vec![base, top]).unwrap();
    assert_eq!(
        made.proposal_digest.as_str(),
        "sha256:jcs-v1:931aefc6dfc07dd6c2d1ad38bc76bbdef37fbb80e6a6f55ddca641cd968a7926",
    );
    assert_eq!(made.validate_contract(), Ok(()));
    made.intents[1].title = text("Changed");
    assert_eq!(why(made.validate_contract()), "intent proposal canonical digest mismatch");
    made.schema_version = 2;
    assert_eq!(why(made.validate_contract()), "unsupported intent contract schema version 2");
}

#[test]
fn proposal_payloads_are_canonical_json() {
    let made = proposal(vec![unit("base", &[])]).unwrap();
    assert_eq!(
        made.to_payload_json(),
        "{\"intents\":[{\"acceptance_criteria\":[{\"criterion_alias\":\"c1\",\"required\":true,\
         \"statement\":\"It holds\"}],\"intent_alias\":\"base\",\"statement\":\"Statement\",\
         \"title\":\"Title\"}],\"proposal_id\":\"proposal-1\",\"schema_version\":1,\
         \"source_turn_id\":\"turn-1\"}",
    );
}

#[test]
fn unsound_proposals_are_refused() {
    let refused = |intents: Vec<IntentProposalUnitV1>| why(proposal(intents));
    assert_eq!(refused(vec![]), "intent proposal must contain at least one intent");
    let many = (0..65).map(|i| unit(&format!("a{i}"), &[])).collect();
    assert_eq!(refused(many), "intent proposal contains too many intents");
    assert_eq!(refused(vec![unit("a b", &[])]), "intent proposal alias contains unsupported characters");
    let titled = IntentProposalUnitV1 { title: text(" "), ..unit("a", &[]) };
    assert_eq!(refused(vec![titled]), "intent title cannot be empty");
    let long = IntentProposalUnitV1 { title: "t".repeat(257), ..unit("a", &[]) };
    assert_eq!(refused(vec![long]), "intent title exceeds 256 bytes");
    let bare = IntentProposalUnitV1 { acceptance_criteria: vec![], ..unit("a", &[]) };
    assert_eq!(refused(vec![bare]), "intent proposal must contain at least one acceptance criterion");
    let criterion = || proposed_criterion("c1", "It holds", true);
    let twice = IntentProposalUnitV1 {
        acceptance_criteria: vec![criterion(), criterion()],
        ..unit("a", &[])
    };
    assert_eq!(refused(vec![twice]), "intent proposal contains duplicate criterion aliases");
    let crowded = IntentProposalUnitV1 { acceptance_criteria: vec![criterion(); 65], ..unit("a", &[]) };
    assert_eq!(refused(vec![crowded]), "intent proposal contains too many acceptance criteria");
    assert_eq!(
        refused(vec![unit("a", &[]), unit("a", &[])]),
        "intent proposal contains duplicate aliases",
    );
    assert_eq!(refused(vec![unit("a", &["a"])]), "intent proposal cannot depend on itself");
    assert_eq!(
        refused(vec![unit("a", &["b"])]),
        "intent proposal dependency alias does not exist",
    );
    assert_eq!(
        refused(vec![unit("a", &["b", "b"]), unit("b", &[])]),
        "intent proposal contains duplicate dependency aliases",
    );
    assert_eq!(
        refused(vec![unit("a", &["b"]), unit("b", &["c"]), unit("c", &["a"])]),
        "intent proposal dependency graph contains a cycle",
    );
}

#[test]
fn plans_are_sealed_by_their_digest() {
    let mut root = definition("intent-1", &[], user_turn());
    root.intent_ref.version = 2;
    root.title = text("Root");
    root.statement = text("Do it");
    root.acceptance_criteria[0].statement = text("Done");
    root.supersedes = Some(intent_ref("intent-1", 1));
    let mut made = plan(IntentPlanKind::UserDeclaredRoot, vec![root]);
    assert_eq!(
        made.plan_digest.as_str(),
        "sha256:jcs-v1:c15165a83e56d9a466d57039b610633cf8a3d9c25c96e42fac043416b3949636",
    );
    assert_eq!(made.validate_contract(), Ok(()));
    made.workspace_id = text("workspace-2");
    assert_eq!(why(made.validate_contract()), "intent plan canonical digest mismatch");
}

#[test]
fn plans_follow_their_kind() {
    let refused = |plan: IntentPlanV1| why(plan.validate_contract());
    assert_eq!(refused(suggested(vec![])), "intent plan must contain at least one intent");
    assert_eq!(
        refused(plan(
            IntentPlanKind::UserDeclaredRoot,
            vec![definition("a", &[], user_turn()), definition("b", &[], user_turn())],
        )),
        "user-declared root plan must contain exactly one intent",
    );
    assert_eq!(
        refused(plan(IntentPlanKind::UserDeclaredRoot, vec![definition("a", &[], suggestion())])),
        "user-declared root plan must use user-turn provenance",
    );
    assert_eq!(
        refused(suggested(vec![definition("a", &[], user_turn())])),
        "suggested decomposition cannot use direct user-root provenance",
    );
}

#[test]
fn unsound_plans_are_refused() {
    let refused = |intents: Vec<IntentDefinitionV1>| why(suggested(intents).validate_contract());
    let one = |id: &str, depends_on: &[&str]| definition(id, depends_on, suggestion());
    assert_eq!(refused(vec![one("a", &[]), one("b", &["a"])]), "accepted");
    assert_eq!(refused(vec![one("a", &[]), one("a", &[])]), "intent plan contains duplicate intent ids");
    assert_eq!(refused(vec![one("a", &["a"])]), "intent cannot depend on itself");
    assert_eq!(
        refused(vec![one("a", &["z"])]),
        "intent dependency does not exist in the same plan",
    );
    assert_eq!(
        refused(vec![one("a", &["b", "b"]), one("b", &[])]),
        "intent contains duplicate dependencies",
    );
    assert_eq!(
        refused(vec![one("a", &["b"]), one("b", &["a"])]),
        "intent dependency graph contains a cycle",
    );
    let mut zero = one("a", &[]);
    zero.intent_ref.version = 0;
    assert_eq!(refused(vec![zero]), "intent version must be non-zero");
    let mut repeated = one("a", &[]);
    repeated.acceptance_criteria.push(repeated.acceptance_criteria[0].clone());
    assert_eq!(refused(vec![repeated]), "intent contains duplicate acceptance criterion ids");
    let mut bare = one("a", &[]);
    bare.acceptance_criteria = vec![];
    assert_eq!(refused(vec![bare]), "intent must contain at least one acceptance criterion");
    let mut other = one("a", &[]);
    other.supersedes = Some(intent_ref("b", 1));
    assert_eq!(
        refused(vec![other]),
        "intent supersedes must reference an earlier version of the same intent",
    );
    let mut workspace = root_plan();
    workspace.workspace_id = text("");
    assert_eq!(why(sealed(workspace).validate_contract()), "intent workspace id cannot be empty");
    assert_eq!(
        why(validate_intent_source(&IntentSourceV1::TrustedSource {
            source_ref: text(""),
            content_digest: content("x"),
        })),
        "intent trusted spec source ref cannot be empty",
    );
}

#[test]
fn execution_origins_are_concrete() {
    assert_eq!(why(validate_execution_origin(&task_origin(1), false)), "accepted");
    assert_eq!(
        why(validate_execution_origin(&task_origin(0), false)),
        "intent task plan version must be non-zero",
    );
    assert_eq!(
        why(validate_execution_origin(&chat_origin(None), true)),
        "executable intent layer requires a concrete terminal attempt",
    );
    assert_eq!(
        why(validate_execution_origin(&chat_origin(Some(" ")), true)),
        "intent chat attempt id cannot be empty",
    );
    let binding = IntentExecutionBindingV1 {
        execution_id: IntentExecutionId::new(text("execution-1")).unwrap(),
        intent_ref: intent_ref("intent-1", 1),
        origin: chat_origin(None),
        binding_kind: IntentExecutionBindingKind::Mutation,
        source_event_id: text(""),
    };
    assert_eq!(
        why(validate_execution_binding(&binding)),
        "intent execution source event id cannot be empty",
    );
}

#[test]
fn layer_manifests_are_sealed_one_way() {
    assert_eq!(
        layer_core().core_digest.as_str(),
        "sha256:jcs-v1:dca75a6f8225545cf20001fd075b43fb465c4d67ec3ad9fa07a2a2151e610b8a",
    );
    let artifacts = artifact_manifest(vec![hunk()]);
    assert_eq!(
        artifacts.manifest_digest.as_str(),
        "sha256:jcs-v1:3a1bc3f69253b693b954e6e85d77d448909f43c7192260e8eb8a2d50e7229e0c",
    );
    let layer = layer_manifest(layer_core());
    assert_eq!(
        layer.manifest_digest.as_str(),
        "sha256:jcs-v1:898838433d7ced09c9f3b9b8733a8d204c3bab312e255f9613ad678c65dcc0d9",
    );
    assert_eq!(layer_core().validate_contract(), Ok(()));
    assert_eq!(artifacts.validate_contract(), Ok(()));
    assert_eq!(layer.validate_contract(), Ok(()));
    let mut changed = layer.clone();
    changed.artifact_manifest_id = text("am-2");
    assert_eq!(why(changed.validate_contract()), "intent layer manifest canonical digest mismatch");
    let mut tampered = layer_core();
    tampered.result_snapshot_id = text("snap-c");
    assert_eq!(why(tampered.validate_contract()), "intent layer core canonical digest mismatch");
    let mut rootless = layer_core();
    rootless.changeset_ids = vec![];
    assert_eq!(
        why(rootless.validate_contract()),
        "executable intent layer requires change set lineage",
    );
    let mut twice = layer_core();
    twice.changeset_ids = texts(&["cs-1", "cs-1"]);
    assert_eq!(why(twice.validate_contract()), "intent layer contains duplicate change set ids");
    let mut loose = artifacts;
    loose.manifest_digest = digest('9');
    assert_eq!(why(loose.validate_contract()), "intent artifact manifest canonical digest mismatch");
}

#[test]
fn artifact_bindings_fit_their_subject() {
    let refused = |binding: IntentArtifactBindingV1| why(binding.validate_contract());
    assert_eq!(refused(hunk()), "accepted");
    let kind = IntentArtifactBindingV1 { artifact_kind: IntentArtifactKind::ChangeSet, ..hunk() };
    assert_eq!(refused(kind), "file hunk subject requires file_hunk artifact kind");
    let mut rootless = hunk();
    rootless.provenance.changeset_id = None;
    assert_eq!(refused(rootless), "file hunk artifact requires mutation and change set lineage");
    let other = IntentArtifactBindingV1 { after_digest: content("else"), ..hunk() };
    assert_eq!(refused(other), "intent file hunk content digests are inconsistent");
    let evidence = IntentArtifactBindingV1 {
        subject: BoundedIntentArtifactSubjectV1::Evidence { reference_id: text("receipt-1") },
        ..hunk()
    };
    assert_eq!(refused(evidence), "evidence subject has incompatible artifact kind");
    let effect = || BoundedIntentArtifactSubjectV1::UnsupportedSideEffect {
        effect_kind: text("network"),
        safe_summary: text("sent mail"),
    };
    let mislabeled = IntentArtifactBindingV1 { subject: effect(), ..hunk() };
    assert_eq!(
        refused(mislabeled),
        "unsupported side effect subject requires matching artifact kind",
    );
    let owned = IntentArtifactBindingV1 {
        artifact_kind: IntentArtifactKind::UnsupportedSideEffect,
        subject: effect(),
        ..hunk()
    };
    assert_eq!(refused(owned), "unsupported side effect cannot have exclusive ownership");
    let shared = IntentArtifactBindingV1 {
        artifact_kind: IntentArtifactKind::UnsupportedSideEffect,
        subject: effect(),
        ownership: IntentArtifactOwnership::Shared,
        ..hunk()
    };
    assert_eq!(refused(shared), "accepted");
    let manifest = |artifacts: Vec<IntentArtifactBindingV1>| {
        why(artifact_manifest(artifacts).validate_contract())
    };
    assert_eq!(manifest(vec![]), "intent artifact manifest must contain at least one artifact");
    assert_eq!(
        manifest(vec![hunk(), hunk()]),
        "intent artifact manifest contains duplicate artifact ids",
    );
    let mut stray = hunk();
    stray.provenance.execution_id = IntentExecutionId::new(text("execution-2")).unwrap();
    assert_eq!(manifest(vec![stray]), "intent artifact provenance references a different execution");
}

#[test]
fn previews_are_sealed_by_their_digest() {
    let made = preview();
    assert_eq!(
        made.preview_digest.as_str(),
        "sha256:jcs-v1:9dce20f07e87f280dad60825a39797564962d679a26d5ddf82e7e50fc9a3840b",
    );
    assert_eq!(made.validate_contract(), Ok(()));
    let refused = |preview: IntentOperationPreviewV1| why(resealed(preview).validate_contract());
    assert_eq!(
        refused(IntentOperationPreviewV1 { target_intents: vec![], ..preview() }),
        "intent operation preview requires at least one target",
    );
    assert_eq!(
        refused(IntentOperationPreviewV1 { expires_at_ms: Some(0), ..preview() }),
        "intent operation preview expiry must be non-zero",
    );
    let target = || intent_ref("intent-1", 1);
    assert_eq!(
        refused(IntentOperationPreviewV1 { target_intents: vec![target(), target()], ..preview() }),
        "intent operation preview contains duplicate targets",
    );
    assert_eq!(
        refused(IntentOperationPreviewV1 { retained_intents: vec![target()], ..preview() }),
        "intent operation preview cannot both target and retain one intent",
    );
    let mut bare = preview();
    bare.file_effects[0].artifact_ids = vec![];
    assert_eq!(refused(bare), "intent operation file effect requires artifact ids");
    let mut changed = preview();
    changed.workspace_revision = 8;
    assert_eq!(why(changed.validate_contract()), "intent operation preview canonical digest mismatch");
}

#[test]
fn events_have_stable_types() {
    let created = |schema_version: u16| IntentEventV1::StackCreated {
        schema_version,
        stack_id: stack_id(),
        workspace_id: text("workspace-1"),
        source_session_id: text("session-1"),
    };
    assert_eq!(created(1).event_type(), "intent_stack_created");
    assert_eq!(created(1).validate_contract(), Ok(()));
    assert_eq!(why(created(3).validate_schema()), "unsupported intent contract schema version 3");
    let recorded = IntentEventV1::PlanRecorded { schema_version: 1, plan: root_plan() };
    assert_eq!(recorded.event_type(), "intent_plan_recorded");
    assert_eq!(recorded.validate_contract(), Ok(()));
    assert_eq!(
        evidence(IntentCriterionEvidenceLevel::Advisory, &[]).event_type(),
        "intent_verification_linked",
    );
    assert_eq!(
        resolved(IntentOperationResolution::Rejected, None, None, None).event_type(),
        "intent_operation_resolved",
    );
}

#[test]
fn acceptances_name_their_authority() {
    let accepted = |authority: &str, plan_version: u32| IntentEventV1::PlanAccepted {
        schema_version: 1,
        stack_id: stack_id(),
        stack_version: version(1),
        plan_digest: digest('1'),
        acceptance_kind: IntentAcceptanceKind::UserDeclaredRootAdmission,
        source_turn_id: text("turn-1"),
        acceptance_authority_id: text(authority),
        task_plan_binding: Some(IntentTaskPlanBindingV1 {
            task_id: text("task-1"),
            task_plan_version: plan_version,
        }),
    };
    assert_eq!(accepted("event-1", 1).validate_contract(), Ok(()));
    assert_eq!(
        why(accepted("", 1).validate_contract()),
        "intent acceptance authority id cannot be empty",
    );
    assert_eq!(
        why(accepted("event-1", 0).validate_contract()),
        "intent acceptance task plan version must be non-zero",
    );
}

#[test]
fn verification_needs_lineage() {
    let system = IntentCriterionEvidenceLevel::SystemVerified;
    assert_eq!(evidence(system, &["cs-1"]).validate_contract(), Ok(()));
    assert_eq!(
        why(evidence(system, &[]).validate_contract()),
        "system-verified intent criterion requires change set lineage",
    );
    assert_eq!(
        why(evidence(system, &["cs-1", "cs-1"]).validate_contract()),
        "intent verification evidence repeats a change set",
    );
    let empty = IntentEventV1::VerificationLinked { schema_version: 1, evidence: vec![] };
    assert_eq!(why(empty.validate_contract()), "intent verification link requires evidence");
    let unbound = IntentEventV1::ChangeSetBound {
        schema_version: 1,
        intent_ref: intent_ref("intent-1", 1),
        execution_id: IntentExecutionId::new(text("execution-1")).unwrap(),
        changeset_ids: vec![],
    };
    assert_eq!(
        why(unbound.validate_contract()),
        "intent change set binding requires at least one change set",
    );
}

#[test]
fn resolutions_show_what_they_claim() {
    let code = Some(IntentOperationErrorCode::PartialApplication);
    let committed = IntentOperationResolution::Committed;
    assert_eq!(resolved(committed, Some("b"), Some("s"), None).validate_contract(), Ok(()));
    assert_eq!(
        why(resolved(committed, Some("b"), None, None).validate_contract()),
        "committed intent operation requires batch and result without error",
    );
    assert_eq!(
        why(resolved(IntentOperationResolution::Cancelled, None, Some("s"), None).validate_contract()),
        "rejected or cancelled intent operation cannot have result snapshot",
    );
    assert_eq!(
        why(resolved(IntentOperationResolution::Interrupted, None, None, None).validate_contract()),
        "non-success intent operation resolution requires typed error",
    );
    assert_eq!(
        resolved(IntentOperationResolution::PartiallyApplied, None, None, code).validate_contract(),
        Ok(()),
    );
    let superseded = |from: u64, to: u64| IntentEventV1::VersionSuperseded {
        schema_version: 1,
        previous: intent_ref("intent-1", from),
        replacement: intent_ref("intent-1", to),
        safe_reason: text("revised"),
    };
    assert_eq!(superseded(1, 2).validate_contract(), Ok(()));
    assert_eq!(
        why(superseded(2, 2).validate_contract()),
        "intent supersede must advance the same intent lineage",
    );
}

#[test]
fn strings_are_escaped_as_json_asks() {
    let given = text("a\"\\/\u{8}\t\n\u{c}\r\u{0}\u{1f}\u{7f}\u{e9}");
    assert_eq!(
        given.to_json(),
        "\"a\\\"\\\\/\\b\\t\\n\\f\\r\\u0000\\u001f\u{7f}\u{e9}\"",
    );
    assert_eq!(text("").to_json(), "\"\"");
}
