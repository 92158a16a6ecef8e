//! Integration plans: conflicts, lanes and the state that is replayed from the log.

use sigil_kernel::integration::{
    IntegrationConflictEdge, IntegrationConflictReason, IntegrationEffect, IntegrationLaneChanged,
    IntegrationLaneId, IntegrationLaneStatus, IntegrationPlan, IntegrationPlanId,
    IntegrationPlanRecorded, IntegrationProjection, IntegrationPromotionEffect,
    IntegrationPromotionRecorded, IntegrationPromotionStatus, IntegrationPromotionTarget,
    IntegrationProposalSpec,
};
use sigil_kernel::integration_plan::build_integration_plan;
use sigil_kernel::records::{
    ChangeSet, ChangeSetFile, ChangeSetFileAction, ChangeSetRisk, ControlEntry,
};
use sigil_kernel::value::KernelError;

fn text(value: &str) -> String {
    value.to_owned()
}

fn texts(values: &[&str]) -> Vec<String> {
    values.iter().map(|value| text(value)).collect()
}

fn file(path: &str, previous_path: Option<&str>) -> ChangeSetFile {
    ChangeSetFile {
        path: text(path),
        previous_path: previous_path.map(text),
        action: ChangeSetFileAction::Update,
        risk: ChangeSetRisk::Low,
        before_hash: None,
        after_hash: None,
        diff_hash: None,
        additions: 1,
        deletions: 0,
        validations: vec![],
    }
}

fn change_set(id: &str, files: Vec<ChangeSetFile>) -> ChangeSet {
    ChangeSet {
        id: text(id),
        title: text("Change"),
        summary: text("A change"),
        risk: ChangeSetRisk::Low,
        files,
        validations: vec![],
    }
}

fn proposed(
    files: Vec<ChangeSetFile>,
    base: &str,
    depends_on: &[&str],
    generated: &[&str],
    scope: &str,
) -> Result<IntegrationProposalSpec, KernelError> {
    IntegrationProposalSpec::from_changeset(
        &change_set("cs-1", files),
        text("step-1"),
        text(base),
        texts(depends_on),
        texts(generated),
        IntegrationEffect::Files,
        text(scope),
    )
}

fn proposal(id: &str, paths: &[&str], depends_on: &[&str]) -> IntegrationProposalSpec {
    IntegrationProposalSpec {
        change_set_id: text(id),
        step_id: text("step-1"),
        base_snapshot_id: text("snapshot-1"),
        changed_paths: texts(paths),
        depends_on: texts(depends_on),
        generated_artifacts: vec![],
        effect: IntegrationEffect::Files,
        verification_scope_hash: format!("scope-{id}"),
    }
}

fn plan_id(value: &str) -> IntegrationPlanId {
    IntegrationPlanId::new(text(value)).unwrap()
}

fn lane_id(value: &str) -> IntegrationLaneId {
    IntegrationLaneId::new(text(value)).unwrap()
}

fn plan(proposals: Vec<IntegrationProposalSpec>) -> IntegrationPlan {
    build_integration_plan(plan_id("plan-1"), text("task-1"), 1, proposals).unwrap()
}

fn lanes(plan: &IntegrationPlan) -> Vec<Vec<String>> {
    plan.lanes.iter().map(|lane| lane.proposals.clone()).collect()
}

fn recorded(plan: &IntegrationPlan) -> ControlEntry {
    ControlEntry::IntegrationPlanRecorded(IntegrationPlanRecorded { plan: plan.clone() })
}

fn lane_changed(lane: &str, status: IntegrationLaneStatus) -> ControlEntry {
    ControlEntry::IntegrationLaneChanged(IntegrationLaneChanged {
        plan_id: plan_id("plan-1"),
        lane_id: lane_id(lane),
        status,
        candidate: None,
        verification_check_ids: vec![],
        reason: None,
    })
}

fn promotion(
    status: IntegrationPromotionStatus,
    preview: &str,
    effect: Option<IntegrationPromotionEffect>,
) -> ControlEntry {
    ControlEntry::IntegrationPromotionRecorded(IntegrationPromotionRecorded {
        plan_id: plan_id("plan-1"),
        status,
        preview_digest: text(preview),
        target: IntegrationPromotionTarget::WorkspaceApply {
            expected_snapshot_id: text("snapshot-1"),
            expected_revision: 4,
        },
        effect,
        reason: None,
    })
}

fn replay(entries: Vec<ControlEntry>) -> IntegrationProjection {
    IntegrationProjection::from_entries(&entries)
}

#[test]
fn lane_labels_are_stable() {
    assert_eq!(IntegrationEffect::GeneratedArtifacts.as_str(), "generated_artifacts");
    assert_eq!(IntegrationEffect::default(), IntegrationEffect::Files);
    assert_eq!(IntegrationConflictReason::TaskDependency.as_str(), "task_dependency");
    assert_eq!(IntegrationLaneStatus::Verifying.as_str(), "verifying");
    assert_eq!(IntegrationPromotionStatus::Prepared.as_str(), "prepared");
    assert!(IntegrationLaneStatus::Ready.is_terminal());
    assert!(IntegrationLaneStatus::Cancelled.is_terminal());
    assert!(!IntegrationLaneStatus::Integrating.is_terminal());
}

#[test]
fn identities_are_safe_path_components() {
    assert_eq!(plan_id("plan-1_a.B").as_str(), "plan-1_a.B");
    assert_eq!(
        IntegrationPlanId::new(text("..")).unwrap_err().message,
        "integration plan id must not be empty or traversal-like",
    );
    assert_eq!(
        IntegrationLaneId::new(text("")).unwrap_err().message,
        "integration lane id must not be empty or traversal-like",
    );
    assert_eq!(
        IntegrationLaneId::new(text("a/b")).unwrap_err().message,
        "integration lane id contains unsupported characters",
    );
    assert_eq!(
        IntegrationPlanId::new("a".repeat(129)).unwrap_err().message,
        "integration plan id contains unsupported characters",
    );
}

#[test]
fn proposals_are_normalized() {
    let made = proposed(
        vec![file("src/b.rs", Some("src/a.rs"))],
        "snapshot-1",
        &["cs-3", "cs-2", "cs-3"],
        &["gen/z", "gen/a"],
        "scope",
    )
    .unwrap();
    assert_eq!(made.changed_paths, texts(&["src/a.rs", "src/b.rs"]));
    assert_eq!(made.depends_on, texts(&["cs-2", "cs-3"]));
    assert_eq!(made.generated_artifacts, texts(&["gen/a", "gen/z"]));
    assert_eq!(made.change_set_id, "cs-1");
}

#[test]
fn unsound_integration_proposals_are_refused() {
    let one = || vec![file("src/a.rs", None)];
    let failure = |made: Result<IntegrationProposalSpec, KernelError>| made.unwrap_err().message;
    assert_eq!(
        failure(proposed(one(), " ", &[], &[], "scope")),
        "integration proposal base snapshot id must not be empty",
    );
    assert_eq!(
        failure(proposed(one(), "snapshot-1", &[], &[], "")),
        "integration proposal verification scope hash must not be empty",
    );
    assert_eq!(
        failure(proposed(vec![], "snapshot-1", &[], &[], "scope")),
        "integration proposal cs-1 has no changed paths",
    );
    assert_eq!(
        failure(proposed(one(), "snapshot-1", &["cs-1"], &[], "scope")),
        "integration proposal cs-1 cannot depend on itself",
    );
    assert_eq!(
        failure(proposed(vec![file("../a", None)], "snapshot-1", &[], &[], "scope")),
        "integration path must be a normalized relative path: ../a",
    );
    assert_eq!(
        failure(proposed(one(), "snapshot-1", &[], &["/etc/passwd"], "scope")),
        "integration path must be a normalized relative path: /etc/passwd",
    );
    assert_eq!(
        failure(proposed(vec![file(" ", None)], "snapshot-1", &[], &[], "scope")),
        "integration path must not be empty",
    );
    assert_eq!(
        failure(proposed(
            vec![file("src/a.rs", None), file("src\\a.rs", None)],
            "snapshot-1",
            &[],
            &[],
            "scope",
        )),
        "integration proposal cs-1 names a changed path twice",
    );
    assert_eq!(
        failure(proposed(one(), "snapshot-1", &[], &["gen/a.rs", "gen/a.rs"], "scope")),
        "integration proposal cs-1 names a generated artifact twice",
    );
    let long = "a".repeat(4097);
    assert_eq!(
        failure(proposed(vec![file(&long, None)], "snapshot-1", &[], &[], "scope")),
        "integration path exceeds the 4096 byte limit",
    );
}

#[test]
fn independent_proposals_get_their_own_lanes() {
    let made = plan(vec![proposal("cs-b", &["b"], &[]), proposal("cs-a", &["a"], &[])]);
    assert_eq!(lanes(&made), vec![texts(&["cs-a"]), texts(&["cs-b"])]);
    assert!(made.conflicts.is_empty());
    assert_eq!(made.lanes[1].lane_id, lane_id("lane-2"));
    assert_eq!(made.lanes[1].verification_scope_hashes, texts(&["scope-cs-b"]));
    assert_eq!(made.base_snapshot_id, "snapshot-1");
}

#[test]
fn conflicting_proposals_are_serialized_by_dependency() {
    let made = plan(vec![
        proposal("cs-a", &["shared"], &["cs-c"]),
        proposal("cs-b", &["b"], &[]),
        proposal("cs-c", &["c"], &[]),
        proposal("cs-d", &["shared", "d"], &[]),
    ]);
    assert_eq!(lanes(&made), vec![texts(&["cs-c", "cs-a", "cs-d"]), texts(&["cs-b"])]);
    assert_eq!(
        made.conflicts,
        vec![
            IntegrationConflictEdge {
                left: text("cs-a"),
                right: text("cs-c"),
                reasons: vec![IntegrationConflictReason::TaskDependency],
            },
            IntegrationConflictEdge {
                left: text("cs-a"),
                right: text("cs-d"),
                reasons: vec![IntegrationConflictReason::ChangedPathOverlap],
            },
        ],
    );
}

#[test]
fn every_reason_for_a_conflict_is_named() {
    let mut left = proposal("cs-a", &["x"], &["cs-b"]);
    left.generated_artifacts = texts(&["gen"]);
    let mut right = proposal("cs-b", &["x"], &[]);
    right.generated_artifacts = texts(&["gen"]);
    right.effect = IntegrationEffect::Global;
    right.base_snapshot_id = text("snapshot-2");
    let made = plan(vec![left, right]);
    assert_eq!(
        made.conflicts[0].reasons,
        vec![
            IntegrationConflictReason::BaseSnapshotMismatch,
            IntegrationConflictReason::ChangedPathOverlap,
            IntegrationConflictReason::TaskDependency,
            IntegrationConflictReason::GeneratedArtifactOverlap,
            IntegrationConflictReason::GlobalEffect,
        ],
    );
    assert_eq!(lanes(&made), vec![texts(&["cs-b", "cs-a"])]);
}

#[test]
fn circular_dependencies_still_give_a_lane() {
    let made = plan(vec![proposal("cs-a", &["a"], &["cs-b"]), proposal("cs-b", &["b"], &["cs-a"])]);
    assert_eq!(lanes(&made), vec![texts(&["cs-a", "cs-b"])]);
}

#[test]
fn empty_and_repeated_batches_are_refused() {
    assert_eq!(
        build_integration_plan(plan_id("plan-1"), text("task-1"), 1, vec![]).unwrap_err().message,
        "integration plan requires at least one proposal",
    );
    let twice = vec![proposal("cs-a", &["a"], &[]), proposal("cs-a", &["b"], &[])];
    assert_eq!(
        build_integration_plan(plan_id("plan-1"), text("task-1"), 1, twice).unwrap_err().message,
        "integration plan contains a duplicate changeset id",
    );
}

#[test]
fn plans_ignore_the_order_of_proposals() {
    let a = || proposal("cs-a", &["shared"], &["cs-c"]);
    let b = || proposal("cs-b", &["b"], &[]);
    let c = || proposal("cs-c", &["shared"], &[]);
    let made = plan(vec![a(), b(), c()]);
    assert_eq!(plan(vec![c(), a(), b()]), made);
    assert_eq!(plan(vec![b(), c(), a()]), made);
    let mut placed: Vec<String> = lanes(&made).concat();
    placed.sort();
    assert_eq!(placed, texts(&["cs-a", "cs-b", "cs-c"]));
}

#[test]
fn states_and_lanes_stand_in_the_order_of_their_identities() {
    let proposals = || vec![proposal("cs-a", &["a"], &[]), proposal("cs-b", &["b"], &[])];
    let one = plan(proposals());
    let zero =
        build_integration_plan(plan_id("plan-0"), text("task-1"), 1, proposals()).unwrap();
    let lane = |lane: &str| lane_changed(lane, IntegrationLaneStatus::Ready);
    let projection = replay(vec![recorded(&one), recorded(&zero), lane("lane-2"), lane("lane-1")]);
    let ids: Vec<&str> =
        projection.plans.iter().map(|state| state.recorded.plan.plan_id.as_str()).collect();
    assert_eq!(ids, vec!["plan-0", "plan-1"]);
    let changed: Vec<&str> =
        projection.plans[1].lanes.iter().map(|changed| changed.lane_id.as_str()).collect();
    assert_eq!(changed, vec!["lane-1", "lane-2"]);
    assert_eq!(projection.latest_plan_id, Some(plan_id("plan-0")));
    let other = replay(vec![recorded(&one), recorded(&zero), lane("lane-1"), lane("lane-2")]);
    assert_eq!(projection, other);
}

#[test]
fn lanes_are_replayed_from_the_log() {
    let made = plan(vec![proposal("cs-a", &["a"], &[]), proposal("cs-b", &["b"], &[])]);
    let projection = replay(vec![
        ControlEntry::Unrelated,
        recorded(&made),
        lane_changed("lane-1", IntegrationLaneStatus::Integrating),
        lane_changed("lane-1", IntegrationLaneStatus::Ready),
    ]);
    let state = projection.latest().unwrap();
    assert_eq!(state.recorded.plan, made);
    assert!(!state.inconsistent);
    assert_eq!(state.lanes.len(), 1);
    assert_eq!(state.lanes[0].status, IntegrationLaneStatus::Ready);
    assert_eq!(projection.latest_plan_id, Some(plan_id("plan-1")));
    assert_eq!(replay(vec![]), IntegrationProjection::default());
    assert!(IntegrationProjection::default().latest().is_none());
}

#[test]
fn plans_stay_inconsistent_once_contradicted() {
    let first = plan(vec![proposal("cs-a", &["a"], &[])]);
    let second = plan(vec![proposal("cs-b", &["b"], &[])]);
    let again = replay(vec![recorded(&first), recorded(&first)]);
    assert!(!again.latest().unwrap().inconsistent);
    let contradicted = replay(vec![recorded(&first), recorded(&second), recorded(&first)]);
    let state = contradicted.latest().unwrap();
    assert!(state.inconsistent);
    assert_eq!(state.recorded.plan, first);
    let stray = replay(vec![
        recorded(&first),
        lane_changed("lane-9", IntegrationLaneStatus::Ready),
    ]);
    assert!(stray.latest().unwrap().inconsistent);
    assert!(stray.latest().unwrap().lanes.is_empty());
    let unknown = replay(vec![lane_changed("lane-1", IntegrationLaneStatus::Ready)]);
    assert!(unknown.latest().is_none());
}

#[test]
fn promotions_must_show_their_effect() {
    let made = plan(vec![proposal("cs-a", &["a"], &[])]);
    let applied = || IntegrationPromotionEffect::WorkspaceApplied {
        promoted_snapshot_id: text("snapshot-2"),
        promoted_revision: 5,
    };
    let advanced = IntegrationPromotionEffect::GitRefAdvanced {
        old_oid: text("aa"),
        new_oid: text("bb"),
    };
    let consistent = |entry: ControlEntry| {
        let projection = replay(vec![recorded(&made), entry]);
        let state = projection.latest().unwrap();
        assert_eq!(state.promotions.len(), 1);
        !state.inconsistent
    };
    assert!(consistent(promotion(IntegrationPromotionStatus::Promoted, "d", Some(applied()))));
    assert!(consistent(promotion(IntegrationPromotionStatus::Prepared, "d", None)));
    assert!(!consistent(promotion(IntegrationPromotionStatus::Promoted, "d", None)));
    assert!(!consistent(promotion(IntegrationPromotionStatus::Promoted, "d", Some(advanced))));
    assert!(!consistent(promotion(IntegrationPromotionStatus::Failed, "d", Some(applied()))));
    assert!(!consistent(promotion(IntegrationPromotionStatus::Prepared, " ", None)));
}
