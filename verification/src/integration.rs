//! The vocabulary of integration: proposals, lanes, plans, promotions and their replayed state.

use vstd::prelude::*;

use crate::text::{all_of, byte_len, byte_length, every, joined, same_text, CharClass};
use crate::value::{chain, check, outcome, verdict, KernelError, Keyed, Value, Verdict};

verus! {

/// The check of an identity that is safe as part of a path: not empty, not `.` or `..`, at most 128
/// bytes, and of ASCII letters, digits, `-`, `_` and `.` alone.
pub open spec fn path_safe_id_verdict(label: Seq<char>, value: Seq<char>) -> Verdict {
    chain(
        check(
            value.len() > 0 && value != "."@ && value != ".."@,
            label + " must not be empty or traversal-like"@,
        ),
        check(
            byte_len(value) <= 128 && every(CharClass::DottedName, value),
            label + " contains unsupported characters"@,
        ),
    )
}

/// Checks an identity that is to be safe as part of a path.
pub fn validate_stable_id(label: &str, value: &str) -> (r: Result<(), KernelError>)
    ensures
        verdict(r) == path_safe_id_verdict(label@, value@),
{
    if value.is_empty() || same_text(value, ".") || same_text(value, "..") {
        return Err(KernelError { message: joined(label, " must not be empty or traversal-like") });
    }
    if byte_length(value) > 128 || !all_of(CharClass::DottedName, value) {
        return Err(KernelError { message: joined(label, " contains unsupported characters") });
    }
    Ok(())
}

/// Identity of an integration plan.
#[derive(Debug, PartialEq, Eq, PartialOrd, Ord, Hash)]
pub struct IntegrationPlanId(String);

impl Clone for IntegrationPlanId {
    fn clone(&self) -> (r: Self)
        ensures
            r.deep_view() == self.deep_view(),
    {
        self.duplicate()
    }
}

impl DeepView for IntegrationPlanId {
    type V = Seq<char>;

    closed spec fn deep_view(&self) -> Seq<char> {
        self.0@
    }
}

impl IntegrationPlanId {
    #[verifier::type_invariant]
    spec fn path_safe(self) -> bool {
        path_safe_id_verdict("integration plan id"@, self.0@) is Ok
    }

    /// Makes an identity of a text that is safe as part of a path.
    pub fn new(value: String) -> (r: Result<Self, KernelError>)
        ensures
            outcome(r) == match path_safe_id_verdict("integration plan id"@, value@) {
                Ok(_) => Ok::<Seq<char>, Seq<char>>(value@),
                Err(e) => Err(e),
            },
    {
        match validate_stable_id("integration plan id", value.as_str()) {
            Ok(_) => Ok(IntegrationPlanId(value)),
            Err(e) => Err(e),
        }
    }

    /// The text of the identity.
    pub fn as_str(&self) -> (r: &str)
        ensures
            r@ == self.deep_view(),
            path_safe_id_verdict("integration plan id"@, r@) is Ok,
    {
        proof {
            use_type_invariant(self);
        }
        self.0.as_str()
    }
}

impl Value for IntegrationPlanId {
    fn same(&self, other: &Self) -> (r: bool) {
        self.0 == other.0
    }

    fn duplicate(&self) -> (r: Self) {
        proof {
            use_type_invariant(self);
        }
        IntegrationPlanId(self.0.clone())
    }
}

/// Identity of a lane of an integration plan.
#[derive(Debug, PartialEq, Eq, PartialOrd, Ord, Hash)]
pub struct IntegrationLaneId(String);

impl Clone for IntegrationLaneId {
    fn clone(&self) -> (r: Self)
        ensures
            r.deep_view() == self.deep_view(),
    {
        self.duplicate()
    }
}

impl DeepView for IntegrationLaneId {
    type V = Seq<char>;

    closed spec fn deep_view(&self) -> Seq<char> {
        self.0@
    }
}

impl IntegrationLaneId {
    #[verifier::type_invariant]
    spec fn path_safe(self) -> bool {
        path_safe_id_verdict("integration lane id"@, self.0@) is Ok
    }

    /// Makes an identity of a text that is safe as part of a path.
    pub fn new(value: String) -> (r: Result<Self, KernelError>)
        ensures
            outcome(r) == match path_safe_id_verdict("integration lane id"@, value@) {
                Ok(_) => Ok::<Seq<char>, Seq<char>>(value@),
                Err(e) => Err(e),
            },
    {
        match validate_stable_id("integration lane id", value.as_str()) {
            Ok(_) => Ok(IntegrationLaneId(value)),
            Err(e) => Err(e),
        }
    }

    /// The text of the identity.
    pub fn as_str(&self) -> (r: &str)
        ensures
            r@ == self.deep_view(),
            path_safe_id_verdict("integration lane id"@, r@) is Ok,
    {
        proof {
            use_type_invariant(self);
        }
        self.0.as_str()
    }
}

impl Value for IntegrationLaneId {
    fn same(&self, other: &Self) -> (r: bool) {
        self.0 == other.0
    }

    fn duplicate(&self) -> (r: Self) {
        proof {
            use_type_invariant(self);
        }
        IntegrationLaneId(self.0.clone())
    }
}

/// Effect domain used to decide whether otherwise disjoint proposals may integrate independently.
#[derive(Debug, Clone, Copy, PartialEq, Eq, Structural)]
pub enum IntegrationEffect {
    /// Ordinary isolated file changes.
    Files,
    /// A proposal touches one or more declared generated artifacts.
    GeneratedArtifacts,
    /// A package, repository, formatter, codegen, or other global effect requires serialization.
    Global,
}

impl DeepView for IntegrationEffect {
    type V = IntegrationEffect;

    open spec fn deep_view(&self) -> IntegrationEffect {
        *self
    }
}

impl Value for IntegrationEffect {
    fn same(&self, other: &Self) -> (r: bool) {
        *self == *other
    }

    fn duplicate(&self) -> (r: Self) {
        *self
    }
}

/// One proposal admitted to conflict-graph planning.
#[derive(Debug, Clone, PartialEq, Eq)]
pub struct IntegrationProposalSpec {
    pub change_set_id: String,
    pub step_id: String,
    pub base_snapshot_id: String,
    pub changed_paths: Vec<String>,
    pub depends_on: Vec<String>,
    pub generated_artifacts: Vec<String>,
    pub effect: IntegrationEffect,
    pub verification_scope_hash: String,
}

/// What a [`IntegrationProposalSpec`] holds.
#[verifier::ext_equal]
pub struct IntegrationProposalSpecView {
    pub change_set_id: Seq<char>,
    pub step_id: Seq<char>,
    pub base_snapshot_id: Seq<char>,
    pub changed_paths: Seq<Seq<char>>,
    pub depends_on: Seq<Seq<char>>,
    pub generated_artifacts: Seq<Seq<char>>,
    pub effect: IntegrationEffect,
    pub verification_scope_hash: Seq<char>,
}

impl DeepView for IntegrationProposalSpec {
    type V = IntegrationProposalSpecView;

    open spec fn deep_view(&self) -> IntegrationProposalSpecView {
        IntegrationProposalSpecView {
            change_set_id: self.change_set_id.deep_view(),
            step_id: self.step_id.deep_view(),
            base_snapshot_id: self.base_snapshot_id.deep_view(),
            changed_paths: self.changed_paths.deep_view(),
            depends_on: self.depends_on.deep_view(),
            generated_artifacts: self.generated_artifacts.deep_view(),
            effect: self.effect.deep_view(),
            verification_scope_hash: self.verification_scope_hash.deep_view(),
        }
    }
}

impl Value for IntegrationProposalSpec {
    fn same(&self, other: &Self) -> (r: bool) {
        self.change_set_id.same(&other.change_set_id)
            && self.step_id.same(&other.step_id)
            && self.base_snapshot_id.same(&other.base_snapshot_id)
            && self.changed_paths.same(&other.changed_paths)
            && self.depends_on.same(&other.depends_on)
            && self.generated_artifacts.same(&other.generated_artifacts)
            && self.effect.same(&other.effect)
            && self.verification_scope_hash.same(&other.verification_scope_hash)
    }

    fn duplicate(&self) -> (r: Self) {
        IntegrationProposalSpec {
            change_set_id: self.change_set_id.duplicate(),
            step_id: self.step_id.duplicate(),
            base_snapshot_id: self.base_snapshot_id.duplicate(),
            changed_paths: self.changed_paths.duplicate(),
            depends_on: self.depends_on.duplicate(),
            generated_artifacts: self.generated_artifacts.duplicate(),
            effect: self.effect.duplicate(),
            verification_scope_hash: self.verification_scope_hash.duplicate(),
        }
    }
}

/// Why two proposals must serialize in one conflict component.
#[derive(Debug, Clone, Copy, PartialEq, Eq, Structural)]
pub enum IntegrationConflictReason {
    BaseSnapshotMismatch,
    ChangedPathOverlap,
    TaskDependency,
    GeneratedArtifactOverlap,
    GlobalEffect,
}

impl DeepView for IntegrationConflictReason {
    type V = IntegrationConflictReason;

    open spec fn deep_view(&self) -> IntegrationConflictReason {
        *self
    }
}

impl Value for IntegrationConflictReason {
    fn same(&self, other: &Self) -> (r: bool) {
        *self == *other
    }

    fn duplicate(&self) -> (r: Self) {
        *self
    }
}

/// One undirected conflict-graph edge.
#[derive(Debug, Clone, PartialEq, Eq)]
pub struct IntegrationConflictEdge {
    pub left: String,
    pub right: String,
    pub reasons: Vec<IntegrationConflictReason>,
}

/// What a [`IntegrationConflictEdge`] holds.
#[verifier::ext_equal]
pub struct IntegrationConflictEdgeView {
    pub left: Seq<char>,
    pub right: Seq<char>,
    pub reasons: Seq<IntegrationConflictReason>,
}

impl DeepView for IntegrationConflictEdge {
    type V = IntegrationConflictEdgeView;

    open spec fn deep_view(&self) -> IntegrationConflictEdgeView {
        IntegrationConflictEdgeView {
            left: self.left.deep_view(),
            right: self.right.deep_view(),
            reasons: self.reasons.deep_view(),
        }
    }
}

impl Value for IntegrationConflictEdge {
    fn same(&self, other: &Self) -> (r: bool) {
        self.left.same(&other.left)
            && self.right.same(&other.right)
            && self.reasons.same(&other.reasons)
    }

    fn duplicate(&self) -> (r: Self) {
        IntegrationConflictEdge {
            left: self.left.duplicate(),
            right: self.right.duplicate(),
            reasons: self.reasons.duplicate(),
        }
    }
}

/// Ordered proposals that must be integrated serially inside one lane.
#[derive(Debug, Clone, PartialEq, Eq)]
pub struct IntegrationLaneSpec {
    pub lane_id: IntegrationLaneId,
    pub proposals: Vec<String>,
    pub verification_scope_hashes: Vec<String>,
}

/// What a [`IntegrationLaneSpec`] holds.
#[verifier::ext_equal]
pub struct IntegrationLaneSpecView {
    pub lane_id: Seq<char>,
    pub proposals: Seq<Seq<char>>,
    pub verification_scope_hashes: Seq<Seq<char>>,
}

impl DeepView for IntegrationLaneSpec {
    type V = IntegrationLaneSpecView;

    open spec fn deep_view(&self) -> IntegrationLaneSpecView {
        IntegrationLaneSpecView {
            lane_id: self.lane_id.deep_view(),
            proposals: self.proposals.deep_view(),
            verification_scope_hashes: self.verification_scope_hashes.deep_view(),
        }
    }
}

impl Value for IntegrationLaneSpec {
    fn same(&self, other: &Self) -> (r: bool) {
        self.lane_id.same(&other.lane_id)
            && self.proposals.same(&other.proposals)
            && self.verification_scope_hashes.same(&other.verification_scope_hashes)
    }

    fn duplicate(&self) -> (r: Self) {
        IntegrationLaneSpec {
            lane_id: self.lane_id.duplicate(),
            proposals: self.proposals.duplicate(),
            verification_scope_hashes: self.verification_scope_hashes.duplicate(),
        }
    }
}

/// Deterministic conflict graph and lane assignment.
#[derive(Debug, Clone, PartialEq, Eq)]
pub struct IntegrationPlan {
    pub plan_id: IntegrationPlanId,
    pub task_id: String,
    pub plan_version: u32,
    pub base_snapshot_id: String,
    pub proposals: Vec<IntegrationProposalSpec>,
    pub conflicts: Vec<IntegrationConflictEdge>,
    pub lanes: Vec<IntegrationLaneSpec>,
}

/// What a [`IntegrationPlan`] holds.
#[verifier::ext_equal]
pub struct IntegrationPlanView {
    pub plan_id: Seq<char>,
    pub task_id: Seq<char>,
    pub plan_version: u32,
    pub base_snapshot_id: Seq<char>,
    pub proposals: Seq<IntegrationProposalSpecView>,
    pub conflicts: Seq<IntegrationConflictEdgeView>,
    pub lanes: Seq<IntegrationLaneSpecView>,
}

impl DeepView for IntegrationPlan {
    type V = IntegrationPlanView;

    open spec fn deep_view(&self) -> IntegrationPlanView {
        IntegrationPlanView {
            plan_id: self.plan_id.deep_view(),
            task_id: self.task_id.deep_view(),
            plan_version: self.plan_version.deep_view(),
            base_snapshot_id: self.base_snapshot_id.deep_view(),
            proposals: self.proposals.deep_view(),
            conflicts: self.conflicts.deep_view(),
            lanes: self.lanes.deep_view(),
        }
    }
}

impl Value for IntegrationPlan {
    fn same(&self, other: &Self) -> (r: bool) {
        self.plan_id.same(&other.plan_id)
            && self.task_id.same(&other.task_id)
            && self.plan_version.same(&other.plan_version)
            && self.base_snapshot_id.same(&other.base_snapshot_id)
            && self.proposals.same(&other.proposals)
            && self.conflicts.same(&other.conflicts)
            && self.lanes.same(&other.lanes)
    }

    fn duplicate(&self) -> (r: Self) {
        IntegrationPlan {
            plan_id: self.plan_id.duplicate(),
            task_id: self.task_id.duplicate(),
            plan_version: self.plan_version.duplicate(),
            base_snapshot_id: self.base_snapshot_id.duplicate(),
            proposals: self.proposals.duplicate(),
            conflicts: self.conflicts.duplicate(),
            lanes: self.lanes.duplicate(),
        }
    }
}

/// Runtime lifecycle for one private integration lane.
#[derive(Debug, Clone, Copy, PartialEq, Eq, Structural)]
pub enum IntegrationLaneStatus {
    Pending,
    Integrating,
    Verifying,
    Ready,
    Conflict,
    Stale,
    Failed,
    Promoted,
    Cancelled,
}

impl DeepView for IntegrationLaneStatus {
    type V = IntegrationLaneStatus;

    open spec fn deep_view(&self) -> IntegrationLaneStatus {
        *self
    }
}

impl Value for IntegrationLaneStatus {
    fn same(&self, other: &Self) -> (r: bool) {
        *self == *other
    }

    fn duplicate(&self) -> (r: Self) {
        *self
    }
}

/// Append-only integration plan fact.
#[derive(Debug, Clone, PartialEq, Eq)]
pub struct IntegrationPlanRecorded {
    pub plan: IntegrationPlan,
}

/// What a [`IntegrationPlanRecorded`] holds.
#[verifier::ext_equal]
pub struct IntegrationPlanRecordedView {
    pub plan: IntegrationPlanView,
}

impl DeepView for IntegrationPlanRecorded {
    type V = IntegrationPlanRecordedView;

    open spec fn deep_view(&self) -> IntegrationPlanRecordedView {
        IntegrationPlanRecordedView {
            plan: self.plan.deep_view(),
        }
    }
}

impl Value for IntegrationPlanRecorded {
    fn same(&self, other: &Self) -> (r: bool) {
        self.plan.same(&other.plan)
    }

    fn duplicate(&self) -> (r: Self) {
        IntegrationPlanRecorded {
            plan: self.plan.duplicate(),
        }
    }
}

/// Append-only lane transition with bounded verification/ref evidence.
#[derive(Debug, Clone, PartialEq, Eq)]
pub struct IntegrationLaneChanged {
    pub plan_id: IntegrationPlanId,
    pub lane_id: IntegrationLaneId,
    pub status: IntegrationLaneStatus,
    pub candidate: Option<IntegrationLaneCandidate>,
    pub verification_check_ids: Vec<String>,
    pub reason: Option<String>,
}

/// What a [`IntegrationLaneChanged`] holds.
#[verifier::ext_equal]
pub struct IntegrationLaneChangedView {
    pub plan_id: Seq<char>,
    pub lane_id: Seq<char>,
    pub status: IntegrationLaneStatus,
    pub candidate: Option<IntegrationLaneCandidateView>,
    pub verification_check_ids: Seq<Seq<char>>,
    pub reason: Option<Seq<char>>,
}

impl DeepView for IntegrationLaneChanged {
    type V = IntegrationLaneChangedView;

    open spec fn deep_view(&self) -> IntegrationLaneChangedView {
        IntegrationLaneChangedView {
            plan_id: self.plan_id.deep_view(),
            lane_id: self.lane_id.deep_view(),
            status: self.status.deep_view(),
            candidate: self.candidate.deep_view(),
            verification_check_ids: self.verification_check_ids.deep_view(),
            reason: self.reason.deep_view(),
        }
    }
}

impl Value for IntegrationLaneChanged {
    fn same(&self, other: &Self) -> (r: bool) {
        self.plan_id.same(&other.plan_id)
            && self.lane_id.same(&other.lane_id)
            && self.status.same(&other.status)
            && self.candidate.same(&other.candidate)
            && self.verification_check_ids.same(&other.verification_check_ids)
            && self.reason.same(&other.reason)
    }

    fn duplicate(&self) -> (r: Self) {
        IntegrationLaneChanged {
            plan_id: self.plan_id.duplicate(),
            lane_id: self.lane_id.duplicate(),
            status: self.status.duplicate(),
            candidate: self.candidate.duplicate(),
            verification_check_ids: self.verification_check_ids.duplicate(),
            reason: self.reason.duplicate(),
        }
    }
}

/// Exact runtime-owned candidate target produced by one integration lane.  Managed refs are valid
/// only for clean commit bases. Snapshot workspaces preserve an inherited dirty/untracked overlay
/// and therefore cannot be represented as a Git ref without losing bytes.
#[derive(Debug, Clone, PartialEq, Eq)]
pub enum IntegrationLaneCandidate {
    ManagedRef {
        private_ref: String,
        base_commit: String,
        candidate_commit: String,
        workspace_snapshot_id: String,
    },
    SnapshotWorkspace {
        owned_workspace_id: String,
        base_snapshot_id: String,
        overlay_digest: String,
        revision: u64,
        candidate_snapshot_id: String,
    },
}

/// What a [`IntegrationLaneCandidate`] holds.
#[verifier::ext_equal]
pub enum IntegrationLaneCandidateView {
    ManagedRef {
        private_ref: Seq<char>,
        base_commit: Seq<char>,
        candidate_commit: Seq<char>,
        workspace_snapshot_id: Seq<char>,
    },
    SnapshotWorkspace {
        owned_workspace_id: Seq<char>,
        base_snapshot_id: Seq<char>,
        overlay_digest: Seq<char>,
        revision: u64,
        candidate_snapshot_id: Seq<char>,
    },
}

impl DeepView for IntegrationLaneCandidate {
    type V = IntegrationLaneCandidateView;

    open spec fn deep_view(&self) -> IntegrationLaneCandidateView {
        match self {
            IntegrationLaneCandidate::ManagedRef { private_ref, base_commit, candidate_commit, workspace_snapshot_id } => IntegrationLaneCandidateView::ManagedRef {
                private_ref: private_ref.deep_view(),
                base_commit: base_commit.deep_view(),
                candidate_commit: candidate_commit.deep_view(),
                workspace_snapshot_id: workspace_snapshot_id.deep_view(),
            },
            IntegrationLaneCandidate::SnapshotWorkspace { owned_workspace_id, base_snapshot_id, overlay_digest, revision, candidate_snapshot_id } => IntegrationLaneCandidateView::SnapshotWorkspace {
                owned_workspace_id: owned_workspace_id.deep_view(),
                base_snapshot_id: base_snapshot_id.deep_view(),
                overlay_digest: overlay_digest.deep_view(),
                revision: revision.deep_view(),
                candidate_snapshot_id: candidate_snapshot_id.deep_view(),
            },
        }
    }
}

impl Value for IntegrationLaneCandidate {
    fn same(&self, other: &Self) -> (r: bool) {
        match (self, other) {
            (
                IntegrationLaneCandidate::ManagedRef { private_ref, base_commit, candidate_commit, workspace_snapshot_id },
                IntegrationLaneCandidate::ManagedRef { private_ref: private_ref2, base_commit: base_commit2, candidate_commit: candidate_commit2, workspace_snapshot_id: workspace_snapshot_id2 },
            ) => private_ref.same(private_ref2)
                && base_commit.same(base_commit2)
                && candidate_commit.same(candidate_commit2)
                && workspace_snapshot_id.same(workspace_snapshot_id2),
            (
                IntegrationLaneCandidate::SnapshotWorkspace { owned_workspace_id, base_snapshot_id, overlay_digest, revision, candidate_snapshot_id },
                IntegrationLaneCandidate::SnapshotWorkspace { owned_workspace_id: owned_workspace_id2, base_snapshot_id: base_snapshot_id2, overlay_digest: overlay_digest2, revision: revision2, candidate_snapshot_id: candidate_snapshot_id2 },
            ) => owned_workspace_id.same(owned_workspace_id2)
                && base_snapshot_id.same(base_snapshot_id2)
                && overlay_digest.same(overlay_digest2)
                && revision.same(revision2)
                && candidate_snapshot_id.same(candidate_snapshot_id2),
            _ => false,
        }
    }

    fn duplicate(&self) -> (r: Self) {
        match self {
            IntegrationLaneCandidate::ManagedRef { private_ref, base_commit, candidate_commit, workspace_snapshot_id } => IntegrationLaneCandidate::ManagedRef {
                private_ref: private_ref.duplicate(),
                base_commit: base_commit.duplicate(),
                candidate_commit: candidate_commit.duplicate(),
                workspace_snapshot_id: workspace_snapshot_id.duplicate(),
            },
            IntegrationLaneCandidate::SnapshotWorkspace { owned_workspace_id, base_snapshot_id, overlay_digest, revision, candidate_snapshot_id } => IntegrationLaneCandidate::SnapshotWorkspace {
                owned_workspace_id: owned_workspace_id.duplicate(),
                base_snapshot_id: base_snapshot_id.duplicate(),
                overlay_digest: overlay_digest.duplicate(),
                revision: revision.duplicate(),
                candidate_snapshot_id: candidate_snapshot_id.duplicate(),
            },
        }
    }
}

/// Result of the final exact parent snapshot/ref promotion barrier.
#[derive(Debug, Clone, Copy, PartialEq, Eq, Structural)]
pub enum IntegrationPromotionStatus {
    Prepared,
    Promoted,
    Conflict,
    Stale,
    Failed,
    Cancelled,
}

impl DeepView for IntegrationPromotionStatus {
    type V = IntegrationPromotionStatus;

    open spec fn deep_view(&self) -> IntegrationPromotionStatus {
        *self
    }
}

impl Value for IntegrationPromotionStatus {
    fn same(&self, other: &Self) -> (r: bool) {
        *self == *other
    }

    fn duplicate(&self) -> (r: Self) {
        *self
    }
}

/// Mutually exclusive final promotion target.
#[derive(Debug, Clone, PartialEq, Eq)]
pub enum IntegrationPromotionTarget {
    WorkspaceApply {
        expected_snapshot_id: String,
        expected_revision: u64,
    },
    GitRefAdvance {
        target_ref: String,
        expected_old_oid: String,
        candidate_oid: String,
    },
}

/// What a [`IntegrationPromotionTarget`] holds.
#[verifier::ext_equal]
pub enum IntegrationPromotionTargetView {
    WorkspaceApply {
        expected_snapshot_id: Seq<char>,
        expected_revision: u64,
    },
    GitRefAdvance {
        target_ref: Seq<char>,
        expected_old_oid: Seq<char>,
        candidate_oid: Seq<char>,
    },
}

impl DeepView for IntegrationPromotionTarget {
    type V = IntegrationPromotionTargetView;

    open spec fn deep_view(&self) -> IntegrationPromotionTargetView {
        match self {
            IntegrationPromotionTarget::WorkspaceApply { expected_snapshot_id, expected_revision } => IntegrationPromotionTargetView::WorkspaceApply {
                expected_snapshot_id: expected_snapshot_id.deep_view(),
                expected_revision: expected_revision.deep_view(),
            },
            IntegrationPromotionTarget::GitRefAdvance { target_ref, expected_old_oid, candidate_oid } => IntegrationPromotionTargetView::GitRefAdvance {
                target_ref: target_ref.deep_view(),
                expected_old_oid: expected_old_oid.deep_view(),
                candidate_oid: candidate_oid.deep_view(),
            },
        }
    }
}

impl Value for IntegrationPromotionTarget {
    fn same(&self, other: &Self) -> (r: bool) {
        match (self, other) {
            (
                IntegrationPromotionTarget::WorkspaceApply { expected_snapshot_id, expected_revision },
                IntegrationPromotionTarget::WorkspaceApply { expected_snapshot_id: expected_snapshot_id2, expected_revision: expected_revision2 },
            ) => expected_snapshot_id.same(expected_snapshot_id2)
                && expected_revision.same(expected_revision2),
            (
                IntegrationPromotionTarget::GitRefAdvance { target_ref, expected_old_oid, candidate_oid },
                IntegrationPromotionTarget::GitRefAdvance { target_ref: target_ref2, expected_old_oid: expected_old_oid2, candidate_oid: candidate_oid2 },
            ) => target_ref.same(target_ref2)
                && expected_old_oid.same(expected_old_oid2)
                && candidate_oid.same(candidate_oid2),
            _ => false,
        }
    }

    fn duplicate(&self) -> (r: Self) {
        match self {
            IntegrationPromotionTarget::WorkspaceApply { expected_snapshot_id, expected_revision } => IntegrationPromotionTarget::WorkspaceApply {
                expected_snapshot_id: expected_snapshot_id.duplicate(),
                expected_revision: expected_revision.duplicate(),
            },
            IntegrationPromotionTarget::GitRefAdvance { target_ref, expected_old_oid, candidate_oid } => IntegrationPromotionTarget::GitRefAdvance {
                target_ref: target_ref.duplicate(),
                expected_old_oid: expected_old_oid.duplicate(),
                candidate_oid: candidate_oid.duplicate(),
            },
        }
    }
}

/// Exact effect observed for a successful promotion target.
#[derive(Debug, Clone, PartialEq, Eq)]
pub enum IntegrationPromotionEffect {
    WorkspaceApplied {
        promoted_snapshot_id: String,
        promoted_revision: u64,
    },
    GitRefAdvanced {
        old_oid: String,
        new_oid: String,
    },
}

/// What a [`IntegrationPromotionEffect`] holds.
#[verifier::ext_equal]
pub enum IntegrationPromotionEffectView {
    WorkspaceApplied {
        promoted_snapshot_id: Seq<char>,
        promoted_revision: u64,
    },
    GitRefAdvanced {
        old_oid: Seq<char>,
        new_oid: Seq<char>,
    },
}

impl DeepView for IntegrationPromotionEffect {
    type V = IntegrationPromotionEffectView;

    open spec fn deep_view(&self) -> IntegrationPromotionEffectView {
        match self {
            IntegrationPromotionEffect::WorkspaceApplied { promoted_snapshot_id, promoted_revision } => IntegrationPromotionEffectView::WorkspaceApplied {
                promoted_snapshot_id: promoted_snapshot_id.deep_view(),
                promoted_revision: promoted_revision.deep_view(),
            },
            IntegrationPromotionEffect::GitRefAdvanced { old_oid, new_oid } => IntegrationPromotionEffectView::GitRefAdvanced {
                old_oid: old_oid.deep_view(),
                new_oid: new_oid.deep_view(),
            },
        }
    }
}

impl Value for IntegrationPromotionEffect {
    fn same(&self, other: &Self) -> (r: bool) {
        match (self, other) {
            (
                IntegrationPromotionEffect::WorkspaceApplied { promoted_snapshot_id, promoted_revision },
                IntegrationPromotionEffect::WorkspaceApplied { promoted_snapshot_id: promoted_snapshot_id2, promoted_revision: promoted_revision2 },
            ) => promoted_snapshot_id.same(promoted_snapshot_id2)
                && promoted_revision.same(promoted_revision2),
            (
                IntegrationPromotionEffect::GitRefAdvanced { old_oid, new_oid },
                IntegrationPromotionEffect::GitRefAdvanced { old_oid: old_oid2, new_oid: new_oid2 },
            ) => old_oid.same(old_oid2)
                && new_oid.same(new_oid2),
            _ => false,
        }
    }

    fn duplicate(&self) -> (r: Self) {
        match self {
            IntegrationPromotionEffect::WorkspaceApplied { promoted_snapshot_id, promoted_revision } => IntegrationPromotionEffect::WorkspaceApplied {
                promoted_snapshot_id: promoted_snapshot_id.duplicate(),
                promoted_revision: promoted_revision.duplicate(),
            },
            IntegrationPromotionEffect::GitRefAdvanced { old_oid, new_oid } => IntegrationPromotionEffect::GitRefAdvanced {
                old_oid: old_oid.duplicate(),
                new_oid: new_oid.duplicate(),
            },
        }
    }
}

/// Append-only final promotion fact.
#[derive(Debug, Clone, PartialEq, Eq)]
pub struct IntegrationPromotionRecorded {
    pub plan_id: IntegrationPlanId,
    pub status: IntegrationPromotionStatus,
    pub preview_digest: String,
    pub target: IntegrationPromotionTarget,
    pub effect: Option<IntegrationPromotionEffect>,
    pub reason: Option<String>,
}

/// What a [`IntegrationPromotionRecorded`] holds.
#[verifier::ext_equal]
pub struct IntegrationPromotionRecordedView {
    pub plan_id: Seq<char>,
    pub status: IntegrationPromotionStatus,
    pub preview_digest: Seq<char>,
    pub target: IntegrationPromotionTargetView,
    pub effect: Option<IntegrationPromotionEffectView>,
    pub reason: Option<Seq<char>>,
}

impl DeepView for IntegrationPromotionRecorded {
    type V = IntegrationPromotionRecordedView;

    open spec fn deep_view(&self) -> IntegrationPromotionRecordedView {
        IntegrationPromotionRecordedView {
            plan_id: self.plan_id.deep_view(),
            status: self.status.deep_view(),
            preview_digest: self.preview_digest.deep_view(),
            target: self.target.deep_view(),
            effect: self.effect.deep_view(),
            reason: self.reason.deep_view(),
        }
    }
}

impl Value for IntegrationPromotionRecorded {
    fn same(&self, other: &Self) -> (r: bool) {
        self.plan_id.same(&other.plan_id)
            && self.status.same(&other.status)
            && self.preview_digest.same(&other.preview_digest)
            && self.target.same(&other.target)
            && self.effect.same(&other.effect)
            && self.reason.same(&other.reason)
    }

    fn duplicate(&self) -> (r: Self) {
        IntegrationPromotionRecorded {
            plan_id: self.plan_id.duplicate(),
            status: self.status.duplicate(),
            preview_digest: self.preview_digest.duplicate(),
            target: self.target.duplicate(),
            effect: self.effect.duplicate(),
            reason: self.reason.duplicate(),
        }
    }
}

/// Latest replayed state for one integration plan.
#[derive(Debug, Clone, PartialEq, Eq)]
pub struct IntegrationPlanState {
    pub recorded: IntegrationPlanRecorded,
    pub lanes: Vec<IntegrationLaneChanged>,
    pub promotions: Vec<IntegrationPromotionRecorded>,
    pub inconsistent: bool,
}

/// What a [`IntegrationPlanState`] holds.
#[verifier::ext_equal]
pub struct IntegrationPlanStateView {
    pub recorded: IntegrationPlanRecordedView,
    pub lanes: Seq<IntegrationLaneChangedView>,
    pub promotions: Seq<IntegrationPromotionRecordedView>,
    pub inconsistent: bool,
}

impl DeepView for IntegrationPlanState {
    type V = IntegrationPlanStateView;

    open spec fn deep_view(&self) -> IntegrationPlanStateView {
        IntegrationPlanStateView {
            recorded: self.recorded.deep_view(),
            lanes: self.lanes.deep_view(),
            promotions: self.promotions.deep_view(),
            inconsistent: self.inconsistent.deep_view(),
        }
    }
}

impl Value for IntegrationPlanState {
    fn same(&self, other: &Self) -> (r: bool) {
        self.recorded.same(&other.recorded)
            && self.lanes.same(&other.lanes)
            && self.promotions.same(&other.promotions)
            && self.inconsistent.same(&other.inconsistent)
    }

    fn duplicate(&self) -> (r: Self) {
        IntegrationPlanState {
            recorded: self.recorded.duplicate(),
            lanes: self.lanes.duplicate(),
            promotions: self.promotions.duplicate(),
            inconsistent: self.inconsistent.duplicate(),
        }
    }
}

/// Reconstructed integration state from append-only control entries.
#[derive(Debug, Clone, PartialEq, Eq)]
pub struct IntegrationProjection {
    pub plans: Vec<IntegrationPlanState>,
    pub latest_plan_id: Option<IntegrationPlanId>,
}

/// What a [`IntegrationProjection`] holds.
#[verifier::ext_equal]
pub struct IntegrationProjectionView {
    pub plans: Seq<IntegrationPlanStateView>,
    pub latest_plan_id: Option<Seq<char>>,
}

impl DeepView for IntegrationProjection {
    type V = IntegrationProjectionView;

    open spec fn deep_view(&self) -> IntegrationProjectionView {
        IntegrationProjectionView {
            plans: self.plans.deep_view(),
            latest_plan_id: self.latest_plan_id.deep_view(),
        }
    }
}

impl Value for IntegrationProjection {
    fn same(&self, other: &Self) -> (r: bool) {
        self.plans.same(&other.plans)
            && self.latest_plan_id.same(&other.latest_plan_id)
    }

    fn duplicate(&self) -> (r: Self) {
        IntegrationProjection {
            plans: self.plans.duplicate(),
            latest_plan_id: self.latest_plan_id.duplicate(),
        }
    }
}

impl Keyed for IntegrationPlanState {
    open spec fn key(v: IntegrationPlanStateView) -> Seq<char> {
        v.recorded.plan.plan_id
    }

    fn key_text(&self) -> (r: &str) {
        self.recorded.plan.plan_id.as_str()
    }
}

impl Keyed for IntegrationLaneChanged {
    open spec fn key(v: IntegrationLaneChangedView) -> Seq<char> {
        v.lane_id
    }

    fn key_text(&self) -> (r: &str) {
        self.lane_id.as_str()
    }
}

impl Keyed for IntegrationLaneSpec {
    open spec fn key(v: IntegrationLaneSpecView) -> Seq<char> {
        v.lane_id
    }

    fn key_text(&self) -> (r: &str) {
        self.lane_id.as_str()
    }
}

impl Keyed for IntegrationProposalSpec {
    open spec fn key(v: IntegrationProposalSpecView) -> Seq<char> {
        v.change_set_id
    }

    fn key_text(&self) -> (r: &str) {
        self.change_set_id.as_str()
    }
}

} // verus!
