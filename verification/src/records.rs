//! The records of a session's durable stream, and the entries of the modules round the kernel.

use vstd::prelude::*;

use crate::integration::{
    IntegrationLaneChanged, IntegrationLaneChangedView, IntegrationPlanRecorded,
    IntegrationPlanRecordedView, IntegrationPromotionRecorded, IntegrationPromotionRecordedView,
};
use crate::intent::{
    IntentCriterionId, IntentEventV1, IntentEventV1View, IntentVersionRef, IntentVersionRefView,
};
use crate::value::{Keyed, Value};

verus! {

/// What a task step may do.
#[derive(Debug, Clone, Copy, PartialEq, Eq, Structural)]
pub enum TaskStepMode {
    Read,
    Write,
    Review,
}

impl DeepView for TaskStepMode {
    type V = TaskStepMode;

    open spec fn deep_view(&self) -> TaskStepMode {
        *self
    }
}

impl Value for TaskStepMode {
    fn same(&self, other: &Self) -> (r: bool) {
        *self == *other
    }

    fn duplicate(&self) -> (r: Self) {
        *self
    }
}

/// Where a task plan stands.
#[derive(Debug, Clone, Copy, PartialEq, Eq, Structural)]
pub enum TaskPlanStatus {
    Draft,
    Accepted,
    Rejected,
    Superseded,
}

impl DeepView for TaskPlanStatus {
    type V = TaskPlanStatus;

    open spec fn deep_view(&self) -> TaskPlanStatus {
        *self
    }
}

impl Value for TaskPlanStatus {
    fn same(&self, other: &Self) -> (r: bool) {
        *self == *other
    }

    fn duplicate(&self) -> (r: Self) {
        *self
    }
}

/// One step of a task plan, with its effective mode.
#[derive(Debug, Clone, PartialEq, Eq)]
pub struct TaskStepSpec {
    pub step_id: String,
    pub mode: TaskStepMode,
    pub intent_refs: Vec<IntentVersionRef>,
}

/// What a [`TaskStepSpec`] holds.
#[verifier::ext_equal]
pub struct TaskStepSpecView {
    pub step_id: Seq<char>,
    pub mode: TaskStepMode,
    pub intent_refs: Seq<IntentVersionRefView>,
}

impl DeepView for TaskStepSpec {
    type V = TaskStepSpecView;

    open spec fn deep_view(&self) -> TaskStepSpecView {
        TaskStepSpecView {
            step_id: self.step_id.deep_view(),
            mode: self.mode.deep_view(),
            intent_refs: self.intent_refs.deep_view(),
        }
    }
}

impl Value for TaskStepSpec {
    fn same(&self, other: &Self) -> (r: bool) {
        self.step_id.same(&other.step_id)
            && self.mode.same(&other.mode)
            && self.intent_refs.same(&other.intent_refs)
    }

    fn duplicate(&self) -> (r: Self) {
        TaskStepSpec {
            step_id: self.step_id.duplicate(),
            mode: self.mode.duplicate(),
            intent_refs: self.intent_refs.duplicate(),
        }
    }
}

/// A version of a task plan. `graph_validation_error` tells what the task module found wrong with
/// the graph of its steps.
#[derive(Debug, Clone, PartialEq, Eq)]
pub struct TaskPlanEntry {
    pub task_id: String,
    pub plan_version: u32,
    pub status: TaskPlanStatus,
    pub steps: Vec<TaskStepSpec>,
    pub reason: Option<String>,
    pub graph_validation_error: Option<String>,
}

/// What a [`TaskPlanEntry`] holds.
#[verifier::ext_equal]
pub struct TaskPlanEntryView {
    pub task_id: Seq<char>,
    pub plan_version: u32,
    pub status: TaskPlanStatus,
    pub steps: Seq<TaskStepSpecView>,
    pub reason: Option<Seq<char>>,
    pub graph_validation_error: Option<Seq<char>>,
}

impl DeepView for TaskPlanEntry {
    type V = TaskPlanEntryView;

    open spec fn deep_view(&self) -> TaskPlanEntryView {
        TaskPlanEntryView {
            task_id: self.task_id.deep_view(),
            plan_version: self.plan_version.deep_view(),
            status: self.status.deep_view(),
            steps: self.steps.deep_view(),
            reason: self.reason.deep_view(),
            graph_validation_error: self.graph_validation_error.deep_view(),
        }
    }
}

impl Value for TaskPlanEntry {
    fn same(&self, other: &Self) -> (r: bool) {
        self.task_id.same(&other.task_id)
            && self.plan_version.same(&other.plan_version)
            && self.status.same(&other.status)
            && self.steps.same(&other.steps)
            && self.reason.same(&other.reason)
            && self.graph_validation_error.same(&other.graph_validation_error)
    }

    fn duplicate(&self) -> (r: Self) {
        TaskPlanEntry {
            task_id: self.task_id.duplicate(),
            plan_version: self.plan_version.duplicate(),
            status: self.status.duplicate(),
            steps: self.steps.duplicate(),
            reason: self.reason.duplicate(),
            graph_validation_error: self.graph_validation_error.duplicate(),
        }
    }
}

/// Where an attempt of a participant stands.
#[derive(Debug, Clone, Copy, PartialEq, Eq, Structural)]
pub enum TaskParticipantAttemptStatus {
    Started,
    Completed,
    Failed,
    Cancelled,
}

impl DeepView for TaskParticipantAttemptStatus {
    type V = TaskParticipantAttemptStatus;

    open spec fn deep_view(&self) -> TaskParticipantAttemptStatus {
        *self
    }
}

impl Value for TaskParticipantAttemptStatus {
    fn same(&self, other: &Self) -> (r: bool) {
        *self == *other
    }

    fn duplicate(&self) -> (r: Self) {
        *self
    }
}

/// What a participant works on.
#[derive(Debug, Clone, Copy, PartialEq, Eq, Structural)]
pub enum TaskParticipantPurpose {
    Step,
    Plan,
    Review,
}

impl DeepView for TaskParticipantPurpose {
    type V = TaskParticipantPurpose;

    open spec fn deep_view(&self) -> TaskParticipantPurpose {
        *self
    }
}

impl Value for TaskParticipantPurpose {
    fn same(&self, other: &Self) -> (r: bool) {
        *self == *other
    }

    fn duplicate(&self) -> (r: Self) {
        *self
    }
}

/// One attempt of a participant of a task.
#[derive(Debug, Clone, PartialEq, Eq)]
pub struct TaskParticipantAttemptEntry {
    pub attempt_id: String,
    pub task_id: String,
    pub plan_version: Option<u32>,
    pub step_id: Option<String>,
    pub status: TaskParticipantAttemptStatus,
    pub purpose: TaskParticipantPurpose,
}

/// What a [`TaskParticipantAttemptEntry`] holds.
#[verifier::ext_equal]
pub struct TaskParticipantAttemptEntryView {
    pub attempt_id: Seq<char>,
    pub task_id: Seq<char>,
    pub plan_version: Option<u32>,
    pub step_id: Option<Seq<char>>,
    pub status: TaskParticipantAttemptStatus,
    pub purpose: TaskParticipantPurpose,
}

impl DeepView for TaskParticipantAttemptEntry {
    type V = TaskParticipantAttemptEntryView;

    open spec fn deep_view(&self) -> TaskParticipantAttemptEntryView {
        TaskParticipantAttemptEntryView {
            attempt_id: self.attempt_id.deep_view(),
            task_id: self.task_id.deep_view(),
            plan_version: self.plan_version.deep_view(),
            step_id: self.step_id.deep_view(),
            status: self.status.deep_view(),
            purpose: self.purpose.deep_view(),
        }
    }
}

impl Value for TaskParticipantAttemptEntry {
    fn same(&self, other: &Self) -> (r: bool) {
        self.attempt_id.same(&other.attempt_id)
            && self.task_id.same(&other.task_id)
            && self.plan_version.same(&other.plan_version)
            && self.step_id.same(&other.step_id)
            && self.status.same(&other.status)
            && self.purpose.same(&other.purpose)
    }

    fn duplicate(&self) -> (r: Self) {
        TaskParticipantAttemptEntry {
            attempt_id: self.attempt_id.duplicate(),
            task_id: self.task_id.duplicate(),
            plan_version: self.plan_version.duplicate(),
            step_id: self.step_id.duplicate(),
            status: self.status.duplicate(),
            purpose: self.purpose.duplicate(),
        }
    }
}

/// The start of an attempt of an agent run.
#[derive(Debug, Clone, PartialEq, Eq)]
pub struct AgentRunAttemptStartedEntry {
    pub thread_id: String,
    pub attempt_id: String,
    pub background: bool,
}

/// What a [`AgentRunAttemptStartedEntry`] holds.
#[verifier::ext_equal]
pub struct AgentRunAttemptStartedEntryView {
    pub thread_id: Seq<char>,
    pub attempt_id: Seq<char>,
    pub background: bool,
}

impl DeepView for AgentRunAttemptStartedEntry {
    type V = AgentRunAttemptStartedEntryView;

    open spec fn deep_view(&self) -> AgentRunAttemptStartedEntryView {
        AgentRunAttemptStartedEntryView {
            thread_id: self.thread_id.deep_view(),
            attempt_id: self.attempt_id.deep_view(),
            background: self.background.deep_view(),
        }
    }
}

impl Value for AgentRunAttemptStartedEntry {
    fn same(&self, other: &Self) -> (r: bool) {
        self.thread_id.same(&other.thread_id)
            && self.attempt_id.same(&other.attempt_id)
            && self.background.same(&other.background)
    }

    fn duplicate(&self) -> (r: Self) {
        AgentRunAttemptStartedEntry {
            thread_id: self.thread_id.duplicate(),
            attempt_id: self.attempt_id.duplicate(),
            background: self.background.duplicate(),
        }
    }
}

/// The interruption of an attempt of an agent run.
#[derive(Debug, Clone, PartialEq, Eq)]
pub struct AgentRunInterruptedEntry {
    pub thread_id: String,
    pub attempt_id: String,
}

/// What a [`AgentRunInterruptedEntry`] holds.
#[verifier::ext_equal]
pub struct AgentRunInterruptedEntryView {
    pub thread_id: Seq<char>,
    pub attempt_id: Seq<char>,
}

impl DeepView for AgentRunInterruptedEntry {
    type V = AgentRunInterruptedEntryView;

    open spec fn deep_view(&self) -> AgentRunInterruptedEntryView {
        AgentRunInterruptedEntryView {
            thread_id: self.thread_id.deep_view(),
            attempt_id: self.attempt_id.deep_view(),
        }
    }
}

impl Value for AgentRunInterruptedEntry {
    fn same(&self, other: &Self) -> (r: bool) {
        self.thread_id.same(&other.thread_id)
            && self.attempt_id.same(&other.attempt_id)
    }

    fn duplicate(&self) -> (r: Self) {
        AgentRunInterruptedEntry {
            thread_id: self.thread_id.duplicate(),
            attempt_id: self.attempt_id.duplicate(),
        }
    }
}

/// The replayed state of one version of a task plan.
#[derive(Debug, Clone, PartialEq, Eq)]
pub struct TaskPlanState {
    pub plan_version: u32,
    pub status: TaskPlanStatus,
    pub steps: Vec<TaskStepSpec>,
    pub reason: Option<String>,
    pub graph_validation_error: Option<String>,
}

/// What a [`TaskPlanState`] holds.
#[verifier::ext_equal]
pub struct TaskPlanStateView {
    pub plan_version: u32,
    pub status: TaskPlanStatus,
    pub steps: Seq<TaskStepSpecView>,
    pub reason: Option<Seq<char>>,
    pub graph_validation_error: Option<Seq<char>>,
}

impl DeepView for TaskPlanState {
    type V = TaskPlanStateView;

    open spec fn deep_view(&self) -> TaskPlanStateView {
        TaskPlanStateView {
            plan_version: self.plan_version.deep_view(),
            status: self.status.deep_view(),
            steps: self.steps.deep_view(),
            reason: self.reason.deep_view(),
            graph_validation_error: self.graph_validation_error.deep_view(),
        }
    }
}

impl Value for TaskPlanState {
    fn same(&self, other: &Self) -> (r: bool) {
        self.plan_version.same(&other.plan_version)
            && self.status.same(&other.status)
            && self.steps.same(&other.steps)
            && self.reason.same(&other.reason)
            && self.graph_validation_error.same(&other.graph_validation_error)
    }

    fn duplicate(&self) -> (r: Self) {
        TaskPlanState {
            plan_version: self.plan_version.duplicate(),
            status: self.status.duplicate(),
            steps: self.steps.duplicate(),
            reason: self.reason.duplicate(),
            graph_validation_error: self.graph_validation_error.duplicate(),
        }
    }
}

/// The replayed state of one task.
#[derive(Debug, Clone, PartialEq, Eq)]
pub struct TaskState {
    pub task_id: String,
    pub participant_conflicts: u64,
    pub plans: Vec<TaskPlanState>,
}

/// What a [`TaskState`] holds.
#[verifier::ext_equal]
pub struct TaskStateView {
    pub task_id: Seq<char>,
    pub participant_conflicts: u64,
    pub plans: Seq<TaskPlanStateView>,
}

impl DeepView for TaskState {
    type V = TaskStateView;

    open spec fn deep_view(&self) -> TaskStateView {
        TaskStateView {
            task_id: self.task_id.deep_view(),
            participant_conflicts: self.participant_conflicts.deep_view(),
            plans: self.plans.deep_view(),
        }
    }
}

impl Value for TaskState {
    fn same(&self, other: &Self) -> (r: bool) {
        self.task_id.same(&other.task_id)
            && self.participant_conflicts.same(&other.participant_conflicts)
            && self.plans.same(&other.plans)
    }

    fn duplicate(&self) -> (r: Self) {
        TaskState {
            task_id: self.task_id.duplicate(),
            participant_conflicts: self.participant_conflicts.duplicate(),
            plans: self.plans.duplicate(),
        }
    }
}

/// The replayed state of all tasks of a session.
#[derive(Debug, Clone, PartialEq, Eq)]
pub struct TaskStateProjection {
    pub tasks: Vec<TaskState>,
}

/// What a [`TaskStateProjection`] holds.
#[verifier::ext_equal]
pub struct TaskStateProjectionView {
    pub tasks: Seq<TaskStateView>,
}

impl DeepView for TaskStateProjection {
    type V = TaskStateProjectionView;

    open spec fn deep_view(&self) -> TaskStateProjectionView {
        TaskStateProjectionView {
            tasks: self.tasks.deep_view(),
        }
    }
}

impl Value for TaskStateProjection {
    fn same(&self, other: &Self) -> (r: bool) {
        self.tasks.same(&other.tasks)
    }

    fn duplicate(&self) -> (r: Self) {
        TaskStateProjection {
            tasks: self.tasks.duplicate(),
        }
    }
}

/// What a change set does to a file.
#[derive(Debug, Clone, Copy, PartialEq, Eq, Structural)]
pub enum ChangeSetFileAction {
    Create,
    Update,
    Delete,
    Rename,
}

impl DeepView for ChangeSetFileAction {
    type V = ChangeSetFileAction;

    open spec fn deep_view(&self) -> ChangeSetFileAction {
        *self
    }
}

impl Value for ChangeSetFileAction {
    fn same(&self, other: &Self) -> (r: bool) {
        *self == *other
    }

    fn duplicate(&self) -> (r: Self) {
        *self
    }
}

/// How risky a change is.
#[derive(Debug, Clone, Copy, PartialEq, Eq, Structural)]
pub enum ChangeSetRisk {
    Low,
    Medium,
    High,
}

impl DeepView for ChangeSetRisk {
    type V = ChangeSetRisk;

    open spec fn deep_view(&self) -> ChangeSetRisk {
        *self
    }
}

impl Value for ChangeSetRisk {
    fn same(&self, other: &Self) -> (r: bool) {
        *self == *other
    }

    fn duplicate(&self) -> (r: Self) {
        *self
    }
}

/// What a validation looked at.
#[derive(Debug, Clone, Copy, PartialEq, Eq, Structural)]
pub enum ChangeSetValidationKind {
    Hash,
    Syntax,
    Policy,
}

impl DeepView for ChangeSetValidationKind {
    type V = ChangeSetValidationKind;

    open spec fn deep_view(&self) -> ChangeSetValidationKind {
        *self
    }
}

impl Value for ChangeSetValidationKind {
    fn same(&self, other: &Self) -> (r: bool) {
        *self == *other
    }

    fn duplicate(&self) -> (r: Self) {
        *self
    }
}

/// How a validation ended.
#[derive(Debug, Clone, Copy, PartialEq, Eq, Structural)]
pub enum ChangeSetValidationStatus {
    Passed,
    Failed,
    Skipped,
}

impl DeepView for ChangeSetValidationStatus {
    type V = ChangeSetValidationStatus;

    open spec fn deep_view(&self) -> ChangeSetValidationStatus {
        *self
    }
}

impl Value for ChangeSetValidationStatus {
    fn same(&self, other: &Self) -> (r: bool) {
        *self == *other
    }

    fn duplicate(&self) -> (r: Self) {
        *self
    }
}

/// One validation of a change.
#[derive(Debug, Clone, PartialEq, Eq)]
pub struct ChangeSetValidation {
    pub kind: ChangeSetValidationKind,
    pub status: ChangeSetValidationStatus,
    pub message: Option<String>,
}

/// What a [`ChangeSetValidation`] holds.
#[verifier::ext_equal]
pub struct ChangeSetValidationView {
    pub kind: ChangeSetValidationKind,
    pub status: ChangeSetValidationStatus,
    pub message: Option<Seq<char>>,
}

impl DeepView for ChangeSetValidation {
    type V = ChangeSetValidationView;

    open spec fn deep_view(&self) -> ChangeSetValidationView {
        ChangeSetValidationView {
            kind: self.kind.deep_view(),
            status: self.status.deep_view(),
            message: self.message.deep_view(),
        }
    }
}

impl Value for ChangeSetValidation {
    fn same(&self, other: &Self) -> (r: bool) {
        self.kind.same(&other.kind)
            && self.status.same(&other.status)
            && self.message.same(&other.message)
    }

    fn duplicate(&self) -> (r: Self) {
        ChangeSetValidation {
            kind: self.kind.duplicate(),
            status: self.status.duplicate(),
            message: self.message.duplicate(),
        }
    }
}

/// The change of one file.
#[derive(Debug, Clone, PartialEq, Eq)]
pub struct ChangeSetFile {
    pub path: String,
    pub previous_path: Option<String>,
    pub action: ChangeSetFileAction,
    pub risk: ChangeSetRisk,
    pub before_hash: Option<String>,
    pub after_hash: Option<String>,
    pub diff_hash: Option<String>,
    pub additions: u64,
    pub deletions: u64,
    pub validations: Vec<ChangeSetValidation>,
}

/// What a [`ChangeSetFile`] holds.
#[verifier::ext_equal]
pub struct ChangeSetFileView {
    pub path: Seq<char>,
    pub previous_path: Option<Seq<char>>,
    pub action: ChangeSetFileAction,
    pub risk: ChangeSetRisk,
    pub before_hash: Option<Seq<char>>,
    pub after_hash: Option<Seq<char>>,
    pub diff_hash: Option<Seq<char>>,
    pub additions: u64,
    pub deletions: u64,
    pub validations: Seq<ChangeSetValidationView>,
}

impl DeepView for ChangeSetFile {
    type V = ChangeSetFileView;

    open spec fn deep_view(&self) -> ChangeSetFileView {
        ChangeSetFileView {
            path: self.path.deep_view(),
            previous_path: self.previous_path.deep_view(),
            action: self.action.deep_view(),
            risk: self.risk.deep_view(),
            before_hash: self.before_hash.deep_view(),
            after_hash: self.after_hash.deep_view(),
            diff_hash: self.diff_hash.deep_view(),
            additions: self.additions.deep_view(),
            deletions: self.deletions.deep_view(),
            validations: self.validations.deep_view(),
        }
    }
}

impl Value for ChangeSetFile {
    fn same(&self, other: &Self) -> (r: bool) {
        self.path.same(&other.path)
            && self.previous_path.same(&other.previous_path)
            && self.action.same(&other.action)
            && self.risk.same(&other.risk)
            && self.before_hash.same(&other.before_hash)
            && self.after_hash.same(&other.after_hash)
            && self.diff_hash.same(&other.diff_hash)
            && self.additions.same(&other.additions)
            && self.deletions.same(&other.deletions)
            && self.validations.same(&other.validations)
    }

    fn duplicate(&self) -> (r: Self) {
        ChangeSetFile {
            path: self.path.duplicate(),
            previous_path: self.previous_path.duplicate(),
            action: self.action.duplicate(),
            risk: self.risk.duplicate(),
            before_hash: self.before_hash.duplicate(),
            after_hash: self.after_hash.duplicate(),
            diff_hash: self.diff_hash.duplicate(),
            additions: self.additions.duplicate(),
            deletions: self.deletions.duplicate(),
            validations: self.validations.duplicate(),
        }
    }
}

/// A proposed set of file changes.
#[derive(Debug, Clone, PartialEq, Eq)]
pub struct ChangeSet {
    pub id: String,
    pub title: String,
    pub summary: String,
    pub risk: ChangeSetRisk,
    pub files: Vec<ChangeSetFile>,
    pub validations: Vec<ChangeSetValidation>,
}

/// What a [`ChangeSet`] holds.
#[verifier::ext_equal]
pub struct ChangeSetView {
    pub id: Seq<char>,
    pub title: Seq<char>,
    pub summary: Seq<char>,
    pub risk: ChangeSetRisk,
    pub files: Seq<ChangeSetFileView>,
    pub validations: Seq<ChangeSetValidationView>,
}

impl DeepView for ChangeSet {
    type V = ChangeSetView;

    open spec fn deep_view(&self) -> ChangeSetView {
        ChangeSetView {
            id: self.id.deep_view(),
            title: self.title.deep_view(),
            summary: self.summary.deep_view(),
            risk: self.risk.deep_view(),
            files: self.files.deep_view(),
            validations: self.validations.deep_view(),
        }
    }
}

impl Value for ChangeSet {
    fn same(&self, other: &Self) -> (r: bool) {
        self.id.same(&other.id)
            && self.title.same(&other.title)
            && self.summary.same(&other.summary)
            && self.risk.same(&other.risk)
            && self.files.same(&other.files)
            && self.validations.same(&other.validations)
    }

    fn duplicate(&self) -> (r: Self) {
        ChangeSet {
            id: self.id.duplicate(),
            title: self.title.duplicate(),
            summary: self.summary.duplicate(),
            risk: self.risk.duplicate(),
            files: self.files.duplicate(),
            validations: self.validations.duplicate(),
        }
    }
}

/// What became of the change of one file.
#[derive(Debug, Clone, Copy, PartialEq, Eq, Structural)]
pub enum ChangeSetFileResultStatus {
    Applied,
    Failed,
    Skipped,
}

impl DeepView for ChangeSetFileResultStatus {
    type V = ChangeSetFileResultStatus;

    open spec fn deep_view(&self) -> ChangeSetFileResultStatus {
        *self
    }
}

impl Value for ChangeSetFileResultStatus {
    fn same(&self, other: &Self) -> (r: bool) {
        *self == *other
    }

    fn duplicate(&self) -> (r: Self) {
        *self
    }
}

/// The result of the change of one file.
#[derive(Debug, Clone, PartialEq, Eq)]
pub struct ChangeSetFileResult {
    pub path: String,
    pub action: ChangeSetFileAction,
    pub status: ChangeSetFileResultStatus,
    pub message: Option<String>,
    pub validations: Vec<ChangeSetValidation>,
}

/// What a [`ChangeSetFileResult`] holds.
#[verifier::ext_equal]
pub struct ChangeSetFileResultView {
    pub path: Seq<char>,
    pub action: ChangeSetFileAction,
    pub status: ChangeSetFileResultStatus,
    pub message: Option<Seq<char>>,
    pub validations: Seq<ChangeSetValidationView>,
}

impl DeepView for ChangeSetFileResult {
    type V = ChangeSetFileResultView;

    open spec fn deep_view(&self) -> ChangeSetFileResultView {
        ChangeSetFileResultView {
            path: self.path.deep_view(),
            action: self.action.deep_view(),
            status: self.status.deep_view(),
            message: self.message.deep_view(),
            validations: self.validations.deep_view(),
        }
    }
}

impl Value for ChangeSetFileResult {
    fn same(&self, other: &Self) -> (r: bool) {
        self.path.same(&other.path)
            && self.action.same(&other.action)
            && self.status.same(&other.status)
            && self.message.same(&other.message)
            && self.validations.same(&other.validations)
    }

    fn duplicate(&self) -> (r: Self) {
        ChangeSetFileResult {
            path: self.path.duplicate(),
            action: self.action.duplicate(),
            status: self.status.duplicate(),
            message: self.message.duplicate(),
            validations: self.validations.duplicate(),
        }
    }
}

/// What became of a change set.
#[derive(Debug, Clone, Copy, PartialEq, Eq, Structural)]
pub enum ChangeSetResultStatus {
    Applied,
    PartiallyApplied,
    Failed,
}

impl DeepView for ChangeSetResultStatus {
    type V = ChangeSetResultStatus;

    open spec fn deep_view(&self) -> ChangeSetResultStatus {
        *self
    }
}

impl Value for ChangeSetResultStatus {
    fn same(&self, other: &Self) -> (r: bool) {
        *self == *other
    }

    fn duplicate(&self) -> (r: Self) {
        *self
    }
}

/// The result of a change set.
#[derive(Debug, Clone, PartialEq, Eq)]
pub struct ChangeSetResult {
    pub id: String,
    pub status: ChangeSetResultStatus,
    pub file_results: Vec<ChangeSetFileResult>,
    pub message: Option<String>,
}

/// What a [`ChangeSetResult`] holds.
#[verifier::ext_equal]
pub struct ChangeSetResultView {
    pub id: Seq<char>,
    pub status: ChangeSetResultStatus,
    pub file_results: Seq<ChangeSetFileResultView>,
    pub message: Option<Seq<char>>,
}

impl DeepView for ChangeSetResult {
    type V = ChangeSetResultView;

    open spec fn deep_view(&self) -> ChangeSetResultView {
        ChangeSetResultView {
            id: self.id.deep_view(),
            status: self.status.deep_view(),
            file_results: self.file_results.deep_view(),
            message: self.message.deep_view(),
        }
    }
}

impl Value for ChangeSetResult {
    fn same(&self, other: &Self) -> (r: bool) {
        self.id.same(&other.id)
            && self.status.same(&other.status)
            && self.file_results.same(&other.file_results)
            && self.message.same(&other.message)
    }

    fn duplicate(&self) -> (r: Self) {
        ChangeSetResult {
            id: self.id.duplicate(),
            status: self.status.duplicate(),
            file_results: self.file_results.duplicate(),
            message: self.message.duplicate(),
        }
    }
}

/// What kind of file system entry a path names.
#[derive(Debug, Clone, Copy, PartialEq, Eq, Structural)]
pub enum FileType {
    File,
    Directory,
    Symlink,
    Other,
}

impl DeepView for FileType {
    type V = FileType;

    open spec fn deep_view(&self) -> FileType {
        *self
    }
}

impl Value for FileType {
    fn same(&self, other: &Self) -> (r: bool) {
        *self == *other
    }

    fn duplicate(&self) -> (r: Self) {
        *self
    }
}

/// What a mutation changes. A file has its path as text, its portable relative form where it has
/// one, and the word whether the path is relative and made of normal components alone.
#[derive(Debug, Clone, PartialEq, Eq)]
pub enum MutationSubject {
    File {
        path: String,
        portable_path: Option<String>,
        normalized: bool,
        file_type: FileType,
    },
    Other {
        label: String,
    },
}

/// What a [`MutationSubject`] holds.
#[verifier::ext_equal]
pub enum MutationSubjectView {
    File {
        path: Seq<char>,
        portable_path: Option<Seq<char>>,
        normalized: bool,
        file_type: FileType,
    },
    Other {
        label: Seq<char>,
    },
}

impl DeepView for MutationSubject {
    type V = MutationSubjectView;

    open spec fn deep_view(&self) -> MutationSubjectView {
        match self {
            MutationSubject::File { path, portable_path, normalized, file_type } => MutationSubjectView::File {
                path: path.deep_view(),
                portable_path: portable_path.deep_view(),
                normalized: normalized.deep_view(),
                file_type: file_type.deep_view(),
            },
            MutationSubject::Other { label } => MutationSubjectView::Other {
                label: label.deep_view(),
            },
        }
    }
}

impl Value for MutationSubject {
    fn same(&self, other: &Self) -> (r: bool) {
        match (self, other) {
            (
                MutationSubject::File { path, portable_path, normalized, file_type },
                MutationSubject::File { path: path2, portable_path: portable_path2, normalized: normalized2, file_type: file_type2 },
            ) => path.same(path2)
                && portable_path.same(portable_path2)
                && normalized.same(normalized2)
                && file_type.same(file_type2),
            (
                MutationSubject::Other { label },
                MutationSubject::Other { label: label2 },
            ) => label.same(label2),
            _ => false,
        }
    }

    fn duplicate(&self) -> (r: Self) {
        match self {
            MutationSubject::File { path, portable_path, normalized, file_type } => MutationSubject::File {
                path: path.duplicate(),
                portable_path: portable_path.duplicate(),
                normalized: normalized.duplicate(),
                file_type: file_type.duplicate(),
            },
            MutationSubject::Other { label } => MutationSubject::Other {
                label: label.duplicate(),
            },
        }
    }
}

/// Whether the content before a mutation was captured.
#[derive(Debug, Clone, PartialEq, Eq)]
pub enum SnapshotCoverage {
    Captured(String),
    NoPriorContent,
    SkippedSensitive,
    NotCaptured,
}

/// What a [`SnapshotCoverage`] holds.
#[verifier::ext_equal]
pub enum SnapshotCoverageView {
    Captured(Seq<char>),
    NoPriorContent,
    SkippedSensitive,
    NotCaptured,
}

impl DeepView for SnapshotCoverage {
    type V = SnapshotCoverageView;

    open spec fn deep_view(&self) -> SnapshotCoverageView {
        match self {
            SnapshotCoverage::Captured(x) => SnapshotCoverageView::Captured(x.deep_view()),
            SnapshotCoverage::NoPriorContent => SnapshotCoverageView::NoPriorContent,
            SnapshotCoverage::SkippedSensitive => SnapshotCoverageView::SkippedSensitive,
            SnapshotCoverage::NotCaptured => SnapshotCoverageView::NotCaptured,
        }
    }
}

impl Value for SnapshotCoverage {
    fn same(&self, other: &Self) -> (r: bool) {
        match (self, other) {
            (
                SnapshotCoverage::Captured(x),
                SnapshotCoverage::Captured(x2),
            ) => x.same(x2),
            (
                SnapshotCoverage::NoPriorContent,
                SnapshotCoverage::NoPriorContent,
            ) => true,
            (
                SnapshotCoverage::SkippedSensitive,
                SnapshotCoverage::SkippedSensitive,
            ) => true,
            (
                SnapshotCoverage::NotCaptured,
                SnapshotCoverage::NotCaptured,
            ) => true,
            _ => false,
        }
    }

    fn duplicate(&self) -> (r: Self) {
        match self {
            SnapshotCoverage::Captured(x) => SnapshotCoverage::Captured(x.duplicate()),
            SnapshotCoverage::NoPriorContent => SnapshotCoverage::NoPriorContent,
            SnapshotCoverage::SkippedSensitive => SnapshotCoverage::SkippedSensitive,
            SnapshotCoverage::NotCaptured => SnapshotCoverage::NotCaptured,
        }
    }
}

/// A mutation of one file is about to begin.
#[derive(Debug, Clone, PartialEq, Eq)]
pub struct MutationPrepared {
    pub operation_id: String,
    pub batch_id: Option<String>,
    pub workspace_id: String,
    pub base_workspace_revision: u64,
    pub subject: MutationSubject,
    pub before_hash: Option<String>,
    pub intended_after_hash: Option<String>,
    pub tool_call_id: Option<String>,
    pub snapshot_coverage: SnapshotCoverage,
}

/// What a [`MutationPrepared`] holds.
#[verifier::ext_equal]
pub struct MutationPreparedView {
    pub operation_id: Seq<char>,
    pub batch_id: Option<Seq<char>>,
    pub workspace_id: Seq<char>,
    pub base_workspace_revision: u64,
    pub subject: MutationSubjectView,
    pub before_hash: Option<Seq<char>>,
    pub intended_after_hash: Option<Seq<char>>,
    pub tool_call_id: Option<Seq<char>>,
    pub snapshot_coverage: SnapshotCoverageView,
}

impl DeepView for MutationPrepared {
    type V = MutationPreparedView;

    open spec fn deep_view(&self) -> MutationPreparedView {
        MutationPreparedView {
            operation_id: self.operation_id.deep_view(),
            batch_id: self.batch_id.deep_view(),
            workspace_id: self.workspace_id.deep_view(),
            base_workspace_revision: self.base_workspace_revision.deep_view(),
            subject: self.subject.deep_view(),
            before_hash: self.before_hash.deep_view(),
            intended_after_hash: self.intended_after_hash.deep_view(),
            tool_call_id: self.tool_call_id.deep_view(),
            snapshot_coverage: self.snapshot_coverage.deep_view(),
        }
    }
}

impl Value for MutationPrepared {
    fn same(&self, other: &Self) -> (r: bool) {
        self.operation_id.same(&other.operation_id)
            && self.batch_id.same(&other.batch_id)
            && self.workspace_id.same(&other.workspace_id)
            && self.base_workspace_revision.same(&other.base_workspace_revision)
            && self.subject.same(&other.subject)
            && self.before_hash.same(&other.before_hash)
            && self.intended_after_hash.same(&other.intended_after_hash)
            && self.tool_call_id.same(&other.tool_call_id)
            && self.snapshot_coverage.same(&other.snapshot_coverage)
    }

    fn duplicate(&self) -> (r: Self) {
        MutationPrepared {
            operation_id: self.operation_id.duplicate(),
            batch_id: self.batch_id.duplicate(),
            workspace_id: self.workspace_id.duplicate(),
            base_workspace_revision: self.base_workspace_revision.duplicate(),
            subject: self.subject.duplicate(),
            before_hash: self.before_hash.duplicate(),
            intended_after_hash: self.intended_after_hash.duplicate(),
            tool_call_id: self.tool_call_id.duplicate(),
            snapshot_coverage: self.snapshot_coverage.duplicate(),
        }
    }
}

/// A mutation of one file has been committed.
#[derive(Debug, Clone, PartialEq, Eq)]
pub struct MutationCommitted {
    pub operation_id: String,
    pub batch_id: Option<String>,
    pub workspace_id: Option<String>,
    pub committed_subject: MutationSubject,
    pub observed_after_hash: Option<String>,
    pub workspace_snapshot_id: String,
    pub workspace_revision: u64,
}

/// What a [`MutationCommitted`] holds.
#[verifier::ext_equal]
pub struct MutationCommittedView {
    pub operation_id: Seq<char>,
    pub batch_id: Option<Seq<char>>,
    pub workspace_id: Option<Seq<char>>,
    pub committed_subject: MutationSubjectView,
    pub observed_after_hash: Option<Seq<char>>,
    pub workspace_snapshot_id: Seq<char>,
    pub workspace_revision: u64,
}

impl DeepView for MutationCommitted {
    type V = MutationCommittedView;

    open spec fn deep_view(&self) -> MutationCommittedView {
        MutationCommittedView {
            operation_id: self.operation_id.deep_view(),
            batch_id: self.batch_id.deep_view(),
            workspace_id: self.workspace_id.deep_view(),
            committed_subject: self.committed_subject.deep_view(),
            observed_after_hash: self.observed_after_hash.deep_view(),
            workspace_snapshot_id: self.workspace_snapshot_id.deep_view(),
            workspace_revision: self.workspace_revision.deep_view(),
        }
    }
}

impl Value for MutationCommitted {
    fn same(&self, other: &Self) -> (r: bool) {
        self.operation_id.same(&other.operation_id)
            && self.batch_id.same(&other.batch_id)
            && self.workspace_id.same(&other.workspace_id)
            && self.committed_subject.same(&other.committed_subject)
            && self.observed_after_hash.same(&other.observed_after_hash)
            && self.workspace_snapshot_id.same(&other.workspace_snapshot_id)
            && self.workspace_revision.same(&other.workspace_revision)
    }

    fn duplicate(&self) -> (r: Self) {
        MutationCommitted {
            operation_id: self.operation_id.duplicate(),
            batch_id: self.batch_id.duplicate(),
            workspace_id: self.workspace_id.duplicate(),
            committed_subject: self.committed_subject.duplicate(),
            observed_after_hash: self.observed_after_hash.duplicate(),
            workspace_snapshot_id: self.workspace_snapshot_id.duplicate(),
            workspace_revision: self.workspace_revision.duplicate(),
        }
    }
}

/// What was found on disk for a mutation that was interrupted.
#[derive(Debug, Clone, Copy, PartialEq, Eq, Structural)]
pub enum MutationObservedState {
    AppliedAsIntended,
    AppliedDifferently,
    NotApplied,
    Unknown,
}

impl DeepView for MutationObservedState {
    type V = MutationObservedState;

    open spec fn deep_view(&self) -> MutationObservedState {
        *self
    }
}

impl Value for MutationObservedState {
    fn same(&self, other: &Self) -> (r: bool) {
        *self == *other
    }

    fn duplicate(&self) -> (r: Self) {
        *self
    }
}

/// How an interrupted mutation was settled.
#[derive(Debug, Clone, Copy, PartialEq, Eq, Structural)]
pub enum MutationResolution {
    MarkCommitted,
    MarkConflict,
    MarkUnknownDirty,
    MarkNotApplied,
}

impl DeepView for MutationResolution {
    type V = MutationResolution;

    open spec fn deep_view(&self) -> MutationResolution {
        *self
    }
}

impl Value for MutationResolution {
    fn same(&self, other: &Self) -> (r: bool) {
        *self == *other
    }

    fn duplicate(&self) -> (r: Self) {
        *self
    }
}

/// An interrupted mutation has been settled.
#[derive(Debug, Clone, PartialEq, Eq)]
pub struct MutationReconciled {
    pub operation_id: String,
    pub batch_id: Option<String>,
    pub observed_state: MutationObservedState,
    pub resolution: MutationResolution,
    pub workspace_snapshot_id: Option<String>,
}

/// What a [`MutationReconciled`] holds.
#[verifier::ext_equal]
pub struct MutationReconciledView {
    pub operation_id: Seq<char>,
    pub batch_id: Option<Seq<char>>,
    pub observed_state: MutationObservedState,
    pub resolution: MutationResolution,
    pub workspace_snapshot_id: Option<Seq<char>>,
}

impl DeepView for MutationReconciled {
    type V = MutationReconciledView;

    open spec fn deep_view(&self) -> MutationReconciledView {
        MutationReconciledView {
            operation_id: self.operation_id.deep_view(),
            batch_id: self.batch_id.deep_view(),
            observed_state: self.observed_state.deep_view(),
            resolution: self.resolution.deep_view(),
            workspace_snapshot_id: self.workspace_snapshot_id.deep_view(),
        }
    }
}

impl Value for MutationReconciled {
    fn same(&self, other: &Self) -> (r: bool) {
        self.operation_id.same(&other.operation_id)
            && self.batch_id.same(&other.batch_id)
            && self.observed_state.same(&other.observed_state)
            && self.resolution.same(&other.resolution)
            && self.workspace_snapshot_id.same(&other.workspace_snapshot_id)
    }

    fn duplicate(&self) -> (r: Self) {
        MutationReconciled {
            operation_id: self.operation_id.duplicate(),
            batch_id: self.batch_id.duplicate(),
            observed_state: self.observed_state.duplicate(),
            resolution: self.resolution.duplicate(),
            workspace_snapshot_id: self.workspace_snapshot_id.duplicate(),
        }
    }
}

/// A batch of mutations has begun.
#[derive(Debug, Clone, PartialEq, Eq)]
pub struct MutationBatchStarted {
    pub batch_id: String,
    pub operation_id: String,
    pub expected_subjects: Vec<MutationSubject>,
    pub prepared_digest: Option<String>,
    pub approval_identity: Option<String>,
    pub policy_fingerprint: Option<String>,
}

/// What a [`MutationBatchStarted`] holds.
#[verifier::ext_equal]
pub struct MutationBatchStartedView {
    pub batch_id: Seq<char>,
    pub operation_id: Seq<char>,
    pub expected_subjects: Seq<MutationSubjectView>,
    pub prepared_digest: Option<Seq<char>>,
    pub approval_identity: Option<Seq<char>>,
    pub policy_fingerprint: Option<Seq<char>>,
}

impl DeepView for MutationBatchStarted {
    type V = MutationBatchStartedView;

    open spec fn deep_view(&self) -> MutationBatchStartedView {
        MutationBatchStartedView {
            batch_id: self.batch_id.deep_view(),
            operation_id: self.operation_id.deep_view(),
            expected_subjects: self.expected_subjects.deep_view(),
            prepared_digest: self.prepared_digest.deep_view(),
            approval_identity: self.approval_identity.deep_view(),
            policy_fingerprint: self.policy_fingerprint.deep_view(),
        }
    }
}

impl Value for MutationBatchStarted {
    fn same(&self, other: &Self) -> (r: bool) {
        self.batch_id.same(&other.batch_id)
            && self.operation_id.same(&other.operation_id)
            && self.expected_subjects.same(&other.expected_subjects)
            && self.prepared_digest.same(&other.prepared_digest)
            && self.approval_identity.same(&other.approval_identity)
            && self.policy_fingerprint.same(&other.policy_fingerprint)
    }

    fn duplicate(&self) -> (r: Self) {
        MutationBatchStarted {
            batch_id: self.batch_id.duplicate(),
            operation_id: self.operation_id.duplicate(),
            expected_subjects: self.expected_subjects.duplicate(),
            prepared_digest: self.prepared_digest.duplicate(),
            approval_identity: self.approval_identity.duplicate(),
            policy_fingerprint: self.policy_fingerprint.duplicate(),
        }
    }
}

/// How a batch of mutations ended.
#[derive(Debug, Clone, Copy, PartialEq, Eq, Structural)]
pub enum MutationBatchStatus {
    Applied,
    PartiallyApplied,
    Failed,
}

impl DeepView for MutationBatchStatus {
    type V = MutationBatchStatus;

    open spec fn deep_view(&self) -> MutationBatchStatus {
        *self
    }
}

impl Value for MutationBatchStatus {
    fn same(&self, other: &Self) -> (r: bool) {
        *self == *other
    }

    fn duplicate(&self) -> (r: Self) {
        *self
    }
}

/// A batch of mutations has ended.
#[derive(Debug, Clone, PartialEq, Eq)]
pub struct MutationBatchFinished {
    pub batch_id: String,
    pub status: MutationBatchStatus,
    pub committed_operations: Vec<String>,
    pub failed_operations: Vec<String>,
    pub prepared_digest: Option<String>,
    pub approval_identity: Option<String>,
    pub policy_fingerprint: Option<String>,
}

/// What a [`MutationBatchFinished`] holds.
#[verifier::ext_equal]
pub struct MutationBatchFinishedView {
    pub batch_id: Seq<char>,
    pub status: MutationBatchStatus,
    pub committed_operations: Seq<Seq<char>>,
    pub failed_operations: Seq<Seq<char>>,
    pub prepared_digest: Option<Seq<char>>,
    pub approval_identity: Option<Seq<char>>,
    pub policy_fingerprint: Option<Seq<char>>,
}

impl DeepView for MutationBatchFinished {
    type V = MutationBatchFinishedView;

    open spec fn deep_view(&self) -> MutationBatchFinishedView {
        MutationBatchFinishedView {
            batch_id: self.batch_id.deep_view(),
            status: self.status.deep_view(),
            committed_operations: self.committed_operations.deep_view(),
            failed_operations: self.failed_operations.deep_view(),
            prepared_digest: self.prepared_digest.deep_view(),
            approval_identity: self.approval_identity.deep_view(),
            policy_fingerprint: self.policy_fingerprint.deep_view(),
        }
    }
}

impl Value for MutationBatchFinished {
    fn same(&self, other: &Self) -> (r: bool) {
        self.batch_id.same(&other.batch_id)
            && self.status.same(&other.status)
            && self.committed_operations.same(&other.committed_operations)
            && self.failed_operations.same(&other.failed_operations)
            && self.prepared_digest.same(&other.prepared_digest)
            && self.approval_identity.same(&other.approval_identity)
            && self.policy_fingerprint.same(&other.policy_fingerprint)
    }

    fn duplicate(&self) -> (r: Self) {
        MutationBatchFinished {
            batch_id: self.batch_id.duplicate(),
            status: self.status.duplicate(),
            committed_operations: self.committed_operations.duplicate(),
            failed_operations: self.failed_operations.duplicate(),
            prepared_digest: self.prepared_digest.duplicate(),
            approval_identity: self.approval_identity.duplicate(),
            policy_fingerprint: self.policy_fingerprint.duplicate(),
        }
    }
}

/// What became of a stored artifact.
#[derive(Debug, Clone, Copy, PartialEq, Eq, Structural)]
pub enum MutationArtifactLifecycleStatus {
    Deleted,
    Expired,
    Unavailable,
}

impl DeepView for MutationArtifactLifecycleStatus {
    type V = MutationArtifactLifecycleStatus;

    open spec fn deep_view(&self) -> MutationArtifactLifecycleStatus {
        *self
    }
}

impl Value for MutationArtifactLifecycleStatus {
    fn same(&self, other: &Self) -> (r: bool) {
        *self == *other
    }

    fn duplicate(&self) -> (r: Self) {
        *self
    }
}

/// A stored artifact has changed its state.
#[derive(Debug, Clone, PartialEq, Eq)]
pub struct MutationArtifactLifecycleRecorded {
    pub artifact_id: String,
    pub status: MutationArtifactLifecycleStatus,
}

/// What a [`MutationArtifactLifecycleRecorded`] holds.
#[verifier::ext_equal]
pub struct MutationArtifactLifecycleRecordedView {
    pub artifact_id: Seq<char>,
    pub status: MutationArtifactLifecycleStatus,
}

impl DeepView for MutationArtifactLifecycleRecorded {
    type V = MutationArtifactLifecycleRecordedView;

    open spec fn deep_view(&self) -> MutationArtifactLifecycleRecordedView {
        MutationArtifactLifecycleRecordedView {
            artifact_id: self.artifact_id.deep_view(),
            status: self.status.deep_view(),
        }
    }
}

impl Value for MutationArtifactLifecycleRecorded {
    fn same(&self, other: &Self) -> (r: bool) {
        self.artifact_id.same(&other.artifact_id)
            && self.status.same(&other.status)
    }

    fn duplicate(&self) -> (r: Self) {
        MutationArtifactLifecycleRecorded {
            artifact_id: self.artifact_id.duplicate(),
            status: self.status.duplicate(),
        }
    }
}

/// The workspace was changed by other hands.
#[derive(Debug, Clone, PartialEq, Eq)]
pub struct WorkspaceMutationDetected {
    pub workspace_id: String,
    pub to_workspace_snapshot_id: Option<String>,
    pub unknown_dirty: bool,
}

/// What a [`WorkspaceMutationDetected`] holds.
#[verifier::ext_equal]
pub struct WorkspaceMutationDetectedView {
    pub workspace_id: Seq<char>,
    pub to_workspace_snapshot_id: Option<Seq<char>>,
    pub unknown_dirty: bool,
}

impl DeepView for WorkspaceMutationDetected {
    type V = WorkspaceMutationDetectedView;

    open spec fn deep_view(&self) -> WorkspaceMutationDetectedView {
        WorkspaceMutationDetectedView {
            workspace_id: self.workspace_id.deep_view(),
            to_workspace_snapshot_id: self.to_workspace_snapshot_id.deep_view(),
            unknown_dirty: self.unknown_dirty.deep_view(),
        }
    }
}

impl Value for WorkspaceMutationDetected {
    fn same(&self, other: &Self) -> (r: bool) {
        self.workspace_id.same(&other.workspace_id)
            && self.to_workspace_snapshot_id.same(&other.to_workspace_snapshot_id)
            && self.unknown_dirty.same(&other.unknown_dirty)
    }

    fn duplicate(&self) -> (r: Self) {
        WorkspaceMutationDetected {
            workspace_id: self.workspace_id.duplicate(),
            to_workspace_snapshot_id: self.to_workspace_snapshot_id.duplicate(),
            unknown_dirty: self.unknown_dirty.duplicate(),
        }
    }
}

/// How a verification ended.
#[derive(Debug, Clone, Copy, PartialEq, Eq, Structural)]
pub enum ReceiptStatus {
    Succeeded,
    Failed,
    Cancelled,
}

impl DeepView for ReceiptStatus {
    type V = ReceiptStatus;

    open spec fn deep_view(&self) -> ReceiptStatus {
        *self
    }
}

impl Value for ReceiptStatus {
    fn same(&self, other: &Self) -> (r: bool) {
        *self == *other
    }

    fn duplicate(&self) -> (r: Self) {
        *self
    }
}

/// The receipt of one verification check. `source_identity_error` tells what is wrong with its
/// source identity.
#[derive(Debug, Clone, PartialEq, Eq)]
pub struct VerificationReceipt {
    pub receipt_id: String,
    pub status: ReceiptStatus,
    pub policy_hash: Option<String>,
    pub check_spec_id: String,
    pub check_spec_hash: String,
    pub check_status: ReceiptStatus,
    pub mutates_verification_scope: bool,
    pub workspace_snapshot_id: String,
    pub execution_backend: Option<String>,
    pub source_identity_error: Option<String>,
}

/// What a [`VerificationReceipt`] holds.
#[verifier::ext_equal]
pub struct VerificationReceiptView {
    pub receipt_id: Seq<char>,
    pub status: ReceiptStatus,
    pub policy_hash: Option<Seq<char>>,
    pub check_spec_id: Seq<char>,
    pub check_spec_hash: Seq<char>,
    pub check_status: ReceiptStatus,
    pub mutates_verification_scope: bool,
    pub workspace_snapshot_id: Seq<char>,
    pub execution_backend: Option<Seq<char>>,
    pub source_identity_error: Option<Seq<char>>,
}

impl DeepView for VerificationReceipt {
    type V = VerificationReceiptView;

    open spec fn deep_view(&self) -> VerificationReceiptView {
        VerificationReceiptView {
            receipt_id: self.receipt_id.deep_view(),
            status: self.status.deep_view(),
            policy_hash: self.policy_hash.deep_view(),
            check_spec_id: self.check_spec_id.deep_view(),
            check_spec_hash: self.check_spec_hash.deep_view(),
            check_status: self.check_status.deep_view(),
            mutates_verification_scope: self.mutates_verification_scope.deep_view(),
            workspace_snapshot_id: self.workspace_snapshot_id.deep_view(),
            execution_backend: self.execution_backend.deep_view(),
            source_identity_error: self.source_identity_error.deep_view(),
        }
    }
}

impl Value for VerificationReceipt {
    fn same(&self, other: &Self) -> (r: bool) {
        self.receipt_id.same(&other.receipt_id)
            && self.status.same(&other.status)
            && self.policy_hash.same(&other.policy_hash)
            && self.check_spec_id.same(&other.check_spec_id)
            && self.check_spec_hash.same(&other.check_spec_hash)
            && self.check_status.same(&other.check_status)
            && self.mutates_verification_scope.same(&other.mutates_verification_scope)
            && self.workspace_snapshot_id.same(&other.workspace_snapshot_id)
            && self.execution_backend.same(&other.execution_backend)
            && self.source_identity_error.same(&other.source_identity_error)
    }

    fn duplicate(&self) -> (r: Self) {
        VerificationReceipt {
            receipt_id: self.receipt_id.duplicate(),
            status: self.status.duplicate(),
            policy_hash: self.policy_hash.duplicate(),
            check_spec_id: self.check_spec_id.duplicate(),
            check_spec_hash: self.check_spec_hash.duplicate(),
            check_status: self.check_status.duplicate(),
            mutates_verification_scope: self.mutates_verification_scope.duplicate(),
            workspace_snapshot_id: self.workspace_snapshot_id.duplicate(),
            execution_backend: self.execution_backend.duplicate(),
            source_identity_error: self.source_identity_error.duplicate(),
        }
    }
}

/// A criterion that a check covers.
#[derive(Debug, Clone, PartialEq, Eq)]
pub struct IntentCriterionScope {
    pub intent_ref: IntentVersionRef,
    pub criterion_id: IntentCriterionId,
}

/// What a [`IntentCriterionScope`] holds.
#[verifier::ext_equal]
pub struct IntentCriterionScopeView {
    pub intent_ref: IntentVersionRefView,
    pub criterion_id: Seq<char>,
}

impl DeepView for IntentCriterionScope {
    type V = IntentCriterionScopeView;

    open spec fn deep_view(&self) -> IntentCriterionScopeView {
        IntentCriterionScopeView {
            intent_ref: self.intent_ref.deep_view(),
            criterion_id: self.criterion_id.deep_view(),
        }
    }
}

impl Value for IntentCriterionScope {
    fn same(&self, other: &Self) -> (r: bool) {
        self.intent_ref.same(&other.intent_ref)
            && self.criterion_id.same(&other.criterion_id)
    }

    fn duplicate(&self) -> (r: Self) {
        IntentCriterionScope {
            intent_ref: self.intent_ref.duplicate(),
            criterion_id: self.criterion_id.duplicate(),
        }
    }
}

/// A check that a policy requires. `shape_error` tells what is wrong with its shape.
#[derive(Debug, Clone, PartialEq, Eq)]
pub struct VerificationCheckSpec {
    pub check_spec_id: String,
    pub check_spec_hash: String,
    pub intent_criteria: Vec<IntentCriterionScope>,
    pub shape_error: Option<String>,
}

/// What a [`VerificationCheckSpec`] holds.
#[verifier::ext_equal]
pub struct VerificationCheckSpecView {
    pub check_spec_id: Seq<char>,
    pub check_spec_hash: Seq<char>,
    pub intent_criteria: Seq<IntentCriterionScopeView>,
    pub shape_error: Option<Seq<char>>,
}

impl DeepView for VerificationCheckSpec {
    type V = VerificationCheckSpecView;

    open spec fn deep_view(&self) -> VerificationCheckSpecView {
        VerificationCheckSpecView {
            check_spec_id: self.check_spec_id.deep_view(),
            check_spec_hash: self.check_spec_hash.deep_view(),
            intent_criteria: self.intent_criteria.deep_view(),
            shape_error: self.shape_error.deep_view(),
        }
    }
}

impl Value for VerificationCheckSpec {
    fn same(&self, other: &Self) -> (r: bool) {
        self.check_spec_id.same(&other.check_spec_id)
            && self.check_spec_hash.same(&other.check_spec_hash)
            && self.intent_criteria.same(&other.intent_criteria)
            && self.shape_error.same(&other.shape_error)
    }

    fn duplicate(&self) -> (r: Self) {
        VerificationCheckSpec {
            check_spec_id: self.check_spec_id.duplicate(),
            check_spec_hash: self.check_spec_hash.duplicate(),
            intent_criteria: self.intent_criteria.duplicate(),
            shape_error: self.shape_error.duplicate(),
        }
    }
}

/// A new verification policy, with the hash it was recorded under and the hash of its contents.
#[derive(Debug, Clone, PartialEq, Eq)]
pub struct VerificationPolicyChangedEntry {
    pub policy_hash: String,
    pub stable_hash: String,
    pub required_checks: Vec<VerificationCheckSpec>,
}

/// What a [`VerificationPolicyChangedEntry`] holds.
#[verifier::ext_equal]
pub struct VerificationPolicyChangedEntryView {
    pub policy_hash: Seq<char>,
    pub stable_hash: Seq<char>,
    pub required_checks: Seq<VerificationCheckSpecView>,
}

impl DeepView for VerificationPolicyChangedEntry {
    type V = VerificationPolicyChangedEntryView;

    open spec fn deep_view(&self) -> VerificationPolicyChangedEntryView {
        VerificationPolicyChangedEntryView {
            policy_hash: self.policy_hash.deep_view(),
            stable_hash: self.stable_hash.deep_view(),
            required_checks: self.required_checks.deep_view(),
        }
    }
}

impl Value for VerificationPolicyChangedEntry {
    fn same(&self, other: &Self) -> (r: bool) {
        self.policy_hash.same(&other.policy_hash)
            && self.stable_hash.same(&other.stable_hash)
            && self.required_checks.same(&other.required_checks)
    }

    fn duplicate(&self) -> (r: Self) {
        VerificationPolicyChangedEntry {
            policy_hash: self.policy_hash.duplicate(),
            stable_hash: self.stable_hash.duplicate(),
            required_checks: self.required_checks.duplicate(),
        }
    }
}

/// The verdict of a verification.
#[derive(Debug, Clone, Copy, PartialEq, Eq, Structural)]
pub enum VerificationVerdict {
    Passed,
    Failed,
    Inconclusive,
}

impl DeepView for VerificationVerdict {
    type V = VerificationVerdict;

    open spec fn deep_view(&self) -> VerificationVerdict {
        *self
    }
}

impl Value for VerificationVerdict {
    fn same(&self, other: &Self) -> (r: bool) {
        *self == *other
    }

    fn duplicate(&self) -> (r: Self) {
        *self
    }
}

/// The verification of a promoted task result. `validation_error` tells what is wrong with the
/// record.
#[derive(Debug, Clone, PartialEq, Eq)]
pub struct TaskParentVerificationRecorded {
    pub plan_id: String,
    pub promoted_snapshot_id: String,
    pub policy_digest: String,
    pub verdict: VerificationVerdict,
    pub receipts: Vec<VerificationReceipt>,
    pub validation_error: Option<String>,
}

/// What a [`TaskParentVerificationRecorded`] holds.
#[verifier::ext_equal]
pub struct TaskParentVerificationRecordedView {
    pub plan_id: Seq<char>,
    pub promoted_snapshot_id: Seq<char>,
    pub policy_digest: Seq<char>,
    pub verdict: VerificationVerdict,
    pub receipts: Seq<VerificationReceiptView>,
    pub validation_error: Option<Seq<char>>,
}

impl DeepView for TaskParentVerificationRecorded {
    type V = TaskParentVerificationRecordedView;

    open spec fn deep_view(&self) -> TaskParentVerificationRecordedView {
        TaskParentVerificationRecordedView {
            plan_id: self.plan_id.deep_view(),
            promoted_snapshot_id: self.promoted_snapshot_id.deep_view(),
            policy_digest: self.policy_digest.deep_view(),
            verdict: self.verdict.deep_view(),
            receipts: self.receipts.deep_view(),
            validation_error: self.validation_error.deep_view(),
        }
    }
}

impl Value for TaskParentVerificationRecorded {
    fn same(&self, other: &Self) -> (r: bool) {
        self.plan_id.same(&other.plan_id)
            && self.promoted_snapshot_id.same(&other.promoted_snapshot_id)
            && self.policy_digest.same(&other.policy_digest)
            && self.verdict.same(&other.verdict)
            && self.receipts.same(&other.receipts)
            && self.validation_error.same(&other.validation_error)
    }

    fn duplicate(&self) -> (r: Self) {
        TaskParentVerificationRecorded {
            plan_id: self.plan_id.duplicate(),
            promoted_snapshot_id: self.promoted_snapshot_id.duplicate(),
            policy_digest: self.policy_digest.duplicate(),
            verdict: self.verdict.duplicate(),
            receipts: self.receipts.duplicate(),
            validation_error: self.validation_error.duplicate(),
        }
    }
}

/// An entry of the session log that steers the session.
#[derive(Debug, Clone, PartialEq, Eq)]
pub enum ControlEntry {
    TaskPlan(TaskPlanEntry),
    PlanExecutionAdopted(TaskPlanEntry),
    TaskMaterializationPrepared(TaskPlanEntry),
    TaskParticipantAttempt(TaskParticipantAttemptEntry),
    AgentRunAttemptStarted(AgentRunAttemptStartedEntry),
    AgentRunInterrupted(AgentRunInterruptedEntry),
    ChangeSetProposed(ChangeSet),
    ChangeSetApplied(ChangeSetResult),
    IntegrationPlanRecorded(IntegrationPlanRecorded),
    IntegrationLaneChanged(IntegrationLaneChanged),
    IntegrationPromotionRecorded(IntegrationPromotionRecorded),
    VerificationPolicyChanged(VerificationPolicyChangedEntry),
    VerificationRecorded(VerificationReceipt),
    TaskParentVerificationRecorded(TaskParentVerificationRecorded),
    Unrelated,
}

/// What a [`ControlEntry`] holds.
#[verifier::ext_equal]
pub enum ControlEntryView {
    TaskPlan(TaskPlanEntryView),
    PlanExecutionAdopted(TaskPlanEntryView),
    TaskMaterializationPrepared(TaskPlanEntryView),
    TaskParticipantAttempt(TaskParticipantAttemptEntryView),
    AgentRunAttemptStarted(AgentRunAttemptStartedEntryView),
    AgentRunInterrupted(AgentRunInterruptedEntryView),
    ChangeSetProposed(ChangeSetView),
    ChangeSetApplied(ChangeSetResultView),
    IntegrationPlanRecorded(IntegrationPlanRecordedView),
    IntegrationLaneChanged(IntegrationLaneChangedView),
    IntegrationPromotionRecorded(IntegrationPromotionRecordedView),
    VerificationPolicyChanged(VerificationPolicyChangedEntryView),
    VerificationRecorded(VerificationReceiptView),
    TaskParentVerificationRecorded(TaskParentVerificationRecordedView),
    Unrelated,
}

impl DeepView for ControlEntry {
    type V = ControlEntryView;

    open spec fn deep_view(&self) -> ControlEntryView {
        match self {
            ControlEntry::TaskPlan(x) => ControlEntryView::TaskPlan(x.deep_view()),
            ControlEntry::PlanExecutionAdopted(x) => ControlEntryView::PlanExecutionAdopted(x.deep_view()),
            ControlEntry::TaskMaterializationPrepared(x) => ControlEntryView::TaskMaterializationPrepared(x.deep_view()),
            ControlEntry::TaskParticipantAttempt(x) => ControlEntryView::TaskParticipantAttempt(x.deep_view()),
            ControlEntry::AgentRunAttemptStarted(x) => ControlEntryView::AgentRunAttemptStarted(x.deep_view()),
            ControlEntry::AgentRunInterrupted(x) => ControlEntryView::AgentRunInterrupted(x.deep_view()),
            ControlEntry::ChangeSetProposed(x) => ControlEntryView::ChangeSetProposed(x.deep_view()),
            ControlEntry::ChangeSetApplied(x) => ControlEntryView::ChangeSetApplied(x.deep_view()),
            ControlEntry::IntegrationPlanRecorded(x) => ControlEntryView::IntegrationPlanRecorded(x.deep_view()),
            ControlEntry::IntegrationLaneChanged(x) => ControlEntryView::IntegrationLaneChanged(x.deep_view()),
            ControlEntry::IntegrationPromotionRecorded(x) => ControlEntryView::IntegrationPromotionRecorded(x.deep_view()),
            ControlEntry::VerificationPolicyChanged(x) => ControlEntryView::VerificationPolicyChanged(x.deep_view()),
            ControlEntry::VerificationRecorded(x) => ControlEntryView::VerificationRecorded(x.deep_view()),
            ControlEntry::TaskParentVerificationRecorded(x) => ControlEntryView::TaskParentVerificationRecorded(x.deep_view()),
            ControlEntry::Unrelated => ControlEntryView::Unrelated,
        }
    }
}

impl Value for ControlEntry {
    fn same(&self, other: &Self) -> (r: bool) {
        match (self, other) {
            (
                ControlEntry::TaskPlan(x),
                ControlEntry::TaskPlan(x2),
            ) => x.same(x2),
            (
                ControlEntry::PlanExecutionAdopted(x),
                ControlEntry::PlanExecutionAdopted(x2),
            ) => x.same(x2),
            (
                ControlEntry::TaskMaterializationPrepared(x),
                ControlEntry::TaskMaterializationPrepared(x2),
            ) => x.same(x2),
            (
                ControlEntry::TaskParticipantAttempt(x),
                ControlEntry::TaskParticipantAttempt(x2),
            ) => x.same(x2),
            (
                ControlEntry::AgentRunAttemptStarted(x),
                ControlEntry::AgentRunAttemptStarted(x2),
            ) => x.same(x2),
            (
                ControlEntry::AgentRunInterrupted(x),
                ControlEntry::AgentRunInterrupted(x2),
            ) => x.same(x2),
            (
                ControlEntry::ChangeSetProposed(x),
                ControlEntry::ChangeSetProposed(x2),
            ) => x.same(x2),
            (
                ControlEntry::ChangeSetApplied(x),
                ControlEntry::ChangeSetApplied(x2),
            ) => x.same(x2),
            (
                ControlEntry::IntegrationPlanRecorded(x),
                ControlEntry::IntegrationPlanRecorded(x2),
            ) => x.same(x2),
            (
                ControlEntry::IntegrationLaneChanged(x),
                ControlEntry::IntegrationLaneChanged(x2),
            ) => x.same(x2),
            (
                ControlEntry::IntegrationPromotionRecorded(x),
                ControlEntry::IntegrationPromotionRecorded(x2),
            ) => x.same(x2),
            (
                ControlEntry::VerificationPolicyChanged(x),
                ControlEntry::VerificationPolicyChanged(x2),
            ) => x.same(x2),
            (
                ControlEntry::VerificationRecorded(x),
                ControlEntry::VerificationRecorded(x2),
            ) => x.same(x2),
            (
                ControlEntry::TaskParentVerificationRecorded(x),
                ControlEntry::TaskParentVerificationRecorded(x2),
            ) => x.same(x2),
            (
                ControlEntry::Unrelated,
                ControlEntry::Unrelated,
            ) => true,
            _ => false,
        }
    }

    fn duplicate(&self) -> (r: Self) {
        match self {
            ControlEntry::TaskPlan(x) => ControlEntry::TaskPlan(x.duplicate()),
            ControlEntry::PlanExecutionAdopted(x) => ControlEntry::PlanExecutionAdopted(x.duplicate()),
            ControlEntry::TaskMaterializationPrepared(x) => ControlEntry::TaskMaterializationPrepared(x.duplicate()),
            ControlEntry::TaskParticipantAttempt(x) => ControlEntry::TaskParticipantAttempt(x.duplicate()),
            ControlEntry::AgentRunAttemptStarted(x) => ControlEntry::AgentRunAttemptStarted(x.duplicate()),
            ControlEntry::AgentRunInterrupted(x) => ControlEntry::AgentRunInterrupted(x.duplicate()),
            ControlEntry::ChangeSetProposed(x) => ControlEntry::ChangeSetProposed(x.duplicate()),
            ControlEntry::ChangeSetApplied(x) => ControlEntry::ChangeSetApplied(x.duplicate()),
            ControlEntry::IntegrationPlanRecorded(x) => ControlEntry::IntegrationPlanRecorded(x.duplicate()),
            ControlEntry::IntegrationLaneChanged(x) => ControlEntry::IntegrationLaneChanged(x.duplicate()),
            ControlEntry::IntegrationPromotionRecorded(x) => ControlEntry::IntegrationPromotionRecorded(x.duplicate()),
            ControlEntry::VerificationPolicyChanged(x) => ControlEntry::VerificationPolicyChanged(x.duplicate()),
            ControlEntry::VerificationRecorded(x) => ControlEntry::VerificationRecorded(x.duplicate()),
            ControlEntry::TaskParentVerificationRecorded(x) => ControlEntry::TaskParentVerificationRecorded(x.duplicate()),
            ControlEntry::Unrelated => ControlEntry::Unrelated,
        }
    }
}

/// The note that a session began as a fork of another.
#[derive(Debug, Clone, PartialEq, Eq)]
pub struct ConversationForked {
    pub source_session_id: String,
}

/// What a [`ConversationForked`] holds.
#[verifier::ext_equal]
pub struct ConversationForkedView {
    pub source_session_id: Seq<char>,
}

impl DeepView for ConversationForked {
    type V = ConversationForkedView;

    open spec fn deep_view(&self) -> ConversationForkedView {
        ConversationForkedView {
            source_session_id: self.source_session_id.deep_view(),
        }
    }
}

impl Value for ConversationForked {
    fn same(&self, other: &Self) -> (r: bool) {
        self.source_session_id.same(&other.source_session_id)
    }

    fn duplicate(&self) -> (r: Self) {
        ConversationForked {
            source_session_id: self.source_session_id.duplicate(),
        }
    }
}

/// What a record of the durable stream says. `Unrelated` stands for an event that is known but that
/// none of the projections reads.
#[derive(Debug, Clone, PartialEq, Eq)]
pub enum RecordBody {
    Intent(IntentEventV1),
    Control(ControlEntry),
    MutationPrepared(MutationPrepared),
    MutationCommitted(MutationCommitted),
    MutationBatchStarted(MutationBatchStarted),
    MutationBatchFinished(MutationBatchFinished),
    MutationReconciled(MutationReconciled),
    ArtifactLifecycle(MutationArtifactLifecycleRecorded),
    WorkspaceMutation(WorkspaceMutationDetected),
    ConversationForked(ConversationForked),
    RunFinalized {
        run_id: String,
        succeeded: bool,
    },
    Unrelated,
    UnknownNonCritical,
}

/// What a [`RecordBody`] holds.
#[verifier::ext_equal]
pub enum RecordBodyView {
    Intent(IntentEventV1View),
    Control(ControlEntryView),
    MutationPrepared(MutationPreparedView),
    MutationCommitted(MutationCommittedView),
    MutationBatchStarted(MutationBatchStartedView),
    MutationBatchFinished(MutationBatchFinishedView),
    MutationReconciled(MutationReconciledView),
    ArtifactLifecycle(MutationArtifactLifecycleRecordedView),
    WorkspaceMutation(WorkspaceMutationDetectedView),
    ConversationForked(ConversationForkedView),
    RunFinalized {
        run_id: Seq<char>,
        succeeded: bool,
    },
    Unrelated,
    UnknownNonCritical,
}

impl DeepView for RecordBody {
    type V = RecordBodyView;

    open spec fn deep_view(&self) -> RecordBodyView {
        match self {
            RecordBody::Intent(x) => RecordBodyView::Intent(x.deep_view()),
            RecordBody::Control(x) => RecordBodyView::Control(x.deep_view()),
            RecordBody::MutationPrepared(x) => RecordBodyView::MutationPrepared(x.deep_view()),
            RecordBody::MutationCommitted(x) => RecordBodyView::MutationCommitted(x.deep_view()),
            RecordBody::MutationBatchStarted(x) => RecordBodyView::MutationBatchStarted(x.deep_view()),
            RecordBody::MutationBatchFinished(x) => RecordBodyView::MutationBatchFinished(x.deep_view()),
            RecordBody::MutationReconciled(x) => RecordBodyView::MutationReconciled(x.deep_view()),
            RecordBody::ArtifactLifecycle(x) => RecordBodyView::ArtifactLifecycle(x.deep_view()),
            RecordBody::WorkspaceMutation(x) => RecordBodyView::WorkspaceMutation(x.deep_view()),
            RecordBody::ConversationForked(x) => RecordBodyView::ConversationForked(x.deep_view()),
            RecordBody::RunFinalized { run_id, succeeded } => RecordBodyView::RunFinalized {
                run_id: run_id.deep_view(),
                succeeded: succeeded.deep_view(),
            },
            RecordBody::Unrelated => RecordBodyView::Unrelated,
            RecordBody::UnknownNonCritical => RecordBodyView::UnknownNonCritical,
        }
    }
}

impl Value for RecordBody {
    fn same(&self, other: &Self) -> (r: bool) {
        match (self, other) {
            (
                RecordBody::Intent(x),
                RecordBody::Intent(x2),
            ) => x.same(x2),
            (
                RecordBody::Control(x),
                RecordBody::Control(x2),
            ) => x.same(x2),
            (
                RecordBody::MutationPrepared(x),
                RecordBody::MutationPrepared(x2),
            ) => x.same(x2),
            (
                RecordBody::MutationCommitted(x),
                RecordBody::MutationCommitted(x2),
            ) => x.same(x2),
            (
                RecordBody::MutationBatchStarted(x),
                RecordBody::MutationBatchStarted(x2),
            ) => x.same(x2),
            (
                RecordBody::MutationBatchFinished(x),
                RecordBody::MutationBatchFinished(x2),
            ) => x.same(x2),
            (
                RecordBody::MutationReconciled(x),
                RecordBody::MutationReconciled(x2),
            ) => x.same(x2),
            (
                RecordBody::ArtifactLifecycle(x),
                RecordBody::ArtifactLifecycle(x2),
            ) => x.same(x2),
            (
                RecordBody::WorkspaceMutation(x),
                RecordBody::WorkspaceMutation(x2),
            ) => x.same(x2),
            (
                RecordBody::ConversationForked(x),
                RecordBody::ConversationForked(x2),
            ) => x.same(x2),
            (
                RecordBody::RunFinalized { run_id, succeeded },
                RecordBody::RunFinalized { run_id: run_id2, succeeded: succeeded2 },
            ) => run_id.same(run_id2)
                && succeeded.same(succeeded2),
            (
                RecordBody::Unrelated,
                RecordBody::Unrelated,
            ) => true,
            (
                RecordBody::UnknownNonCritical,
                RecordBody::UnknownNonCritical,
            ) => true,
            _ => false,
        }
    }

    fn duplicate(&self) -> (r: Self) {
        match self {
            RecordBody::Intent(x) => RecordBody::Intent(x.duplicate()),
            RecordBody::Control(x) => RecordBody::Control(x.duplicate()),
            RecordBody::MutationPrepared(x) => RecordBody::MutationPrepared(x.duplicate()),
            RecordBody::MutationCommitted(x) => RecordBody::MutationCommitted(x.duplicate()),
            RecordBody::MutationBatchStarted(x) => RecordBody::MutationBatchStarted(x.duplicate()),
            RecordBody::MutationBatchFinished(x) => RecordBody::MutationBatchFinished(x.duplicate()),
            RecordBody::MutationReconciled(x) => RecordBody::MutationReconciled(x.duplicate()),
            RecordBody::ArtifactLifecycle(x) => RecordBody::ArtifactLifecycle(x.duplicate()),
            RecordBody::WorkspaceMutation(x) => RecordBody::WorkspaceMutation(x.duplicate()),
            RecordBody::ConversationForked(x) => RecordBody::ConversationForked(x.duplicate()),
            RecordBody::RunFinalized { run_id, succeeded } => RecordBody::RunFinalized {
                run_id: run_id.duplicate(),
                succeeded: succeeded.duplicate(),
            },
            RecordBody::Unrelated => RecordBody::Unrelated,
            RecordBody::UnknownNonCritical => RecordBody::UnknownNonCritical,
        }
    }
}

/// One record of the durable stream of a session.
#[derive(Debug, Clone, PartialEq, Eq)]
pub struct SessionStreamRecord {
    pub event_id: String,
    pub session_id: String,
    pub stream_sequence: u64,
    pub body: RecordBody,
}

/// What a [`SessionStreamRecord`] holds.
#[verifier::ext_equal]
pub struct SessionStreamRecordView {
    pub event_id: Seq<char>,
    pub session_id: Seq<char>,
    pub stream_sequence: u64,
    pub body: RecordBodyView,
}

impl DeepView for SessionStreamRecord {
    type V = SessionStreamRecordView;

    open spec fn deep_view(&self) -> SessionStreamRecordView {
        SessionStreamRecordView {
            event_id: self.event_id.deep_view(),
            session_id: self.session_id.deep_view(),
            stream_sequence: self.stream_sequence.deep_view(),
            body: self.body.deep_view(),
        }
    }
}

impl Value for SessionStreamRecord {
    fn same(&self, other: &Self) -> (r: bool) {
        self.event_id.same(&other.event_id)
            && self.session_id.same(&other.session_id)
            && self.stream_sequence.same(&other.stream_sequence)
            && self.body.same(&other.body)
    }

    fn duplicate(&self) -> (r: Self) {
        SessionStreamRecord {
            event_id: self.event_id.duplicate(),
            session_id: self.session_id.duplicate(),
            stream_sequence: self.stream_sequence.duplicate(),
            body: self.body.duplicate(),
        }
    }
}

/// How far a projection has read the stream.
#[derive(Debug, Clone, PartialEq, Eq)]
pub struct ProjectionCursor {
    pub projection_schema_version: u16,
    pub event_id: String,
    pub stream_sequence: u64,
}

/// What a [`ProjectionCursor`] holds.
#[verifier::ext_equal]
pub struct ProjectionCursorView {
    pub projection_schema_version: u16,
    pub event_id: Seq<char>,
    pub stream_sequence: u64,
}

impl DeepView for ProjectionCursor {
    type V = ProjectionCursorView;

    open spec fn deep_view(&self) -> ProjectionCursorView {
        ProjectionCursorView {
            projection_schema_version: self.projection_schema_version.deep_view(),
            event_id: self.event_id.deep_view(),
            stream_sequence: self.stream_sequence.deep_view(),
        }
    }
}

impl Value for ProjectionCursor {
    fn same(&self, other: &Self) -> (r: bool) {
        self.projection_schema_version.same(&other.projection_schema_version)
            && self.event_id.same(&other.event_id)
            && self.stream_sequence.same(&other.stream_sequence)
    }

    fn duplicate(&self) -> (r: Self) {
        ProjectionCursor {
            projection_schema_version: self.projection_schema_version.duplicate(),
            event_id: self.event_id.duplicate(),
            stream_sequence: self.stream_sequence.duplicate(),
        }
    }
}

/// What the kernel reads of a session: its identity, the records of its durable stream where it has
/// one, and the live state of its tasks.
#[derive(Debug, Clone, PartialEq, Eq)]
pub struct Session {
    pub session_scope_id: String,
    pub durable_records: Option<Vec<SessionStreamRecord>>,
    pub tasks: TaskStateProjection,
}

/// What a [`Session`] holds.
#[verifier::ext_equal]
pub struct SessionView {
    pub session_scope_id: Seq<char>,
    pub durable_records: Option<Seq<SessionStreamRecordView>>,
    pub tasks: TaskStateProjectionView,
}

impl DeepView for Session {
    type V = SessionView;

    open spec fn deep_view(&self) -> SessionView {
        SessionView {
            session_scope_id: self.session_scope_id.deep_view(),
            durable_records: self.durable_records.deep_view(),
            tasks: self.tasks.deep_view(),
        }
    }
}

impl Value for Session {
    fn same(&self, other: &Self) -> (r: bool) {
        self.session_scope_id.same(&other.session_scope_id)
            && self.durable_records.same(&other.durable_records)
            && self.tasks.same(&other.tasks)
    }

    fn duplicate(&self) -> (r: Self) {
        Session {
            session_scope_id: self.session_scope_id.duplicate(),
            durable_records: self.durable_records.duplicate(),
            tasks: self.tasks.duplicate(),
        }
    }
}

impl Keyed for TaskStepSpec {
    open spec fn key(v: TaskStepSpecView) -> Seq<char> {
        v.step_id
    }

    fn key_text(&self) -> (r: &str) {
        self.step_id.as_str()
    }
}

impl Keyed for TaskState {
    open spec fn key(v: TaskStateView) -> Seq<char> {
        v.task_id
    }

    fn key_text(&self) -> (r: &str) {
        self.task_id.as_str()
    }
}

impl Keyed for ChangeSet {
    open spec fn key(v: ChangeSetView) -> Seq<char> {
        v.id
    }

    fn key_text(&self) -> (r: &str) {
        self.id.as_str()
    }
}

impl Keyed for ChangeSetResult {
    open spec fn key(v: ChangeSetResultView) -> Seq<char> {
        v.id
    }

    fn key_text(&self) -> (r: &str) {
        self.id.as_str()
    }
}

impl Keyed for ChangeSetFile {
    open spec fn key(v: ChangeSetFileView) -> Seq<char> {
        v.path
    }

    fn key_text(&self) -> (r: &str) {
        self.path.as_str()
    }
}

impl Keyed for MutationBatchStarted {
    open spec fn key(v: MutationBatchStartedView) -> Seq<char> {
        v.batch_id
    }

    fn key_text(&self) -> (r: &str) {
        self.batch_id.as_str()
    }
}

impl Keyed for MutationBatchFinished {
    open spec fn key(v: MutationBatchFinishedView) -> Seq<char> {
        v.batch_id
    }

    fn key_text(&self) -> (r: &str) {
        self.batch_id.as_str()
    }
}

} // verus!
