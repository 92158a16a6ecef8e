//! What the records of a durable stream carry.

use vstd::prelude::*;

use crate::integration::{
    IntegrationPlanRecorded, IntegrationPlanRecordedView, IntegrationPromotionRecorded,
    IntegrationPromotionRecordedView,
};
use crate::intent::{IntentEventV1, IntentEventV1View};
use crate::records::{
    AgentRunAttemptStartedEntry, AgentRunAttemptStartedEntryView, AgentRunInterruptedEntry,
    AgentRunInterruptedEntryView, ChangeSet, ChangeSetResult, ChangeSetResultView, ChangeSetView,
    ControlEntry, ControlEntryView, MutationBatchFinished, MutationBatchFinishedView,
    MutationBatchStarted, MutationBatchStartedView, MutationCommitted, MutationCommittedView,
    MutationPrepared, MutationPreparedView, MutationReconciled, MutationReconciledView, RecordBody,
    RecordBodyView, SessionStreamRecord, SessionStreamRecordView, TaskParentVerificationRecorded,
    TaskParentVerificationRecordedView, TaskParticipantAttemptEntry,
    TaskParticipantAttemptEntryView, TaskPlanEntry, TaskPlanEntryView,
    VerificationPolicyChangedEntry, VerificationPolicyChangedEntryView, VerificationReceipt,
    VerificationReceiptView, WorkspaceMutationDetected, WorkspaceMutationDetectedView,
};

verus! {

/// The task plan that a record carries, on its own or within an adoption.
pub open spec fn task_plan_in(r: SessionStreamRecordView) -> Option<TaskPlanEntryView> {
    match r.body {
        RecordBodyView::Control(ControlEntryView::TaskPlan(x)) => Some(x),
        RecordBodyView::Control(ControlEntryView::PlanExecutionAdopted(x)) => Some(x),
        RecordBodyView::Control(ControlEntryView::TaskMaterializationPrepared(x)) => Some(x),
        _ => None,
    }
}

/// The task plan that a record carries, on its own or within an adoption.
pub(crate) fn task_plan_of(r: &SessionStreamRecord) -> (o: Option<&TaskPlanEntry>)
    ensures
        o.deep_view() == task_plan_in(r.deep_view()),
{
    match &r.body {
        RecordBody::Control(ControlEntry::TaskPlan(x)) => Some(x),
        RecordBody::Control(ControlEntry::PlanExecutionAdopted(x)) => Some(x),
        RecordBody::Control(ControlEntry::TaskMaterializationPrepared(x)) => Some(x),
        _ => None,
    }
}

/// The attempt of a participant that a record carries.
pub open spec fn attempt_in(r: SessionStreamRecordView) -> Option<TaskParticipantAttemptEntryView> {
    match r.body {
        RecordBodyView::Control(ControlEntryView::TaskParticipantAttempt(x)) => Some(x),
        _ => None,
    }
}

/// The attempt of a participant that a record carries.
pub(crate) fn attempt_of(r: &SessionStreamRecord) -> (o: Option<&TaskParticipantAttemptEntry>)
    ensures
        o.deep_view() == attempt_in(r.deep_view()),
{
    match &r.body {
        RecordBody::Control(ControlEntry::TaskParticipantAttempt(x)) => Some(x),
        _ => None,
    }
}

/// The start of an agent run that a record carries.
pub open spec fn agent_attempt_in(r: SessionStreamRecordView) -> Option<AgentRunAttemptStartedEntryView> {
    match r.body {
        RecordBodyView::Control(ControlEntryView::AgentRunAttemptStarted(x)) => Some(x),
        _ => None,
    }
}

/// The start of an agent run that a record carries.
pub(crate) fn agent_attempt_of(r: &SessionStreamRecord) -> (o: Option<&AgentRunAttemptStartedEntry>)
    ensures
        o.deep_view() == agent_attempt_in(r.deep_view()),
{
    match &r.body {
        RecordBody::Control(ControlEntry::AgentRunAttemptStarted(x)) => Some(x),
        _ => None,
    }
}

/// The interruption of an agent run that a record carries.
pub open spec fn interruption_in(r: SessionStreamRecordView) -> Option<AgentRunInterruptedEntryView> {
    match r.body {
        RecordBodyView::Control(ControlEntryView::AgentRunInterrupted(x)) => Some(x),
        _ => None,
    }
}

/// The interruption of an agent run that a record carries.
pub(crate) fn interruption_of(r: &SessionStreamRecord) -> (o: Option<&AgentRunInterruptedEntry>)
    ensures
        o.deep_view() == interruption_in(r.deep_view()),
{
    match &r.body {
        RecordBody::Control(ControlEntry::AgentRunInterrupted(x)) => Some(x),
        _ => None,
    }
}

/// The change set that a record proposes.
pub open spec fn proposal_in(r: SessionStreamRecordView) -> Option<ChangeSetView> {
    match r.body {
        RecordBodyView::Control(ControlEntryView::ChangeSetProposed(x)) => Some(x),
        _ => None,
    }
}

/// The change set that a record proposes.
pub(crate) fn proposal_of(r: &SessionStreamRecord) -> (o: Option<&ChangeSet>)
    ensures
        o.deep_view() == proposal_in(r.deep_view()),
{
    match &r.body {
        RecordBody::Control(ControlEntry::ChangeSetProposed(x)) => Some(x),
        _ => None,
    }
}

/// The result of a change set that a record carries.
pub open spec fn change_result_in(r: SessionStreamRecordView) -> Option<ChangeSetResultView> {
    match r.body {
        RecordBodyView::Control(ControlEntryView::ChangeSetApplied(x)) => Some(x),
        _ => None,
    }
}

/// The result of a change set that a record carries.
pub(crate) fn change_result_of(r: &SessionStreamRecord) -> (o: Option<&ChangeSetResult>)
    ensures
        o.deep_view() == change_result_in(r.deep_view()),
{
    match &r.body {
        RecordBody::Control(ControlEntry::ChangeSetApplied(x)) => Some(x),
        _ => None,
    }
}

/// The integration plan that a record carries.
pub open spec fn integration_plan_in(r: SessionStreamRecordView) -> Option<IntegrationPlanRecordedView> {
    match r.body {
        RecordBodyView::Control(ControlEntryView::IntegrationPlanRecorded(x)) => Some(x),
        _ => None,
    }
}

/// The integration plan that a record carries.
pub(crate) fn integration_plan_of(r: &SessionStreamRecord) -> (o: Option<&IntegrationPlanRecorded>)
    ensures
        o.deep_view() == integration_plan_in(r.deep_view()),
{
    match &r.body {
        RecordBody::Control(ControlEntry::IntegrationPlanRecorded(x)) => Some(x),
        _ => None,
    }
}

/// The promotion that a record carries.
pub open spec fn promotion_in(r: SessionStreamRecordView) -> Option<IntegrationPromotionRecordedView> {
    match r.body {
        RecordBodyView::Control(ControlEntryView::IntegrationPromotionRecorded(x)) => Some(x),
        _ => None,
    }
}

/// The promotion that a record carries.
pub(crate) fn promotion_of(r: &SessionStreamRecord) -> (o: Option<&IntegrationPromotionRecorded>)
    ensures
        o.deep_view() == promotion_in(r.deep_view()),
{
    match &r.body {
        RecordBody::Control(ControlEntry::IntegrationPromotionRecorded(x)) => Some(x),
        _ => None,
    }
}

/// The verification policy that a record carries.
pub open spec fn policy_in(r: SessionStreamRecordView) -> Option<VerificationPolicyChangedEntryView> {
    match r.body {
        RecordBodyView::Control(ControlEntryView::VerificationPolicyChanged(x)) => Some(x),
        _ => None,
    }
}

/// The verification policy that a record carries.
pub(crate) fn policy_of(r: &SessionStreamRecord) -> (o: Option<&VerificationPolicyChangedEntry>)
    ensures
        o.deep_view() == policy_in(r.deep_view()),
{
    match &r.body {
        RecordBody::Control(ControlEntry::VerificationPolicyChanged(x)) => Some(x),
        _ => None,
    }
}

/// The verification receipt that a record carries.
pub open spec fn receipt_in(r: SessionStreamRecordView) -> Option<VerificationReceiptView> {
    match r.body {
        RecordBodyView::Control(ControlEntryView::VerificationRecorded(x)) => Some(x),
        _ => None,
    }
}

/// The verification receipt that a record carries.
pub(crate) fn receipt_of(r: &SessionStreamRecord) -> (o: Option<&VerificationReceipt>)
    ensures
        o.deep_view() == receipt_in(r.deep_view()),
{
    match &r.body {
        RecordBody::Control(ControlEntry::VerificationRecorded(x)) => Some(x),
        _ => None,
    }
}

/// The verification of a promoted result that a record carries.
pub open spec fn parent_verification_in(r: SessionStreamRecordView) -> Option<TaskParentVerificationRecordedView> {
    match r.body {
        RecordBodyView::Control(ControlEntryView::TaskParentVerificationRecorded(x)) => Some(x),
        _ => None,
    }
}

/// The verification of a promoted result that a record carries.
pub(crate) fn parent_verification_of(r: &SessionStreamRecord) -> (o: Option<&TaskParentVerificationRecorded>)
    ensures
        o.deep_view() == parent_verification_in(r.deep_view()),
{
    match &r.body {
        RecordBody::Control(ControlEntry::TaskParentVerificationRecorded(x)) => Some(x),
        _ => None,
    }
}

/// The mutation that a record prepares.
pub open spec fn prepared_in(r: SessionStreamRecordView) -> Option<MutationPreparedView> {
    match r.body {
        RecordBodyView::MutationPrepared(x) => Some(x),
        _ => None,
    }
}

/// The mutation that a record prepares.
pub(crate) fn prepared_of(r: &SessionStreamRecord) -> (o: Option<&MutationPrepared>)
    ensures
        o.deep_view() == prepared_in(r.deep_view()),
{
    match &r.body {
        RecordBody::MutationPrepared(x) => Some(x),
        _ => None,
    }
}

/// The mutation that a record commits.
pub open spec fn committed_in(r: SessionStreamRecordView) -> Option<MutationCommittedView> {
    match r.body {
        RecordBodyView::MutationCommitted(x) => Some(x),
        _ => None,
    }
}

/// The mutation that a record commits.
pub(crate) fn committed_of(r: &SessionStreamRecord) -> (o: Option<&MutationCommitted>)
    ensures
        o.deep_view() == committed_in(r.deep_view()),
{
    match &r.body {
        RecordBody::MutationCommitted(x) => Some(x),
        _ => None,
    }
}

/// The batch that a record begins.
pub open spec fn batch_start_in(r: SessionStreamRecordView) -> Option<MutationBatchStartedView> {
    match r.body {
        RecordBodyView::MutationBatchStarted(x) => Some(x),
        _ => None,
    }
}

/// The batch that a record begins.
pub(crate) fn batch_start_of(r: &SessionStreamRecord) -> (o: Option<&MutationBatchStarted>)
    ensures
        o.deep_view() == batch_start_in(r.deep_view()),
{
    match &r.body {
        RecordBody::MutationBatchStarted(x) => Some(x),
        _ => None,
    }
}

/// The batch that a record ends.
pub open spec fn batch_end_in(r: SessionStreamRecordView) -> Option<MutationBatchFinishedView> {
    match r.body {
        RecordBodyView::MutationBatchFinished(x) => Some(x),
        _ => None,
    }
}

/// The batch that a record ends.
pub(crate) fn batch_end_of(r: &SessionStreamRecord) -> (o: Option<&MutationBatchFinished>)
    ensures
        o.deep_view() == batch_end_in(r.deep_view()),
{
    match &r.body {
        RecordBody::MutationBatchFinished(x) => Some(x),
        _ => None,
    }
}

/// The mutation that a record reconciles.
pub open spec fn reconciled_in(r: SessionStreamRecordView) -> Option<MutationReconciledView> {
    match r.body {
        RecordBodyView::MutationReconciled(x) => Some(x),
        _ => None,
    }
}

/// The mutation that a record reconciles.
pub(crate) fn reconciled_of(r: &SessionStreamRecord) -> (o: Option<&MutationReconciled>)
    ensures
        o.deep_view() == reconciled_in(r.deep_view()),
{
    match &r.body {
        RecordBody::MutationReconciled(x) => Some(x),
        _ => None,
    }
}

/// The change by other hands that a record carries.
pub open spec fn detected_in(r: SessionStreamRecordView) -> Option<WorkspaceMutationDetectedView> {
    match r.body {
        RecordBodyView::WorkspaceMutation(x) => Some(x),
        _ => None,
    }
}

/// The change by other hands that a record carries.
pub(crate) fn detected_of(r: &SessionStreamRecord) -> (o: Option<&WorkspaceMutationDetected>)
    ensures
        o.deep_view() == detected_in(r.deep_view()),
{
    match &r.body {
        RecordBody::WorkspaceMutation(x) => Some(x),
        _ => None,
    }
}

/// The intent event that a record carries.
pub open spec fn intent_event_in(r: SessionStreamRecordView) -> Option<IntentEventV1View> {
    match r.body {
        RecordBodyView::Intent(x) => Some(x),
        _ => None,
    }
}

/// The intent event that a record carries.
pub(crate) fn intent_event_of(r: &SessionStreamRecord) -> (o: Option<&IntentEventV1>)
    ensures
        o.deep_view() == intent_event_in(r.deep_view()),
{
    match &r.body {
        RecordBody::Intent(x) => Some(x),
        _ => None,
    }
}

} // verus!
