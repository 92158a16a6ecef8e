//! What a durable stream proves of an execution: the attempt behind it, the change sets it made, the
//! mutations that put them into the parent workspace, and the receipts of their verification.

use vstd::prelude::*;

use crate::integration::{
    IntegrationPlan, IntegrationPlanState, IntegrationPlanView, IntegrationProjection,
    IntegrationProjectionView, IntegrationPromotionEffect, IntegrationPromotionEffectView,
    IntegrationPromotionStatus, IntegrationPromotionTarget, IntegrationPromotionTargetView,
    IntegrationProposalSpec, IntegrationProposalSpecView,
};
use crate::integration_plan::{after_control, projection_of};
use crate::intent::{
    IntentCriterionEvidenceV1, IntentCriterionEvidenceV1View, IntentExecutionBindingKind,
    IntentExecutionBindingV1, IntentExecutionBindingV1View, IntentExecutionOriginV1,
    IntentExecutionOriginV1View,
};
use crate::intent_stack::{find_plan_state, plan_state_place};
use crate::intent_state::{
    AcceptedIntentPlanProjectionV1, AcceptedIntentPlanProjectionV1View, IntentExecutionLineageV1,
    IntentExecutionLineageV1View, IntentLineageReadOnlyReasonV1, ParentLineage, ParentLineageView,
};
use crate::records::{
    AgentRunAttemptStartedEntry, AgentRunAttemptStartedEntryView, ChangeSet, ChangeSetFile,
    ChangeSetFileAction, ChangeSetFileView, ChangeSetResult, ChangeSetResultStatus,
    ChangeSetResultView, ChangeSetView, ControlEntry, ControlEntryView, IntentCriterionScope,
    IntentCriterionScopeView, MutationBatchFinished, MutationBatchFinishedView,
    MutationBatchStarted, MutationBatchStartedView, MutationBatchStatus, MutationPrepared,
    MutationPreparedView, MutationSubject, MutationSubjectView, ReceiptStatus, RecordBody,
    RecordBodyView, SessionStreamRecord, SessionStreamRecordView, TaskParentVerificationRecorded,
    TaskParentVerificationRecordedView, TaskParticipantAttemptEntry,
    TaskParticipantAttemptEntryView, TaskParticipantAttemptStatus, TaskParticipantPurpose,
    TaskPlanStatus, TaskState, TaskStateProjection, TaskStateProjectionView, TaskStateView,
    TaskStepMode, TaskStepSpec, TaskStepSpecView, VerificationCheckSpec, VerificationCheckSpecView,
    VerificationReceipt, VerificationReceiptView, VerificationVerdict,
};
use crate::search::{
    all_where, any_where, check_each, find_first, find_last, first_where, has_all, has_any,
    last_where, same_items, validate_each,
};
use crate::stream::{
    agent_attempt_in, agent_attempt_of, attempt_in, attempt_of, batch_end_in, batch_end_of,
    batch_start_in, batch_start_of, change_result_in, change_result_of, committed_in, committed_of,
    detected_in, detected_of, integration_plan_in, integration_plan_of, interruption_in,
    interruption_of, parent_verification_in, parent_verification_of, policy_in, policy_of,
    prepared_in, prepared_of, promotion_in, promotion_of, proposal_in, proposal_of, receipt_in,
    receipt_of, task_plan_in, task_plan_of,
};
use crate::text::same_text;
use crate::value::{
    chain, check, find_key, first_failure, holds, lemma_failures_begin, lemma_failures_end,
    lemma_failures_step, position_by_key, reject, verdict, KernelError, Value, Verdict,
};

verus! {

/// The check of an error that another module found.
pub open spec fn no_error(error: Option<Seq<char>>) -> Verdict {
    match error {
        None => Ok(()),
        Some(message) => Err(message),
    }
}

fn reject_error(error: &Option<String>) -> (r: Result<(), KernelError>)
    ensures
        verdict(r) == no_error(error.deep_view()),
{
    match error {
        None => Ok(()),
        Some(message) => Err(KernelError { message: message.duplicate() }),
    }
}

/// The record proposes the change set `id`.
pub open spec fn proposes(id: Seq<char>) -> spec_fn(SessionStreamRecordView) -> bool {
    |r: SessionStreamRecordView| proposal_in(r) matches Some(c) && c.id == id
}

/// The record carries the result of the change set `id`.
pub open spec fn settles(id: Seq<char>) -> spec_fn(SessionStreamRecordView) -> bool {
    |r: SessionStreamRecordView| change_result_in(r) matches Some(c) && c.id == id
}

/// The shape check of a check of a policy.
pub open spec fn shape_verdict() -> spec_fn(VerificationCheckSpecView) -> Verdict {
    |c: VerificationCheckSpecView| no_error(c.shape_error)
}

/// The check of the record at `i`: it proposes no change set, and settles none, for the second time,
/// and what it says of verification holds together.
pub open spec fn fact_verdict(records: Seq<SessionStreamRecordView>, i: int) -> Verdict {
    match records[i].body {
        RecordBodyView::Control(ControlEntryView::ChangeSetProposed(c)) => check(
            first_where(records, proposes(c.id)) == Some(i),
            "durable stream repeats a ChangeSet proposal"@,
        ),
        RecordBodyView::Control(ControlEntryView::ChangeSetApplied(c)) => check(
            first_where(records, settles(c.id)) == Some(i),
            "durable stream repeats a ChangeSet result"@,
        ),
        RecordBodyView::Control(ControlEntryView::VerificationPolicyChanged(p)) => chain(
            check(
                p.stable_hash == p.policy_hash,
                "Intent lineage verification policy hash is inconsistent"@,
            ),
            check_each(p.required_checks, shape_verdict()),
        ),
        RecordBodyView::Control(ControlEntryView::VerificationRecorded(v)) => no_error(
            v.source_identity_error,
        ),
        RecordBodyView::Control(ControlEntryView::TaskParentVerificationRecorded(v)) => no_error(
            v.validation_error,
        ),
        _ => Ok(()),
    }
}

/// The checks of all records.
pub open spec fn fact_verdicts(records: Seq<SessionStreamRecordView>) -> Seq<Verdict> {
    Seq::new(records.len(), |i: int| fact_verdict(records, i))
}

/// The check of a stream as a source of facts.
pub open spec fn facts_verdict(records: Seq<SessionStreamRecordView>) -> Verdict {
    first_failure(fact_verdicts(records))
}

/// Finds the record that proposes the change set `id`.
pub(crate) fn find_proposal_record(records: &Vec<SessionStreamRecord>, id: &str) -> (r: Option<usize>)
    ensures
        match r {
            Some(i) => i < records.len() && first_where(records.deep_view(), proposes(id@)) == Some(
                i as int,
            ),
            None => first_where(records.deep_view(), proposes(id@)) is None,
        },
{
    find_first(
        records,
        |r: &SessionStreamRecord| -> (b: bool)
            ensures
                b == proposes(id@)(r.deep_view())
            {
                match proposal_of(r) {
                    Some(c) => same_text(c.id.as_str(), id),
                    None => false,
                }
            },
        Ghost(proposes(id@)),
    )
}

/// Finds the record with the result of the change set `id`.
pub(crate) fn find_result_record(records: &Vec<SessionStreamRecord>, id: &str) -> (r: Option<usize>)
    ensures
        match r {
            Some(i) => i < records.len() && first_where(records.deep_view(), settles(id@)) == Some(
                i as int,
            ),
            None => first_where(records.deep_view(), settles(id@)) is None,
        },
{
    find_first(
        records,
        |r: &SessionStreamRecord| -> (b: bool)
            ensures
                b == settles(id@)(r.deep_view())
            {
                match change_result_of(r) {
                    Some(c) => same_text(c.id.as_str(), id),
                    None => false,
                }
            },
        Ghost(settles(id@)),
    )
}

fn validate_shapes(checks: &Vec<VerificationCheckSpec>) -> (r: Result<(), KernelError>)
    ensures
        verdict(r) == check_each(checks.deep_view(), shape_verdict()),
{
    validate_each(
        checks,
        |c: &VerificationCheckSpec| -> (o: Result<(), KernelError>)
            ensures
                verdict(o) == shape_verdict()(c.deep_view())
            { reject_error(&c.shape_error) },
        Ghost(shape_verdict()),
    )
}

/// Checks the record at `i`.
pub(crate) fn validate_fact(records: &Vec<SessionStreamRecord>, i: usize) -> (r: Result<(), KernelError>)
    requires
        i < records.len(),
    ensures
        verdict(r) == fact_verdict(records.deep_view(), i as int),
{
    assert(records.deep_view()[i as int] == records@[i as int].deep_view());
    match &records[i].body {
        RecordBody::Control(ControlEntry::ChangeSetProposed(c)) => {
            match find_proposal_record(records, c.id.as_str()) {
                Some(k) => {
                    if k == i {
                        Ok(())
                    } else {
                        reject("durable stream repeats a ChangeSet proposal")
                    }
                },
                None => reject("durable stream repeats a ChangeSet proposal"),
            }
        },
        RecordBody::Control(ControlEntry::ChangeSetApplied(c)) => {
            match find_result_record(records, c.id.as_str()) {
                Some(k) => {
                    if k == i {
                        Ok(())
                    } else {
                        reject("durable stream repeats a ChangeSet result")
                    }
                },
                None => reject("durable stream repeats a ChangeSet result"),
            }
        },
        RecordBody::Control(ControlEntry::VerificationPolicyChanged(p)) => {
            if p.stable_hash != p.policy_hash {
                return reject("Intent lineage verification policy hash is inconsistent");
            }
            validate_shapes(&p.required_checks)
        },
        RecordBody::Control(ControlEntry::VerificationRecorded(v)) => {
            reject_error(&v.source_identity_error)
        },
        RecordBody::Control(ControlEntry::TaskParentVerificationRecorded(v)) => {
            reject_error(&v.validation_error)
        },
        _ => Ok(()),
    }
}

/// Checks a stream as a source of facts.
pub(crate) fn validate_facts(records: &Vec<SessionStreamRecord>) -> (r: Result<(), KernelError>)
    ensures
        verdict(r) == facts_verdict(records.deep_view()),
{
    let ghost all = fact_verdicts(records.deep_view());
    let mut i: usize = 0;
    proof {
        lemma_failures_begin(all);
    }
    while i < records.len()
        invariant
            i <= records.len(),
            all == fact_verdicts(records.deep_view()),
            first_failure(all) == first_failure(all.skip(i as int)),
        decreases records.len() - i,
    {
        proof {
            lemma_failures_step(all, i as int);
        }
        validate_fact(records, i)?;
        i = i + 1;
    }
    proof {
        lemma_failures_end(all);
    }
    Ok(())
}

/// The change set `id` that the stream proposes.
pub open spec fn proposal(records: Seq<SessionStreamRecordView>, id: Seq<char>) -> Option<
    ChangeSetView,
> {
    match first_where(records, proposes(id)) {
        Some(i) => proposal_in(records[i]),
        None => None,
    }
}

/// Finds the change set `id`.
pub(crate) fn find_proposal<'a>(records: &'a Vec<SessionStreamRecord>, id: &str) -> (r: Option<
    &'a ChangeSet,
>)
    ensures
        r.deep_view() == proposal(records.deep_view(), id@),
{
    match find_proposal_record(records, id) {
        Some(i) => proposal_of(&records[i]),
        None => None,
    }
}

/// The result of the change set `id`.
pub open spec fn change_result(records: Seq<SessionStreamRecordView>, id: Seq<char>) -> Option<
    ChangeSetResultView,
> {
    match first_where(records, settles(id)) {
        Some(i) => change_result_in(records[i]),
        None => None,
    }
}

/// Finds the result of the change set `id`.
pub(crate) fn find_change_result<'a>(records: &'a Vec<SessionStreamRecord>, id: &str) -> (r: Option<
    &'a ChangeSetResult,
>)
    ensures
        r.deep_view() == change_result(records.deep_view(), id@),
{
    match find_result_record(records, id) {
        Some(i) => change_result_of(&records[i]),
        None => None,
    }
}

/// The change set `id` was applied.
pub open spec fn is_applied(records: Seq<SessionStreamRecordView>, id: Seq<char>) -> bool {
    change_result(records, id) matches Some(c) && c.status == ChangeSetResultStatus::Applied
}

fn was_applied(records: &Vec<SessionStreamRecord>, id: &str) -> (r: bool)
    ensures
        r == is_applied(records.deep_view(), id@),
{
    match find_change_result(records, id) {
        Some(c) => c.status == ChangeSetResultStatus::Applied,
        None => false,
    }
}

/// The stream proposes the change set `id`.
pub open spec fn proposed(records: Seq<SessionStreamRecordView>) -> spec_fn(Seq<char>) -> Verdict {
    |id: Seq<char>|
        check(
            proposal(records, id) is Some,
            "Intent ChangeSet binding references an unknown proposal"@,
        )
}

/// Checks that the stream proposes all of the change sets.
pub(crate) fn validate_changesets(records: &Vec<SessionStreamRecord>, ids: &Vec<String>) -> (r:
    Result<(), KernelError>)
    ensures
        verdict(r) == check_each(ids.deep_view(), proposed(records.deep_view())),
{
    validate_each(
        ids,
        |id: &String| -> (o: Result<(), KernelError>)
            ensures
                verdict(o) == proposed(records.deep_view())(id.deep_view())
            {
                if find_proposal(records, id.as_str()).is_some() {
                    Ok(())
                } else {
                    reject("Intent ChangeSet binding references an unknown proposal")
                }
            },
        Ghost(proposed(records.deep_view())),
    )
}

// The attempt behind an execution.

/// The record is the event `id` and carries an attempt of a participant.
pub open spec fn is_attempt_event(id: Seq<char>) -> spec_fn(SessionStreamRecordView) -> bool {
    |r: SessionStreamRecordView| r.event_id == id && attempt_in(r) is Some
}

/// The attempt of a participant that the event `id` carries.
pub open spec fn attempt_event(records: Seq<SessionStreamRecordView>, id: Seq<char>) -> Option<
    TaskParticipantAttemptEntryView,
> {
    match first_where(records, is_attempt_event(id)) {
        Some(i) => attempt_in(records[i]),
        None => None,
    }
}

fn find_attempt_event<'a>(records: &'a Vec<SessionStreamRecord>, id: &str) -> (r: Option<
    &'a TaskParticipantAttemptEntry,
>)
    ensures
        r.deep_view() == attempt_event(records.deep_view(), id@),
{
    let found = find_first(
        records,
        |r: &SessionStreamRecord| -> (b: bool)
            ensures
                b == is_attempt_event(id@)(r.deep_view())
            { same_text(r.event_id.as_str(), id) && attempt_of(r).is_some() },
        Ghost(is_attempt_event(id@)),
    );
    match found {
        Some(i) => attempt_of(&records[i]),
        None => None,
    }
}

/// The record is the event `id` and starts an agent run.
pub open spec fn is_agent_event(id: Seq<char>) -> spec_fn(SessionStreamRecordView) -> bool {
    |r: SessionStreamRecordView| r.event_id == id && agent_attempt_in(r) is Some
}

fn find_agent_record(records: &Vec<SessionStreamRecord>, id: &str) -> (r: Option<usize>)
    ensures
        match r {
            Some(i) => i < records.len() && first_where(records.deep_view(), is_agent_event(id@))
                == Some(i as int),
            None => first_where(records.deep_view(), is_agent_event(id@)) is None,
        },
{
    find_first(
        records,
        |r: &SessionStreamRecord| -> (b: bool)
            ensures
                b == is_agent_event(id@)(r.deep_view())
            { same_text(r.event_id.as_str(), id) && agent_attempt_of(r).is_some() },
        Ghost(is_agent_event(id@)),
    )
}

/// The start of an agent run that the event `id` carries.
pub open spec fn agent_event(records: Seq<SessionStreamRecordView>, id: Seq<char>) -> Option<
    AgentRunAttemptStartedEntryView,
> {
    match first_where(records, is_agent_event(id)) {
        Some(i) => agent_attempt_in(records[i]),
        None => None,
    }
}

fn find_agent_event<'a>(records: &'a Vec<SessionStreamRecord>, id: &str) -> (r: Option<
    &'a AgentRunAttemptStartedEntry,
>)
    ensures
        r.deep_view() == agent_event(records.deep_view(), id@),
{
    match find_agent_record(records, id) {
        Some(i) => agent_attempt_of(&records[i]),
        None => None,
    }
}

/// The record carries an accepted version of a task plan.
pub open spec fn is_accepted_plan(task_id: Seq<char>, version: u32) -> spec_fn(
    SessionStreamRecordView,
) -> bool {
    |r: SessionStreamRecordView|
        task_plan_in(r) matches Some(t) && t.status == TaskPlanStatus::Accepted && t.task_id
            == task_id && t.plan_version == version
}

/// The step of the last accepted record of a version of a task plan.
pub open spec fn accepted_step(
    records: Seq<SessionStreamRecordView>,
    task_id: Seq<char>,
    version: u32,
    step_id: Seq<char>,
) -> Option<TaskStepSpecView> {
    match last_where(records, is_accepted_plan(task_id, version)) {
        None => None,
        Some(i) => match task_plan_in(records[i]) {
            None => None,
            Some(t) => match find_key::<TaskStepSpec>(t.steps, step_id) {
                None => None,
                Some(k) => Some(t.steps[k]),
            },
        },
    }
}

fn find_accepted_step<'a>(
    records: &'a Vec<SessionStreamRecord>,
    task_id: &str,
    version: u32,
    step_id: &str,
) -> (r: Option<&'a TaskStepSpec>)
    ensures
        r.deep_view() == accepted_step(records.deep_view(), task_id@, version, step_id@),
{
    let found = find_last(
        records,
        |r: &SessionStreamRecord| -> (b: bool)
            ensures
                b == is_accepted_plan(task_id@, version)(r.deep_view())
            {
                match task_plan_of(r) {
                    Some(t) => t.status == TaskPlanStatus::Accepted && same_text(
                        t.task_id.as_str(),
                        task_id,
                    ) && t.plan_version == version,
                    None => false,
                }
            },
        Ghost(is_accepted_plan(task_id@, version)),
    );
    match found {
        None => None,
        Some(i) => match task_plan_of(&records[i]) {
            None => None,
            Some(t) => match position_by_key(&t.steps, step_id) {
                None => None,
                Some(k) => {
                    assert(t.steps.deep_view()[k as int] == t.steps@[k as int].deep_view());
                    Some(&t.steps[k])
                },
            },
        },
    }
}

/// The replayed state of a task lets a version of its plan run: no participants are in conflict, and
/// the version is accepted with a sound graph.
pub open spec fn task_is_consistent(task: TaskStateView, version: u32) -> bool {
    task.participant_conflicts == 0 && match plan_state_place(task.plans, version) {
        None => false,
        Some(i) => task.plans[i].status == TaskPlanStatus::Accepted
            && task.plans[i].graph_validation_error is None,
    }
}

fn consistent_task(task: &TaskState, version: u32) -> (r: bool)
    ensures
        r == task_is_consistent(task.deep_view(), version),
{
    if task.participant_conflicts != 0 {
        return false;
    }
    match find_plan_state(&task.plans, version) {
        None => false,
        Some(i) => {
            assert(task.plans.deep_view()[i as int] == task.plans@[i as int].deep_view());
            task.plans[i].status == TaskPlanStatus::Accepted
                && task.plans[i].graph_validation_error.is_none()
        },
    }
}

/// The attempt is the started attempt at a step that a binding names.
pub open spec fn is_started_step(
    a: TaskParticipantAttemptEntryView,
    attempt_id: Seq<char>,
    task_id: Seq<char>,
    version: u32,
    step_id: Seq<char>,
) -> bool {
    a.status == TaskParticipantAttemptStatus::Started && a.purpose == TaskParticipantPurpose::Step
        && a.attempt_id == attempt_id && a.task_id == task_id && a.plan_version == Some(version)
        && a.step_id == Some(step_id)
}

/// The check that a task execution has the exact attempt and step behind it.
pub open spec fn task_source_verdict(
    records: Seq<SessionStreamRecordView>,
    tasks: TaskStateProjectionView,
    binding: IntentExecutionBindingV1View,
    attempt_id: Seq<char>,
    task_id: Seq<char>,
    version: u32,
    step_id: Seq<char>,
) -> Verdict {
    match attempt_event(records, binding.source_event_id) {
        None => Err("Task Intent execution source event is not a participant attempt"@),
        Some(attempt) => chain(
            check(
                is_started_step(attempt, attempt_id, task_id, version, step_id),
                "Task Intent execution does not match its exact started attempt"@,
            ),
            match accepted_step(records, task_id, version, step_id) {
                None => Err("Task Intent execution has no accepted TaskPlan step"@),
                Some(step) => match find_key::<TaskState>(tasks.tasks, task_id) {
                    None => Err("Task Intent execution has no task projection"@),
                    Some(k) => chain(
                        check(
                            task_is_consistent(tasks.tasks[k], version),
                            "Task Intent execution belongs to an inconsistent Task projection"@,
                        ),
                        chain(
                            check(
                                step.intent_refs.contains(binding.intent_ref),
                                "Task Intent execution is not declared by its TaskPlan step"@,
                            ),
                            check(
                                step.mode != TaskStepMode::Write || (step.intent_refs.len() == 1
                                    && binding.binding_kind
                                    == IntentExecutionBindingKind::Mutation),
                                "Task write execution must bind exactly one mutation intent"@,
                            ),
                        ),
                    ),
                },
            },
        ),
    }
}

/// The agent run is the foreground attempt of the accepted root of a chat that a binding names.
pub open spec fn is_root_run(
    a: AgentRunAttemptStartedEntryView,
    accepted: AcceptedIntentPlanProjectionV1View,
    binding: IntentExecutionBindingV1View,
    run_id: Seq<char>,
    source_turn_id: Seq<char>,
    attempt_id: Seq<char>,
) -> bool {
    a.thread_id == run_id && a.attempt_id == attempt_id && !a.background && source_turn_id
        == accepted.source_turn_id && accepted.task_plan_binding is None
        && accepted.plan.intents.len() == 1 && binding.binding_kind
        == IntentExecutionBindingKind::Mutation
}

/// The check that an execution has the exact attempt behind it.
pub open spec fn execution_source_verdict(
    records: Seq<SessionStreamRecordView>,
    tasks: TaskStateProjectionView,
    binding: IntentExecutionBindingV1View,
    accepted: AcceptedIntentPlanProjectionV1View,
) -> Verdict {
    match binding.origin {
        IntentExecutionOriginV1View::Task { task_id, task_plan_version, step_id, attempt_id } => {
            match attempt_id {
                None => Err("Task Intent execution requires an exact attempt id"@),
                Some(attempt_id) => task_source_verdict(
                    records,
                    tasks,
                    binding,
                    attempt_id,
                    task_id,
                    task_plan_version,
                    step_id,
                ),
            }
        },
        IntentExecutionOriginV1View::Chat { root_logical_run_id, source_turn_id, attempt_id } => {
            match attempt_id {
                None => Err("Chat Intent execution requires an exact attempt id"@),
                Some(attempt_id) => match agent_event(records, binding.source_event_id) {
                    None => Err("Chat Intent execution source event is not an agent-run attempt"@),
                    Some(run) => check(
                        is_root_run(
                            run,
                            accepted,
                            binding,
                            root_logical_run_id,
                            source_turn_id,
                            attempt_id,
                        ),
                        "Chat Intent execution does not match its accepted root attempt"@,
                    ),
                },
            }
        },
    }
}

fn same_optional(a: &Option<String>, b: &str) -> (r: bool)
    ensures
        r == (a.deep_view() == Some(b@)),
{
    match a {
        Some(x) => same_text(x.as_str(), b),
        None => false,
    }
}

fn validate_task_source(
    records: &Vec<SessionStreamRecord>,
    tasks: &TaskStateProjection,
    binding: &IntentExecutionBindingV1,
    attempt_id: &String,
    task_id: &String,
    version: u32,
    step_id: &String,
) -> (r: Result<(), KernelError>)
    ensures
        verdict(r) == task_source_verdict(
            records.deep_view(),
            tasks.deep_view(),
            binding.deep_view(),
            attempt_id@,
            task_id@,
            version,
            step_id@,
        ),
{
    let attempt = match find_attempt_event(records, binding.source_event_id.as_str()) {
        None => {
            return reject("Task Intent execution source event is not a participant attempt");
        },
        Some(attempt) => attempt,
    };
    if attempt.status != TaskParticipantAttemptStatus::Started || attempt.purpose
        != TaskParticipantPurpose::Step || attempt.attempt_id != *attempt_id || attempt.task_id
        != *task_id || !attempt.plan_version.same(&Some(version)) || !same_optional(
        &attempt.step_id,
        step_id.as_str(),
    ) {
        return reject("Task Intent execution does not match its exact started attempt");
    }
    let step = match find_accepted_step(records, task_id.as_str(), version, step_id.as_str()) {
        None => {
            return reject("Task Intent execution has no accepted TaskPlan step");
        },
        Some(step) => step,
    };
    let place = match position_by_key(&tasks.tasks, task_id.as_str()) {
        None => {
            return reject("Task Intent execution has no task projection");
        },
        Some(k) => k,
    };
    assert(tasks.tasks.deep_view()[place as int] == tasks.tasks@[place as int].deep_view());
    if !consistent_task(&tasks.tasks[place], version) {
        return reject("Task Intent execution belongs to an inconsistent Task projection");
    }
    if !holds(&step.intent_refs, &binding.intent_ref) {
        return reject("Task Intent execution is not declared by its TaskPlan step");
    }
    if step.mode == TaskStepMode::Write && (step.intent_refs.len() != 1 || binding.binding_kind
        != IntentExecutionBindingKind::Mutation) {
        return reject("Task write execution must bind exactly one mutation intent");
    }
    Ok(())
}

/// Checks that an execution has the exact attempt behind it.
pub(crate) fn validate_execution_source(
    records: &Vec<SessionStreamRecord>,
    tasks: &TaskStateProjection,
    binding: &IntentExecutionBindingV1,
    accepted: &AcceptedIntentPlanProjectionV1,
) -> (r: Result<(), KernelError>)
    ensures
        verdict(r) == execution_source_verdict(
            records.deep_view(),
            tasks.deep_view(),
            binding.deep_view(),
            accepted.deep_view(),
        ),
{
    match &binding.origin {
        IntentExecutionOriginV1::Task { task_id, task_plan_version, step_id, attempt_id } => {
            match attempt_id {
                None => reject("Task Intent execution requires an exact attempt id"),
                Some(attempt_id) => validate_task_source(
                    records,
                    tasks,
                    binding,
                    attempt_id,
                    task_id,
                    *task_plan_version,
                    step_id,
                ),
            }
        },
        IntentExecutionOriginV1::Chat { root_logical_run_id, source_turn_id, attempt_id } => {
            match attempt_id {
                None => reject("Chat Intent execution requires an exact attempt id"),
                Some(attempt_id) => match find_agent_event(
                    records,
                    binding.source_event_id.as_str(),
                ) {
                    None => reject(
                        "Chat Intent execution source event is not an agent-run attempt",
                    ),
                    Some(run) => {
                        if run.thread_id != *root_logical_run_id || run.attempt_id != *attempt_id
                            || run.background || *source_turn_id != accepted.source_turn_id
                            || accepted.task_plan_binding.is_some() || accepted.plan.intents.len()
                            != 1 || binding.binding_kind != IntentExecutionBindingKind::Mutation {
                            return reject(
                                "Chat Intent execution does not match its accepted root attempt",
                            );
                        }
                        Ok(())
                    },
                },
            }
        },
    }
}

// Receipts.

/// The record is the event `id` and carries a verification receipt.
pub open spec fn is_receipt_event(id: Seq<char>) -> spec_fn(SessionStreamRecordView) -> bool {
    |r: SessionStreamRecordView| r.event_id == id && receipt_in(r) is Some
}

/// The record is the event `id` and carries the verification of a promoted result.
pub open spec fn is_parent_event(id: Seq<char>) -> spec_fn(SessionStreamRecordView) -> bool {
    |r: SessionStreamRecordView| r.event_id == id && parent_verification_in(r) is Some
}

/// The receipt has an identity.
pub open spec fn is_receipt(id: Seq<char>) -> spec_fn(VerificationReceiptView) -> bool {
    |r: VerificationReceiptView| r.receipt_id == id
}

/// The verification of a promoted result that the event `id` carries.
pub open spec fn parent_event(records: Seq<SessionStreamRecordView>, id: Seq<char>) -> Option<
    TaskParentVerificationRecordedView,
> {
    match first_where(records, is_parent_event(id)) {
        Some(i) => parent_verification_in(records[i]),
        None => None,
    }
}

/// The receipt with an identity that the event `id` carries.
pub open spec fn receipt_from(
    records: Seq<SessionStreamRecordView>,
    id: Seq<char>,
    receipt_id: Seq<char>,
) -> Option<VerificationReceiptView> {
    match first_where(records, is_receipt_event(id)) {
        Some(i) => match receipt_in(records[i]) {
            Some(r) => if r.receipt_id == receipt_id {
                Some(r)
            } else {
                None
            },
            None => None,
        },
        None => match parent_event(records, id) {
            Some(v) => match first_where(v.receipts, is_receipt(receipt_id)) {
                Some(k) => Some(v.receipts[k]),
                None => None,
            },
            None => None,
        },
    }
}

fn find_parent_event<'a>(records: &'a Vec<SessionStreamRecord>, id: &str) -> (r: Option<
    &'a TaskParentVerificationRecorded,
>)
    ensures
        r.deep_view() == parent_event(records.deep_view(), id@),
{
    let found = find_first(
        records,
        |r: &SessionStreamRecord| -> (b: bool)
            ensures
                b == is_parent_event(id@)(r.deep_view())
            { same_text(r.event_id.as_str(), id) && parent_verification_of(r).is_some() },
        Ghost(is_parent_event(id@)),
    );
    match found {
        Some(i) => parent_verification_of(&records[i]),
        None => None,
    }
}

fn find_receipt<'a>(records: &'a Vec<SessionStreamRecord>, id: &str, receipt_id: &str) -> (r: Option<
    &'a VerificationReceipt,
>)
    ensures
        r.deep_view() == receipt_from(records.deep_view(), id@, receipt_id@),
{
    let found = find_first(
        records,
        |r: &SessionStreamRecord| -> (b: bool)
            ensures
                b == is_receipt_event(id@)(r.deep_view())
            { same_text(r.event_id.as_str(), id) && receipt_of(r).is_some() },
        Ghost(is_receipt_event(id@)),
    );
    match found {
        Some(i) => match receipt_of(&records[i]) {
            Some(r) => if same_text(r.receipt_id.as_str(), receipt_id) {
                Some(r)
            } else {
                None
            },
            None => None,
        },
        None => match find_parent_event(records, id) {
            Some(v) => {
                let place = find_first(
                    &v.receipts,
                    |r: &VerificationReceipt| -> (b: bool)
                        ensures
                            b == is_receipt(receipt_id@)(r.deep_view())
                        { same_text(r.receipt_id.as_str(), receipt_id) },
                    Ghost(is_receipt(receipt_id@)),
                );
                match place {
                    Some(k) => {
                        assert(v.receipts.deep_view()[k as int]
                            == v.receipts@[k as int].deep_view());
                        Some(&v.receipts[k])
                    },
                    None => None,
                }
            },
            None => None,
        },
    }
}

/// The check that evidence has a receipt for its snapshot behind it.
pub open spec fn basic_evidence_verdict(
    records: Seq<SessionStreamRecordView>,
    e: IntentCriterionEvidenceV1View,
) -> Verdict {
    match receipt_from(records, e.source_event_id, e.receipt_id) {
        None => Err("Intent verification source event has no matching receipt"@),
        Some(r) => check(
            r.receipt_id == e.receipt_id && r.workspace_snapshot_id == e.parent_snapshot_id,
            "Intent verification evidence does not match its receipt snapshot"@,
        ),
    }
}

/// Checks that evidence has a receipt for its snapshot behind it.
pub(crate) fn validate_basic_evidence(
    records: &Vec<SessionStreamRecord>,
    evidence: &IntentCriterionEvidenceV1,
) -> (r: Result<(), KernelError>)
    ensures
        verdict(r) == basic_evidence_verdict(records.deep_view(), evidence.deep_view()),
{
    match find_receipt(records, evidence.source_event_id.as_str(), evidence.receipt_id.as_str()) {
        None => reject("Intent verification source event has no matching receipt"),
        Some(r) => {
            if r.receipt_id != evidence.receipt_id || r.workspace_snapshot_id
                != evidence.parent_snapshot_id {
                return reject("Intent verification evidence does not match its receipt snapshot");
            }
            Ok(())
        },
    }
}

/// The integration state after the control entries of the first `n` records.
pub open spec fn integration_after(
    records: Seq<SessionStreamRecordView>,
    n: int,
) -> IntegrationProjectionView
    decreases n,
{
    if n <= 0 {
        projection_of(Seq::empty())
    } else {
        match records[n - 1].body {
            RecordBodyView::Control(c) => after_control(integration_after(records, n - 1), c),
            _ => integration_after(records, n - 1),
        }
    }
}

/// The integration state that the stream tells.
pub open spec fn integration_of(records: Seq<SessionStreamRecordView>) -> IntegrationProjectionView {
    integration_after(records, records.len() as int)
}

fn integration_state(records: &Vec<SessionStreamRecord>) -> (r: IntegrationProjection)
    ensures
        r.deep_view() == integration_of(records.deep_view()),
{
    let ghost v = records.deep_view();
    let mut r = IntegrationProjection::default();
    let mut i: usize = 0;
    while i < records.len()
        invariant
            i <= records.len(),
            v == records.deep_view(),
            r.deep_view() == integration_after(v, i as int),
        decreases records.len() - i,
    {
        assert(v[i as int] == records@[i as int].deep_view());
        if let RecordBody::Control(c) = &records[i].body {
            r.apply_control_entry(c);
        }
        i = i + 1;
    }
    r
}

/// The stream records an integration plan, and nothing that contradicts it.
pub open spec fn is_sound_plan(records: Seq<SessionStreamRecordView>, plan_id: Seq<char>) -> bool {
    match find_key::<IntegrationPlanState>(integration_of(records).plans, plan_id) {
        None => false,
        Some(i) => !integration_of(records).plans[i].inconsistent,
    }
}

fn sound_plan(records: &Vec<SessionStreamRecord>, plan_id: &str) -> (r: bool)
    ensures
        r == is_sound_plan(records.deep_view(), plan_id@),
{
    let state = integration_state(records);
    match position_by_key(&state.plans, plan_id) {
        None => false,
        Some(i) => {
            assert(state.plans.deep_view()[i as int] == state.plans@[i as int].deep_view());
            !state.plans[i].inconsistent
        },
    }
}

/// The record carries the policy with a hash.
pub open spec fn is_policy(hash: Seq<char>) -> spec_fn(SessionStreamRecordView) -> bool {
    |r: SessionStreamRecordView| policy_in(r) matches Some(p) && p.policy_hash == hash
}

/// The check is the one that a receipt was given for.
pub open spec fn is_check_of(receipt: VerificationReceiptView) -> spec_fn(
    VerificationCheckSpecView,
) -> bool {
    |c: VerificationCheckSpecView|
        c.check_spec_id == receipt.check_spec_id && c.check_spec_hash == receipt.check_spec_hash
}

/// The criterion that a check would have to name.
pub open spec fn criterion_scope(e: IntentCriterionEvidenceV1View) -> IntentCriterionScopeView {
    IntentCriterionScopeView { intent_ref: e.intent_ref, criterion_id: e.criterion_id }
}

/// The receipt is one of a success in the parent workspace under the policy of the evidence.
pub open spec fn is_parent_success(
    r: VerificationReceiptView,
    e: IntentCriterionEvidenceV1View,
) -> bool {
    r.check_status == ReceiptStatus::Succeeded && r.status == ReceiptStatus::Succeeded
        && !r.mutates_verification_scope && r.execution_backend is Some && r.workspace_snapshot_id
        == e.parent_snapshot_id && r.policy_hash == Some(e.verification_policy_digest)
}

/// The verification of a promoted result speaks for evidence.
pub open spec fn parent_speaks_for(
    records: Seq<SessionStreamRecordView>,
    v: TaskParentVerificationRecordedView,
    e: IntentCriterionEvidenceV1View,
) -> bool {
    v.promoted_snapshot_id == e.parent_snapshot_id && v.policy_digest
        == e.verification_policy_digest && v.verdict == VerificationVerdict::Passed
        && is_sound_plan(records, v.plan_id)
}

/// The check that the policy of the evidence requires a check that covers its criterion and that the
/// receipt was given for.
pub open spec fn coverage_verdict(
    records: Seq<SessionStreamRecordView>,
    receipt: VerificationReceiptView,
    e: IntentCriterionEvidenceV1View,
) -> Verdict {
    match last_where(records, is_policy(e.verification_policy_digest)) {
        None => Err("system Intent evidence has no durable verification policy"@),
        Some(i) => match policy_in(records[i]) {
            None => Err("system Intent evidence has no durable verification policy"@),
            Some(p) => match first_where(p.required_checks, is_check_of(receipt)) {
                None => Err(
                    "system Intent evidence receipt is outside its verification policy"@,
                ),
                Some(k) => check(
                    p.required_checks[k].intent_criteria.contains(criterion_scope(e)),
                    "verification check does not explicitly cover the Intent criterion"@,
                ),
            },
        },
    }
}

/// The check that evidence of the system holds for an execution.
pub open spec fn system_evidence_verdict(
    records: Seq<SessionStreamRecordView>,
    e: IntentCriterionEvidenceV1View,
    execution: IntentExecutionLineageV1View,
) -> Verdict {
    match receipt_from(records, e.source_event_id, e.receipt_id) {
        None => Err("system Intent evidence source receipt is unavailable"@),
        Some(r) => chain(
            check(
                is_parent_success(r, e),
                "system Intent evidence receipt is not successful and parent-bound"@,
            ),
            chain(
                check(
                    execution.parent_snapshot_id == Some(e.parent_snapshot_id),
                    "system Intent evidence does not bind the execution parent snapshot"@,
                ),
                chain(
                    check(
                        parent_event(records, e.source_event_id) matches Some(v)
                            ==> parent_speaks_for(records, v, e),
                        "task parent verification is not valid for the Intent evidence"@,
                    ),
                    chain(
                        coverage_verdict(records, r, e),
                        check(
                            same_items(execution.changeset_ids, e.changeset_ids),
                            "system Intent evidence does not bind the execution ChangeSets"@,
                        ),
                    ),
                ),
            ),
        ),
    }
}

/// Tells whether both lists hold the same texts.
pub(crate) fn same_texts(a: &Vec<String>, b: &Vec<String>) -> (r: bool)
    ensures
        r == same_items(a.deep_view(), b.deep_view()),
{
    has_all(
        a,
        |x: &String| -> (o: bool)
            ensures
                o == member_of(b.deep_view())(x.deep_view())
            { holds(b, x) },
        Ghost(member_of(b.deep_view())),
    ) && has_all(
        b,
        |x: &String| -> (o: bool)
            ensures
                o == member_of(a.deep_view())(x.deep_view())
            { holds(a, x) },
        Ghost(member_of(a.deep_view())),
    )
}

/// The text is a member of a list.
pub open spec fn member_of(list: Seq<Seq<char>>) -> spec_fn(Seq<char>) -> bool {
    |x: Seq<char>| list.contains(x)
}

fn validate_coverage(
    records: &Vec<SessionStreamRecord>,
    receipt: &VerificationReceipt,
    evidence: &IntentCriterionEvidenceV1,
) -> (r: Result<(), KernelError>)
    ensures
        verdict(r) == coverage_verdict(
            records.deep_view(),
            receipt.deep_view(),
            evidence.deep_view(),
        ),
{
    let hash = evidence.verification_policy_digest.as_str();
    let found = find_last(
        records,
        |r: &SessionStreamRecord| -> (b: bool)
            ensures
                b == is_policy(hash@)(r.deep_view())
            {
                match policy_of(r) {
                    Some(p) => same_text(p.policy_hash.as_str(), hash),
                    None => false,
                }
            },
        Ghost(is_policy(hash@)),
    );
    let policy = match found {
        None => {
            return reject("system Intent evidence has no durable verification policy");
        },
        Some(i) => match policy_of(&records[i]) {
            None => {
                return reject("system Intent evidence has no durable verification policy");
            },
            Some(p) => p,
        },
    };
    let place = find_first(
        &policy.required_checks,
        |c: &VerificationCheckSpec| -> (b: bool)
            ensures
                b == is_check_of(receipt.deep_view())(c.deep_view())
            {
                c.check_spec_id == receipt.check_spec_id && c.check_spec_hash
                    == receipt.check_spec_hash
            },
        Ghost(is_check_of(receipt.deep_view())),
    );
    match place {
        None => reject("system Intent evidence receipt is outside its verification policy"),
        Some(k) => {
            assert(policy.required_checks.deep_view()[k as int]
                == policy.required_checks@[k as int].deep_view());
            let scope = IntentCriterionScope {
                intent_ref: evidence.intent_ref.duplicate(),
                criterion_id: evidence.criterion_id.duplicate(),
            };
            if holds(&policy.required_checks[k].intent_criteria, &scope) {
                Ok(())
            } else {
                reject("verification check does not explicitly cover the Intent criterion")
            }
        },
    }
}

/// Checks that evidence of the system holds for an execution.
pub(crate) fn validate_system_evidence(
    records: &Vec<SessionStreamRecord>,
    evidence: &IntentCriterionEvidenceV1,
    execution: &IntentExecutionLineageV1,
) -> (r: Result<(), KernelError>)
    ensures
        verdict(r) == system_evidence_verdict(
            records.deep_view(),
            evidence.deep_view(),
            execution.deep_view(),
        ),
{
    let receipt = match find_receipt(
        records,
        evidence.source_event_id.as_str(),
        evidence.receipt_id.as_str(),
    ) {
        None => {
            return reject("system Intent evidence source receipt is unavailable");
        },
        Some(r) => r,
    };
    if receipt.check_status != ReceiptStatus::Succeeded || receipt.status
        != ReceiptStatus::Succeeded || receipt.mutates_verification_scope
        || receipt.execution_backend.is_none() || receipt.workspace_snapshot_id
        != evidence.parent_snapshot_id || !same_optional(
        &receipt.policy_hash,
        evidence.verification_policy_digest.as_str(),
    ) {
        return reject("system Intent evidence receipt is not successful and parent-bound");
    }
    if !same_optional(&execution.parent_snapshot_id, evidence.parent_snapshot_id.as_str()) {
        return reject("system Intent evidence does not bind the execution parent snapshot");
    }
    if let Some(v) = find_parent_event(records, evidence.source_event_id.as_str()) {
        if v.promoted_snapshot_id != evidence.parent_snapshot_id || !same_text(
            v.policy_digest.as_str(),
            evidence.verification_policy_digest.as_str(),
        ) || v.verdict != VerificationVerdict::Passed || !sound_plan(records, v.plan_id.as_str()) {
            return reject("task parent verification is not valid for the Intent evidence");
        }
    }
    validate_coverage(records, receipt, evidence)?;
    if !same_texts(&execution.changeset_ids, &evidence.changeset_ids) {
        return reject("system Intent evidence does not bind the execution ChangeSets");
    }
    Ok(())
}

// The parent workspace.

/// A mutation changes the file at a path.
pub open spec fn changes_path(subject: MutationSubjectView, path: Seq<char>) -> bool {
    subject matches MutationSubjectView::File { portable_path, .. } && portable_path == Some(path)
}

/// Tells whether a mutation changes the file at `path`.
pub(crate) fn mutation_subject_matches_path(subject: &MutationSubject, path: &str) -> (r: bool)
    ensures
        r == changes_path(subject.deep_view(), path@),
{
    match subject {
        MutationSubject::File { portable_path, .. } => same_optional(portable_path, path),
        _ => false,
    }
}

/// The record begins the batch `id`.
pub open spec fn begins_batch(id: Seq<char>) -> spec_fn(SessionStreamRecordView) -> bool {
    |r: SessionStreamRecordView| batch_start_in(r) matches Some(b) && b.batch_id == id
}

/// The record commits the prepared change of a file before the end of its batch.
pub open spec fn commits_in_batch(
    prepared: MutationPreparedView,
    prepared_sequence: u64,
    end_sequence: u64,
    workspace_id: Seq<char>,
    file: ChangeSetFileView,
) -> spec_fn(SessionStreamRecordView) -> bool {
    |r: SessionStreamRecordView|
        committed_in(r) matches Some(c) && c.operation_id == prepared.operation_id && c.batch_id
            == prepared.batch_id && prepared_sequence < r.stream_sequence < end_sequence
            && c.workspace_id == Some(workspace_id) && c.observed_after_hash == file.after_hash
            && changes_path(c.committed_subject, file.path)
}

/// The record prepares the change of a file within a batch that then commits it.
pub open spec fn applies_in_batch(
    records: Seq<SessionStreamRecordView>,
    start: MutationBatchStartedView,
    start_sequence: u64,
    end: MutationBatchFinishedView,
    end_sequence: u64,
    workspace_id: Seq<char>,
    file: ChangeSetFileView,
) -> spec_fn(SessionStreamRecordView) -> bool {
    |r: SessionStreamRecordView|
        prepared_in(r) matches Some(p) && p.batch_id == Some(end.batch_id) && start_sequence
            < r.stream_sequence < end_sequence && p.workspace_id == workspace_id && p.before_hash
            == file.before_hash && p.intended_after_hash == file.after_hash && changes_path(
            p.subject,
            file.path,
        ) && start.expected_subjects.contains(p.subject) && end.committed_operations.contains(
            p.operation_id,
        ) && any_where(
            records,
            commits_in_batch(p, r.stream_sequence, end_sequence, workspace_id, file),
        )
}

/// The batch applies the change of a file, which is no renaming.
pub open spec fn batch_applies_file(
    records: Seq<SessionStreamRecordView>,
    start: MutationBatchStartedView,
    start_sequence: u64,
    end: MutationBatchFinishedView,
    end_sequence: u64,
    workspace_id: Seq<char>,
) -> spec_fn(ChangeSetFileView) -> bool {
    |file: ChangeSetFileView|
        file.action != ChangeSetFileAction::Rename && any_where(
            records,
            applies_in_batch(
                records,
                start,
                start_sequence,
                end,
                end_sequence,
                workspace_id,
                file,
            ),
        )
}

/// The change set was applied, and the batch applies each of its files.
pub open spec fn batch_applies_set(
    records: Seq<SessionStreamRecordView>,
    start: MutationBatchStartedView,
    start_sequence: u64,
    end: MutationBatchFinishedView,
    end_sequence: u64,
    workspace_id: Seq<char>,
) -> spec_fn(Seq<char>) -> bool {
    |id: Seq<char>|
        proposal(records, id) matches Some(c) && is_applied(records, id) && all_where(
            c.files,
            batch_applies_file(records, start, start_sequence, end, end_sequence, workspace_id),
        )
}

/// The batch that ends with a record applies all of the change sets.
pub open spec fn batch_applies(
    records: Seq<SessionStreamRecordView>,
    end: MutationBatchFinishedView,
    end_sequence: u64,
    ids: Seq<Seq<char>>,
    workspace_id: Seq<char>,
) -> bool {
    match last_where(records, begins_batch(end.batch_id)) {
        None => false,
        Some(i) => match batch_start_in(records[i]) {
            None => false,
            Some(start) => records[i].stream_sequence < end_sequence && all_where(
                ids,
                batch_applies_set(
                    records,
                    start,
                    records[i].stream_sequence,
                    end,
                    end_sequence,
                    workspace_id,
                ),
            ),
        },
    }
}

fn has_batch_commit(
    records: &Vec<SessionStreamRecord>,
    prepared: &MutationPrepared,
    prepared_sequence: u64,
    end_sequence: u64,
    workspace_id: &str,
    file: &ChangeSetFile,
) -> (r: bool)
    ensures
        r == any_where(
            records.deep_view(),
            commits_in_batch(
                prepared.deep_view(),
                prepared_sequence,
                end_sequence,
                workspace_id@,
                file.deep_view(),
            ),
        ),
{
    has_any(
        records,
        |r: &SessionStreamRecord| -> (b: bool)
            ensures
                b == commits_in_batch(
                    prepared.deep_view(),
                    prepared_sequence,
                    end_sequence,
                    workspace_id@,
                    file.deep_view(),
                )(r.deep_view())
            {
                match committed_of(r) {
                    Some(c) => c.operation_id == prepared.operation_id && c.batch_id.same(
                        &prepared.batch_id,
                    ) && prepared_sequence < r.stream_sequence && r.stream_sequence < end_sequence
                        && same_optional(&c.workspace_id, workspace_id)
                        && c.observed_after_hash.same(&file.after_hash)
                        && mutation_subject_matches_path(&c.committed_subject, file.path.as_str()),
                    None => false,
                }
            },
        Ghost(
            commits_in_batch(
                prepared.deep_view(),
                prepared_sequence,
                end_sequence,
                workspace_id@,
                file.deep_view(),
            ),
        ),
    )
}

fn applies_file(
    records: &Vec<SessionStreamRecord>,
    start: &MutationBatchStarted,
    start_sequence: u64,
    end: &MutationBatchFinished,
    end_sequence: u64,
    workspace_id: &str,
    file: &ChangeSetFile,
) -> (r: bool)
    ensures
        r == batch_applies_file(
            records.deep_view(),
            start.deep_view(),
            start_sequence,
            end.deep_view(),
            end_sequence,
            workspace_id@,
        )(file.deep_view()),
{
    if file.action == ChangeSetFileAction::Rename {
        return false;
    }
    has_any(
        records,
        |r: &SessionStreamRecord| -> (b: bool)
            ensures
                b == applies_in_batch(
                    records.deep_view(),
                    start.deep_view(),
                    start_sequence,
                    end.deep_view(),
                    end_sequence,
                    workspace_id@,
                    file.deep_view(),
                )(r.deep_view())
            {
                match prepared_of(r) {
                    Some(p) => same_optional(&p.batch_id, end.batch_id.as_str()) && start_sequence
                        < r.stream_sequence && r.stream_sequence < end_sequence && same_text(
                        p.workspace_id.as_str(),
                        workspace_id,
                    ) && p.before_hash.same(&file.before_hash) && p.intended_after_hash.same(
                        &file.after_hash,
                    ) && mutation_subject_matches_path(&p.subject, file.path.as_str()) && holds(
                        &start.expected_subjects,
                        &p.subject,
                    ) && holds(&end.committed_operations, &p.operation_id) && has_batch_commit(
                        records,
                        p,
                        r.stream_sequence,
                        end_sequence,
                        workspace_id,
                        file,
                    ),
                    None => false,
                }
            },
        Ghost(
            applies_in_batch(
                records.deep_view(),
                start.deep_view(),
                start_sequence,
                end.deep_view(),
                end_sequence,
                workspace_id@,
                file.deep_view(),
            ),
        ),
    )
}

fn applies_set(
    records: &Vec<SessionStreamRecord>,
    start: &MutationBatchStarted,
    start_sequence: u64,
    end: &MutationBatchFinished,
    end_sequence: u64,
    workspace_id: &str,
    id: &str,
) -> (r: bool)
    ensures
        r == batch_applies_set(
            records.deep_view(),
            start.deep_view(),
            start_sequence,
            end.deep_view(),
            end_sequence,
            workspace_id@,
        )(id@),
{
    match find_proposal(records, id) {
        None => false,
        Some(c) => {
            let ghost p = batch_applies_file(
                records.deep_view(),
                start.deep_view(),
                start_sequence,
                end.deep_view(),
                end_sequence,
                workspace_id@,
            );
            was_applied(records, id) && has_all(
                &c.files,
                |f: &ChangeSetFile| -> (b: bool)
                    ensures
                        b == p(f.deep_view())
                    {
                        applies_file(
                            records,
                            start,
                            start_sequence,
                            end,
                            end_sequence,
                            workspace_id,
                            f,
                        )
                    },
                Ghost(p),
            )
        },
    }
}

fn batch_applies_changesets(
    records: &Vec<SessionStreamRecord>,
    end: &MutationBatchFinished,
    end_sequence: u64,
    ids: &Vec<String>,
    workspace_id: &str,
) -> (r: bool)
    ensures
        r == batch_applies(
            records.deep_view(),
            end.deep_view(),
            end_sequence,
            ids.deep_view(),
            workspace_id@,
        ),
{
    let found = find_last(
        records,
        |r: &SessionStreamRecord| -> (b: bool)
            ensures
                b == begins_batch(end.batch_id@)(r.deep_view())
            {
                match batch_start_of(r) {
                    Some(s) => s.batch_id == end.batch_id,
                    None => false,
                }
            },
        Ghost(begins_batch(end.batch_id@)),
    );
    match found {
        None => false,
        Some(i) => {
            assert(records.deep_view()[i as int] == records@[i as int].deep_view());
            match batch_start_of(&records[i]) {
                None => false,
                Some(start) => {
                    let start_sequence = records[i].stream_sequence;
                    let ghost p = batch_applies_set(
                        records.deep_view(),
                        start.deep_view(),
                        start_sequence,
                        end.deep_view(),
                        end_sequence,
                        workspace_id@,
                    );
                    start_sequence < end_sequence && has_all(
                        ids,
                        |id: &String| -> (b: bool)
                            ensures
                                b == p(id.deep_view())
                            {
                                applies_set(
                                    records,
                                    start,
                                    start_sequence,
                                    end,
                                    end_sequence,
                                    workspace_id,
                                    id.as_str(),
                                )
                            },
                        Ghost(p),
                    )
                },
            }
        },
    }
}

/// The proposal integrates a change set for a step.
pub open spec fn integrates(id: Seq<char>, step_id: Seq<char>) -> spec_fn(
    IntegrationProposalSpecView,
) -> bool {
    |p: IntegrationProposalSpecView| p.change_set_id == id && p.step_id == step_id
}

/// A plan integrates a change set for a step.
pub open spec fn plan_integrates(plan: IntegrationPlanView, step_id: Seq<char>) -> spec_fn(
    Seq<char>,
) -> bool {
    |id: Seq<char>| any_where(plan.proposals, integrates(id, step_id))
}

/// The record carries an integration plan of a task version that integrates all of the change sets of
/// a step.
pub open spec fn is_plan_for(
    task_id: Seq<char>,
    version: u32,
    step_id: Seq<char>,
    ids: Seq<Seq<char>>,
) -> spec_fn(SessionStreamRecordView) -> bool {
    |r: SessionStreamRecordView|
        integration_plan_in(r) matches Some(p) && p.plan.task_id == task_id && p.plan.plan_version
            == version && all_where(ids, plan_integrates(p.plan, step_id))
}

/// The record promotes an integration plan.
pub open spec fn promotes(plan_id: Seq<char>) -> spec_fn(SessionStreamRecordView) -> bool {
    |r: SessionStreamRecordView|
        promotion_in(r) matches Some(p) && p.plan_id == plan_id && p.status
            == IntegrationPromotionStatus::Promoted
}

/// The record ends, before another record and without failures, a batch that applies all of the change
/// sets.
pub open spec fn ends_applying_batch(
    records: Seq<SessionStreamRecordView>,
    before: u64,
    ids: Seq<Seq<char>>,
    workspace_id: Seq<char>,
) -> spec_fn(SessionStreamRecordView) -> bool {
    |r: SessionStreamRecordView|
        batch_end_in(r) matches Some(b) && r.stream_sequence < before && b.status
            == MutationBatchStatus::Applied && b.failed_operations.len() == 0 && batch_applies(
            records,
            b,
            r.stream_sequence,
            ids,
            workspace_id,
        )
}

/// No mutation of the parent workspace is known.
pub open spec fn no_parent() -> ParentLineageView {
    ParentLineageView::ReadOnly(IntentLineageReadOnlyReasonV1::MissingParentMutation)
}

/// The parent lineage of a promotion, given the snapshot that it promoted.
pub open spec fn promoted_lineage(
    records: Seq<SessionStreamRecordView>,
    before: u64,
    ids: Seq<Seq<char>>,
    workspace_id: Seq<char>,
    snapshot_id: Seq<char>,
) -> ParentLineageView {
    match last_where(records, ends_applying_batch(records, before, ids, workspace_id)) {
        None => no_parent(),
        Some(i) => ParentLineageView::Applied { mutation_event_id: records[i].event_id, snapshot_id },
    }
}

/// What the stream tells of the parent workspace of a task execution: its change sets must be in a
/// sound integration plan, the plan must be promoted into the workspace, and a batch before the
/// promotion must have applied all of them.
pub open spec fn task_parent_lineage(
    records: Seq<SessionStreamRecordView>,
    task_id: Seq<char>,
    version: u32,
    step_id: Seq<char>,
    ids: Seq<Seq<char>>,
    workspace_id: Seq<char>,
) -> ParentLineageView {
    match last_where(records, is_plan_for(task_id, version, step_id, ids)) {
        None => no_parent(),
        Some(i) => match integration_plan_in(records[i]) {
            None => no_parent(),
            Some(p) => if !is_sound_plan(records, p.plan.plan_id) {
                no_parent()
            } else {
                match last_where(records, promotes(p.plan.plan_id)) {
                    None => no_parent(),
                    Some(k) => match promotion_in(records[k]) {
                        None => no_parent(),
                        Some(promotion) => match (promotion.target, promotion.effect) {
                            (
                                IntegrationPromotionTargetView::WorkspaceApply { .. },
                                Some(
                                    IntegrationPromotionEffectView::WorkspaceApplied {
                                        promoted_snapshot_id,
                                        ..
                                    },
                                ),
                            ) => promoted_lineage(
                                records,
                                records[k].stream_sequence,
                                ids,
                                workspace_id,
                                promoted_snapshot_id,
                            ),
                            (IntegrationPromotionTargetView::GitRefAdvance { .. }, _) => {
                                ParentLineageView::ReadOnly(
                                    IntentLineageReadOnlyReasonV1::GitRefAdvance,
                                )
                            },
                            _ => no_parent(),
                        },
                    },
                }
            },
        },
    }
}

fn missing_parent() -> (r: ParentLineage)
    ensures
        r.deep_view() == no_parent(),
{
    ParentLineage::ReadOnly(IntentLineageReadOnlyReasonV1::MissingParentMutation)
}

fn plan_covers(plan: &IntegrationPlan, step_id: &str, ids: &Vec<String>) -> (r: bool)
    ensures
        r == all_where(ids.deep_view(), plan_integrates(plan.deep_view(), step_id@)),
{
    has_all(
        ids,
        |id: &String| -> (b: bool)
            ensures
                b == plan_integrates(plan.deep_view(), step_id@)(id.deep_view())
            {
                has_any(
                    &plan.proposals,
                    |p: &IntegrationProposalSpec| -> (o: bool)
                        ensures
                            o == integrates(id@, step_id@)(p.deep_view())
                        {
                            same_text(p.change_set_id.as_str(), id.as_str()) && same_text(
                                p.step_id.as_str(),
                                step_id,
                            )
                        },
                    Ghost(integrates(id@, step_id@)),
                )
            },
        Ghost(plan_integrates(plan.deep_view(), step_id@)),
    )
}

fn find_plan_for<'a>(
    records: &'a Vec<SessionStreamRecord>,
    task_id: &str,
    version: u32,
    step_id: &str,
    ids: &Vec<String>,
) -> (r: Option<usize>)
    ensures
        match r {
            Some(i) => i < records.len() && last_where(
                records.deep_view(),
                is_plan_for(task_id@, version, step_id@, ids.deep_view()),
            ) == Some(i as int),
            None => last_where(
                records.deep_view(),
                is_plan_for(task_id@, version, step_id@, ids.deep_view()),
            ) is None,
        },
{
    find_last(
        records,
        |r: &SessionStreamRecord| -> (b: bool)
            ensures
                b == is_plan_for(task_id@, version, step_id@, ids.deep_view())(r.deep_view())
            {
                match integration_plan_of(r) {
                    Some(p) => same_text(p.plan.task_id.as_str(), task_id) && p.plan.plan_version
                        == version && plan_covers(&p.plan, step_id, ids),
                    None => false,
                }
            },
        Ghost(is_plan_for(task_id@, version, step_id@, ids.deep_view())),
    )
}

fn find_promotion(records: &Vec<SessionStreamRecord>, plan_id: &str) -> (r: Option<usize>)
    ensures
        match r {
            Some(i) => i < records.len() && last_where(records.deep_view(), promotes(plan_id@))
                == Some(i as int),
            None => last_where(records.deep_view(), promotes(plan_id@)) is None,
        },
{
    find_last(
        records,
        |r: &SessionStreamRecord| -> (b: bool)
            ensures
                b == promotes(plan_id@)(r.deep_view())
            {
                match promotion_of(r) {
                    Some(p) => same_text(p.plan_id.as_str(), plan_id) && p.status
                        == IntegrationPromotionStatus::Promoted,
                    None => false,
                }
            },
        Ghost(promotes(plan_id@)),
    )
}

fn resolve_promoted_lineage(
    records: &Vec<SessionStreamRecord>,
    before: u64,
    ids: &Vec<String>,
    workspace_id: &str,
    snapshot_id: &String,
) -> (r: ParentLineage)
    ensures
        r.deep_view() == promoted_lineage(
            records.deep_view(),
            before,
            ids.deep_view(),
            workspace_id@,
            snapshot_id@,
        ),
{
    let ghost p = ends_applying_batch(records.deep_view(), before, ids.deep_view(), workspace_id@);
    let found = find_last(
        records,
        |r: &SessionStreamRecord| -> (b: bool)
            ensures
                b == p(r.deep_view())
            {
                match batch_end_of(r) {
                    Some(e) => r.stream_sequence < before && e.status
                        == MutationBatchStatus::Applied && e.failed_operations.len() == 0
                        && batch_applies_changesets(
                        records,
                        e,
                        r.stream_sequence,
                        ids,
                        workspace_id,
                    ),
                    None => false,
                }
            },
        Ghost(p),
    );
    match found {
        None => missing_parent(),
        Some(i) => {
            assert(records.deep_view()[i as int] == records@[i as int].deep_view());
            ParentLineage::Applied {
                mutation_event_id: records[i].event_id.duplicate(),
                snapshot_id: snapshot_id.duplicate(),
            }
        },
    }
}

/// Resolves the parent workspace of a task execution.
pub(crate) fn resolve_task_parent(
    records: &Vec<SessionStreamRecord>,
    task_id: &str,
    version: u32,
    step_id: &str,
    ids: &Vec<String>,
    workspace_id: &str,
) -> (r: ParentLineage)
    ensures
        r.deep_view() == task_parent_lineage(
            records.deep_view(),
            task_id@,
            version,
            step_id@,
            ids.deep_view(),
            workspace_id@,
        ),
{
    let plan = match find_plan_for(records, task_id, version, step_id, ids) {
        None => {
            return missing_parent();
        },
        Some(i) => match integration_plan_of(&records[i]) {
            None => {
                return missing_parent();
            },
            Some(p) => p,
        },
    };
    if !sound_plan(records, plan.plan.plan_id.as_str()) {
        return missing_parent();
    }
    match find_promotion(records, plan.plan.plan_id.as_str()) {
        None => missing_parent(),
        Some(k) => {
            assert(records.deep_view()[k as int] == records@[k as int].deep_view());
            match promotion_of(&records[k]) {
                None => missing_parent(),
                Some(promotion) => match (&promotion.target, &promotion.effect) {
                    (
                        IntegrationPromotionTarget::WorkspaceApply { .. },
                        Some(
                            IntegrationPromotionEffect::WorkspaceApplied {
                                promoted_snapshot_id,
                                ..
                            },
                        ),
                    ) => resolve_promoted_lineage(
                        records,
                        records[k].stream_sequence,
                        ids,
                        workspace_id,
                        promoted_snapshot_id,
                    ),
                    (IntegrationPromotionTarget::GitRefAdvance { .. }, _) => {
                        ParentLineage::ReadOnly(IntentLineageReadOnlyReasonV1::GitRefAdvance)
                    },
                    _ => missing_parent(),
                },
            }
        },
    }
}

/// The record ends the window in which an attempt of a chat may change files: another attempt of the
/// same run starts, or the attempt is interrupted.
pub open spec fn closes_window(
    run_id: Seq<char>,
    attempt_id: Seq<char>,
    source_sequence: u64,
    r: SessionStreamRecordView,
) -> bool {
    r.stream_sequence > source_sequence && ((agent_attempt_in(r) matches Some(a) && a.thread_id
        == run_id) || (interruption_in(r) matches Some(x) && x.thread_id == run_id && x.attempt_id
        == attempt_id))
}

/// The least place of a record that ends the window of an attempt.
pub open spec fn least_close(
    records: Seq<SessionStreamRecordView>,
    run_id: Seq<char>,
    attempt_id: Seq<char>,
    source_sequence: u64,
) -> Option<u64>
    decreases records.len(),
{
    if records.len() == 0 {
        None
    } else {
        let before = least_close(records.drop_last(), run_id, attempt_id, source_sequence);
        let r = records.last();
        if closes_window(run_id, attempt_id, source_sequence, r) && (before matches Some(n)
            ==> r.stream_sequence < n) {
            Some(r.stream_sequence)
        } else {
            before
        }
    }
}

/// Where the window of the attempt behind a chat execution ends.
pub open spec fn window_end(
    records: Seq<SessionStreamRecordView>,
    binding: IntentExecutionBindingV1View,
) -> Option<u64> {
    match binding.origin {
        IntentExecutionOriginV1View::Chat {
            root_logical_run_id,
            attempt_id: Some(attempt_id),
            ..
        } => match first_where(records, is_agent_event(binding.source_event_id)) {
            Some(i) => least_close(
                records,
                root_logical_run_id,
                attempt_id,
                records[i].stream_sequence,
            ),
            None => None,
        },
        _ => None,
    }
}

fn window_closed_by(
    run_id: &String,
    attempt_id: &String,
    source_sequence: u64,
    r: &SessionStreamRecord,
) -> (b: bool)
    ensures
        b == closes_window(run_id@, attempt_id@, source_sequence, r.deep_view()),
{
    if r.stream_sequence <= source_sequence {
        return false;
    }
    if let Some(a) = agent_attempt_of(r) {
        if a.thread_id == *run_id {
            return true;
        }
    }
    match interruption_of(r) {
        Some(x) => x.thread_id == *run_id && x.attempt_id == *attempt_id,
        None => false,
    }
}

/// Finds where the window of the attempt behind a chat execution ends.
pub(crate) fn chat_attempt_window_end(
    records: &Vec<SessionStreamRecord>,
    binding: &IntentExecutionBindingV1,
) -> (r: Option<u64>)
    ensures
        r == window_end(records.deep_view(), binding.deep_view()),
{
    match &binding.origin {
        IntentExecutionOriginV1::Chat {
            root_logical_run_id,
            attempt_id: Some(attempt_id),
            ..
        } => {
            let source = match find_agent_record(records, binding.source_event_id.as_str()) {
                None => {
                    return None;
                },
                Some(i) => i,
            };
            let ghost v = records.deep_view();
            assert(v[source as int] == records@[source as int].deep_view());
            let source_sequence = records[source].stream_sequence;
            let mut least: Option<u64> = None;
            let mut i: usize = 0;
            assert(v.take(0) =~= Seq::empty());
            while i < records.len()
                invariant
                    i <= records.len(),
                    v == records.deep_view(),
                    least == least_close(
                        v.take(i as int),
                        root_logical_run_id@,
                        attempt_id@,
                        source_sequence,
                    ),
                decreases records.len() - i,
            {
                assert(v.take(i + 1).drop_last() =~= v.take(i as int));
                assert(v.take(i + 1).last() == records@[i as int].deep_view());
                if window_closed_by(root_logical_run_id, attempt_id, source_sequence, &records[i]) {
                    let sooner = match least {
                        Some(n) => records[i].stream_sequence < n,
                        None => true,
                    };
                    if sooner {
                        least = Some(records[i].stream_sequence);
                    }
                }
                i = i + 1;
            }
            assert(v.take(i as int) =~= v);
            least
        },
        _ => None,
    }
}

/// A place lies before the end of a window.
pub open spec fn before_end(sequence: u64, end: Option<u64>) -> bool {
    end matches Some(n) ==> sequence < n
}

/// The record commits the prepared change of a file within a window.
pub open spec fn commits_in_window(
    prepared: MutationPreparedView,
    end: Option<u64>,
    workspace_id: Seq<char>,
    file: ChangeSetFileView,
) -> spec_fn(SessionStreamRecordView) -> bool {
    |r: SessionStreamRecordView|
        committed_in(r) matches Some(c) && c.operation_id == prepared.operation_id && before_end(
            r.stream_sequence,
            end,
        ) && c.workspace_id == Some(workspace_id) && c.observed_after_hash == file.after_hash
            && changes_path(c.committed_subject, file.path)
}

/// The record prepares, within a window, the change of a file that is then committed within it.
pub open spec fn prepares_in_window(
    records: Seq<SessionStreamRecordView>,
    start: u64,
    end: Option<u64>,
    workspace_id: Seq<char>,
    file: ChangeSetFileView,
) -> spec_fn(SessionStreamRecordView) -> bool {
    |r: SessionStreamRecordView|
        prepared_in(r) matches Some(p) && r.stream_sequence > start && before_end(
            r.stream_sequence,
            end,
        ) && p.workspace_id == workspace_id && changes_path(p.subject, file.path) && p.before_hash
            == file.before_hash && p.intended_after_hash == file.after_hash && first_where(
            records,
            commits_in_window(p, end, workspace_id, file),
        ) is Some
}

/// The parent lineage of the change of one file by a chat.
pub open spec fn chat_file_lineage(
    records: Seq<SessionStreamRecordView>,
    start: u64,
    end: Option<u64>,
    workspace_id: Seq<char>,
    file: ChangeSetFileView,
) -> ParentLineageView {
    match first_where(records, prepares_in_window(records, start, end, workspace_id, file)) {
        None => no_parent(),
        Some(i) => match prepared_in(records[i]) {
            None => no_parent(),
            Some(p) => match first_where(records, commits_in_window(p, end, workspace_id, file)) {
                None => no_parent(),
                Some(k) => match committed_in(records[k]) {
                    None => no_parent(),
                    Some(c) => if records[k].stream_sequence <= records[i].stream_sequence {
                        no_parent()
                    } else {
                        ParentLineageView::Applied {
                            mutation_event_id: records[k].event_id,
                            snapshot_id: c.workspace_snapshot_id,
                        }
                    },
                },
            },
        },
    }
}

/// What the stream tells of the parent workspace of a chat execution: it has one applied change set of
/// one file, whose change was prepared and committed within the window of the attempt.
pub open spec fn chat_parent_lineage(
    records: Seq<SessionStreamRecordView>,
    execution: IntentExecutionLineageV1View,
    ids: Seq<Seq<char>>,
    workspace_id: Seq<char>,
) -> ParentLineageView {
    if ids.len() != 1 {
        no_parent()
    } else {
        match proposal(records, ids[0]) {
            None => ParentLineageView::ReadOnly(IntentLineageReadOnlyReasonV1::MissingChangeSet),
            Some(c) => if !is_applied(records, ids[0]) || c.files.len() != 1 {
                no_parent()
            } else {
                chat_file_lineage(
                    records,
                    execution.binding_stream_sequence,
                    window_end(records, execution.binding),
                    workspace_id,
                    c.files[0],
                )
            },
        }
    }
}

fn is_before_end(sequence: u64, end: Option<u64>) -> (r: bool)
    ensures
        r == before_end(sequence, end),
{
    match end {
        Some(n) => sequence < n,
        None => true,
    }
}

fn find_window_commit(
    records: &Vec<SessionStreamRecord>,
    prepared: &MutationPrepared,
    end: Option<u64>,
    workspace_id: &str,
    file: &ChangeSetFile,
) -> (r: Option<usize>)
    ensures
        match r {
            Some(i) => i < records.len() && first_where(
                records.deep_view(),
                commits_in_window(prepared.deep_view(), end, workspace_id@, file.deep_view()),
            ) == Some(i as int),
            None => first_where(
                records.deep_view(),
                commits_in_window(prepared.deep_view(), end, workspace_id@, file.deep_view()),
            ) is None,
        },
{
    let ghost p = commits_in_window(prepared.deep_view(), end, workspace_id@, file.deep_view());
    find_first(
        records,
        |r: &SessionStreamRecord| -> (b: bool)
            ensures
                b == p(r.deep_view())
            {
                match committed_of(r) {
                    Some(c) => c.operation_id == prepared.operation_id && is_before_end(
                        r.stream_sequence,
                        end,
                    ) && same_optional(&c.workspace_id, workspace_id)
                        && c.observed_after_hash.same(&file.after_hash)
                        && mutation_subject_matches_path(&c.committed_subject, file.path.as_str()),
                    None => false,
                }
            },
        Ghost(p),
    )
}

fn resolve_chat_file(
    records: &Vec<SessionStreamRecord>,
    start: u64,
    end: Option<u64>,
    workspace_id: &str,
    file: &ChangeSetFile,
) -> (r: ParentLineage)
    ensures
        r.deep_view() == chat_file_lineage(
            records.deep_view(),
            start,
            end,
            workspace_id@,
            file.deep_view(),
        ),
{
    let ghost p = prepares_in_window(
        records.deep_view(),
        start,
        end,
        workspace_id@,
        file.deep_view(),
    );
    let found = find_first(
        records,
        |r: &SessionStreamRecord| -> (b: bool)
            ensures
                b == p(r.deep_view())
            {
                match prepared_of(r) {
                    Some(x) => r.stream_sequence > start && is_before_end(r.stream_sequence, end)
                        && same_text(x.workspace_id.as_str(), workspace_id)
                        && mutation_subject_matches_path(&x.subject, file.path.as_str())
                        && x.before_hash.same(&file.before_hash) && x.intended_after_hash.same(
                        &file.after_hash,
                    ) && find_window_commit(records, x, end, workspace_id, file).is_some(),
                    None => false,
                }
            },
        Ghost(p),
    );
    let i = match found {
        None => {
            return missing_parent();
        },
        Some(i) => i,
    };
    assert(records.deep_view()[i as int] == records@[i as int].deep_view());
    let prepared = match prepared_of(&records[i]) {
        None => {
            return missing_parent();
        },
        Some(x) => x,
    };
    match find_window_commit(records, prepared, end, workspace_id, file) {
        None => missing_parent(),
        Some(k) => {
            assert(records.deep_view()[k as int] == records@[k as int].deep_view());
            match committed_of(&records[k]) {
                None => missing_parent(),
                Some(c) => {
                    if records[k].stream_sequence <= records[i].stream_sequence {
                        missing_parent()
                    } else {
                        ParentLineage::Applied {
                            mutation_event_id: records[k].event_id.duplicate(),
                            snapshot_id: c.workspace_snapshot_id.duplicate(),
                        }
                    }
                },
            }
        },
    }
}

/// Resolves the parent workspace of a chat execution.
pub(crate) fn resolve_chat_parent(
    records: &Vec<SessionStreamRecord>,
    execution: &IntentExecutionLineageV1,
    ids: &Vec<String>,
    workspace_id: &str,
) -> (r: ParentLineage)
    ensures
        r.deep_view() == chat_parent_lineage(
            records.deep_view(),
            execution.deep_view(),
            ids.deep_view(),
            workspace_id@,
        ),
{
    if ids.len() != 1 {
        return missing_parent();
    }
    assert(ids.deep_view()[0] == ids@[0]@);
    match find_proposal(records, ids[0].as_str()) {
        None => ParentLineage::ReadOnly(IntentLineageReadOnlyReasonV1::MissingChangeSet),
        Some(c) => {
            if !was_applied(records, ids[0].as_str()) || c.files.len() != 1 {
                return missing_parent();
            }
            assert(c.files.deep_view()[0] == c.files@[0].deep_view());
            resolve_chat_file(
                records,
                execution.binding_stream_sequence,
                chat_attempt_window_end(records, &execution.binding),
                workspace_id,
                &c.files[0],
            )
        },
    }
}

/// The record commits a mutation of a workspace.
pub open spec fn commits_to(workspace_id: Seq<char>) -> spec_fn(SessionStreamRecordView) -> bool {
    |r: SessionStreamRecordView|
        committed_in(r) matches Some(c) && c.workspace_id == Some(workspace_id)
}

/// The record tells of a change of a workspace by other hands.
pub open spec fn detects_in(workspace_id: Seq<char>) -> spec_fn(SessionStreamRecordView) -> bool {
    |r: SessionStreamRecordView|
        detected_in(r) matches Some(d) && d.workspace_id == workspace_id
}

/// Where the latest record of a sort stands: the last of those with the greatest place in the stream.
pub open spec fn latest_where(
    records: Seq<SessionStreamRecordView>,
    p: spec_fn(SessionStreamRecordView) -> bool,
) -> Option<int>
    decreases records.len(),
{
    if records.len() == 0 {
        None
    } else {
        let before = latest_where(records.drop_last(), p);
        if p(records.last()) && (before matches Some(i) ==> records[i].stream_sequence
            <= records.last().stream_sequence) {
            Some(records.len() - 1)
        } else {
            before
        }
    }
}

/// The snapshot of a workspace that the stream knows last.
pub open spec fn current_snapshot(
    records: Seq<SessionStreamRecordView>,
    workspace_id: Seq<char>,
) -> Option<Seq<char>> {
    let committed = latest_where(records, commits_to(workspace_id));
    let detected = latest_where(records, detects_in(workspace_id));
    match (committed, detected) {
        (None, None) => None,
        (Some(i), None) => snapshot_committed(records[i]),
        (None, Some(k)) => snapshot_detected(records[k]),
        (Some(i), Some(k)) => if records[i].stream_sequence > records[k].stream_sequence {
            snapshot_committed(records[i])
        } else {
            snapshot_detected(records[k])
        },
    }
}

/// The snapshot that a committed mutation left.
pub open spec fn snapshot_committed(r: SessionStreamRecordView) -> Option<Seq<char>> {
    match committed_in(r) {
        Some(c) => Some(c.workspace_snapshot_id),
        None => None,
    }
}

/// The snapshot that a change by other hands left.
pub open spec fn snapshot_detected(r: SessionStreamRecordView) -> Option<Seq<char>> {
    match detected_in(r) {
        Some(d) => d.to_workspace_snapshot_id,
        None => None,
    }
}

fn find_latest<F: Fn(&SessionStreamRecord) -> bool>(
    records: &Vec<SessionStreamRecord>,
    test: F,
    Ghost(p): Ghost<spec_fn(SessionStreamRecordView) -> bool>,
) -> (r: Option<usize>)
    requires
        forall|x: &SessionStreamRecord| #[trigger] test.requires((x,)),
        forall|x: &SessionStreamRecord, b: bool| #[trigger]
            test.ensures((x,), b) ==> b == p(x.deep_view()),
    ensures
        match r {
            Some(i) => i < records.len() && latest_where(records.deep_view(), p) == Some(i as int),
            None => latest_where(records.deep_view(), p) is None,
        },
{
    let ghost v = records.deep_view();
    let mut best: Option<usize> = None;
    let mut i: usize = 0;
    assert(v.take(0) =~= Seq::empty());
    while i < records.len()
        invariant
            i <= records.len(),
            v == records.deep_view(),
            forall|x: &SessionStreamRecord| #[trigger] test.requires((x,)),
            forall|x: &SessionStreamRecord, b: bool| #[trigger]
                test.ensures((x,), b) ==> b == p(x.deep_view()),
            match best {
                Some(k) => k < i && latest_where(v.take(i as int), p) == Some(k as int),
                None => latest_where(v.take(i as int), p) is None,
            },
        decreases records.len() - i,
    {
        assert(v.take(i + 1).drop_last() =~= v.take(i as int));
        assert(v.take(i + 1).last() == records@[i as int].deep_view());
        if test(&records[i]) {
            let later = match best {
                Some(k) => {
                    assert(v.take(i + 1)[k as int] == records@[k as int].deep_view());
                    records[k].stream_sequence <= records[i].stream_sequence
                },
                None => true,
            };
            if later {
                best = Some(i);
            }
        }
        i = i + 1;
    }
    assert(v.take(i as int) =~= v);
    best
}

fn snapshot_of_commit(r: &SessionStreamRecord) -> (o: Option<String>)
    ensures
        o.deep_view() == snapshot_committed(r.deep_view()),
{
    match committed_of(r) {
        Some(c) => Some(c.workspace_snapshot_id.duplicate()),
        None => None,
    }
}

fn snapshot_of_detection(r: &SessionStreamRecord) -> (o: Option<String>)
    ensures
        o.deep_view() == snapshot_detected(r.deep_view()),
{
    match detected_of(r) {
        Some(d) => d.to_workspace_snapshot_id.duplicate(),
        None => None,
    }
}

/// Finds the snapshot of a workspace that the stream knows last.
pub(crate) fn current_parent_snapshot(records: &Vec<SessionStreamRecord>, workspace_id: &str) -> (r:
    Option<String>)
    ensures
        r.deep_view() == current_snapshot(records.deep_view(), workspace_id@),
{
    let committed = find_latest(
        records,
        |r: &SessionStreamRecord| -> (b: bool)
            ensures
                b == commits_to(workspace_id@)(r.deep_view())
            {
                match committed_of(r) {
                    Some(c) => same_optional(&c.workspace_id, workspace_id),
                    None => false,
                }
            },
        Ghost(commits_to(workspace_id@)),
    );
    let detected = find_latest(
        records,
        |r: &SessionStreamRecord| -> (b: bool)
            ensures
                b == detects_in(workspace_id@)(r.deep_view())
            {
                match detected_of(r) {
                    Some(d) => same_text(d.workspace_id.as_str(), workspace_id),
                    None => false,
                }
            },
        Ghost(detects_in(workspace_id@)),
    );
    match (committed, detected) {
        (None, None) => None,
        (Some(i), None) => {
            assert(records.deep_view()[i as int] == records@[i as int].deep_view());
            snapshot_of_commit(&records[i])
        },
        (None, Some(k)) => {
            assert(records.deep_view()[k as int] == records@[k as int].deep_view());
            snapshot_of_detection(&records[k])
        },
        (Some(i), Some(k)) => {
            assert(records.deep_view()[i as int] == records@[i as int].deep_view());
            assert(records.deep_view()[k as int] == records@[k as int].deep_view());
            if records[i].stream_sequence > records[k].stream_sequence {
                snapshot_of_commit(&records[i])
            } else {
                snapshot_of_detection(&records[k])
            }
        },
    }
}

} // verus!
