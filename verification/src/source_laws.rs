//! What stands behind an execution and behind evidence: which attempt, which receipt, which changes
//! of the parent workspace, and which snapshot.

use vstd::prelude::*;

use crate::integration::{
    IntegrationPromotionEffectView, IntegrationPromotionStatus, IntegrationProposalSpecView,
};
use crate::intent::{
    IntentCriterionEvidenceV1View, IntentExecutionBindingKind, IntentExecutionBindingV1View,
    IntentExecutionOriginV1View,
};
use crate::intent_stack::plan_state_place;
use crate::intent_state::{
    AcceptedIntentPlanProjectionV1View, IntentExecutionLineageV1View, IntentLineageReadOnlyReasonV1,
    ParentLineageView,
};
use crate::lineage_facts::{
    accepted_step, applies_in_batch, batch_applies, batch_applies_file, batch_applies_set,
    begins_batch, chat_file_lineage, chat_parent_lineage, commits_in_batch, commits_in_window,
    commits_to, current_snapshot, detects_in, ends_applying_batch, execution_source_verdict,
    integrates, is_accepted_plan, is_agent_event, is_applied, is_attempt_event, is_check_of,
    is_plan_for, is_policy, is_sound_plan, latest_where, least_close, parent_event, plan_integrates,
    prepares_in_window, promotes, proposal, receipt_from, system_evidence_verdict,
    task_is_consistent, task_parent_lineage, window_end,
};
use crate::records::{
    ChangeSetFileAction, ChangeSetFileView, ControlEntryView, MutationBatchFinishedView,
    MutationBatchStartedView, MutationBatchStatus, MutationPreparedView, MutationSubjectView,
    ReceiptStatus, RecordBodyView, SessionStreamRecordView, TaskParticipantAttemptStatus,
    TaskParticipantPurpose, TaskPlanEntryView, TaskPlanStatus, TaskState, TaskStateProjectionView,
    TaskStateView, TaskStepMode, TaskStepSpec, VerificationVerdict,
};
use crate::search::{
    all_where, any_where, first_where, last_where, lemma_first_where, lemma_last_where,
};
use crate::value::{find_key, lemma_find_key};

verus! {

/// The item at `i` is the first of a sort.
pub open spec fn is_first<A>(s: Seq<A>, p: spec_fn(A) -> bool, i: int) -> bool {
    0 <= i < s.len() && p(s[i]) && forall|j: int| 0 <= j < i ==> !p(#[trigger] s[j])
}

/// The item at `i` is the last of a sort.
pub open spec fn is_last<A>(s: Seq<A>, p: spec_fn(A) -> bool, i: int) -> bool {
    0 <= i < s.len() && p(s[i]) && forall|j: int| i < j < s.len() ==> !p(#[trigger] s[j])
}

/// No item is of a sort.
pub open spec fn is_nowhere<A>(s: Seq<A>, p: spec_fn(A) -> bool) -> bool {
    forall|j: int| 0 <= j < s.len() ==> !p(#[trigger] s[j])
}

proof fn lemma_first<A>(s: Seq<A>, p: spec_fn(A) -> bool, q: spec_fn(A) -> bool)
    requires
        forall|j: int| 0 <= j < s.len() ==> p(#[trigger] s[j]) == q(s[j]),
    ensures
        forall|i: int| #[trigger] is_first(s, p, i) ==> first_where(s, q) == Some(i),
        is_nowhere(s, p) ==> first_where(s, q) is None,
        first_where(s, q) matches Some(i) ==> is_first(s, p, i),
        first_where(s, q) is None ==> is_nowhere(s, p),
{
    lemma_first_where(s, q);
    assert forall|i: int| #[trigger] is_first(s, p, i) implies first_where(s, q) == Some(i) by {
        assert(q(s[i]));
    }
}

proof fn lemma_last<A>(s: Seq<A>, p: spec_fn(A) -> bool, q: spec_fn(A) -> bool)
    requires
        forall|j: int| 0 <= j < s.len() ==> p(#[trigger] s[j]) == q(s[j]),
    ensures
        forall|i: int| #[trigger] is_last(s, p, i) ==> last_where(s, q) == Some(i),
        is_nowhere(s, p) ==> last_where(s, q) is None,
        last_where(s, q) matches Some(i) ==> is_last(s, p, i),
        last_where(s, q) is None ==> is_nowhere(s, p),
{
    lemma_last_where(s, q);
    assert forall|i: int| #[trigger] is_last(s, p, i) implies last_where(s, q) == Some(i) by {
        assert(q(s[i]));
    }
}

// Attempts.

/// The record is an event that tells of an attempt of a participant of a task.
pub open spec fn tells_of_attempt(id: Seq<char>) -> spec_fn(SessionStreamRecordView) -> bool {
    |r: SessionStreamRecordView|
        r.event_id == id && (r.body matches RecordBodyView::Control(
            ControlEntryView::TaskParticipantAttempt(_),
        ))
}

/// The record is an event that tells of the start of an agent run.
pub open spec fn tells_of_run(id: Seq<char>) -> spec_fn(SessionStreamRecordView) -> bool {
    |r: SessionStreamRecordView|
        r.event_id == id && (r.body matches RecordBodyView::Control(
            ControlEntryView::AgentRunAttemptStarted(_),
        ))
}

/// The task plan that a record holds, on its own or as it is adopted or made.
pub open spec fn plan_told(r: SessionStreamRecordView, t: TaskPlanEntryView) -> bool {
    ||| r.body == RecordBodyView::Control(ControlEntryView::TaskPlan(t))
    ||| r.body == RecordBodyView::Control(ControlEntryView::PlanExecutionAdopted(t))
    ||| r.body == RecordBodyView::Control(ControlEntryView::TaskMaterializationPrepared(t))
}

/// The record tells that a version of a task plan is accepted.
pub open spec fn tells_accepted(task_id: Seq<char>, version: u32) -> spec_fn(
    SessionStreamRecordView,
) -> bool {
    |r: SessionStreamRecordView|
        exists|t: TaskPlanEntryView| #[trigger]
            plan_told(r, t) && t.status == TaskPlanStatus::Accepted && t.task_id == task_id
                && t.plan_version == version
}

proof fn lemma_accepted_plans(
    records: Seq<SessionStreamRecordView>,
    task_id: Seq<char>,
    version: u32,
)
    ensures
        forall|j: int|
            0 <= j < records.len() ==> tells_accepted(task_id, version)(#[trigger] records[j])
                == is_accepted_plan(task_id, version)(records[j]),
{
    assert forall|j: int| 0 <= j < records.len() implies tells_accepted(task_id, version)(
        #[trigger] records[j],
    ) == is_accepted_plan(task_id, version)(records[j]) by {
        let r = records[j];
        if is_accepted_plan(task_id, version)(r) {
            let t = crate::stream::task_plan_in(r)->0;
            assert(plan_told(r, t));
        }
    }
}

/// The state of a task lets a version of its plan run: its participants agree, and the version, the
/// first that the task has of that number, is accepted and has a sound graph.
pub open spec fn may_run(task: TaskStateView, version: u32) -> bool {
    task.participant_conflicts == 0 && exists|k: int|
        0 <= k < task.plans.len() && (#[trigger] task.plans[k]).plan_version == version
            && task.plans[k].status == TaskPlanStatus::Accepted
            && task.plans[k].graph_validation_error is None && forall|j: int|
            0 <= j < k ==> (#[trigger] task.plans[j]).plan_version != version
}

proof fn lemma_plan_state(task: TaskStateView, version: u32)
    ensures
        task_is_consistent(task, version) == may_run(task, version),
{
    lemma_plan_place(task.plans, version);
}

proof fn lemma_plan_place(plans: Seq<crate::records::TaskPlanStateView>, version: u32)
    ensures
        match plan_state_place(plans, version) {
            Some(i) => 0 <= i < plans.len() && plans[i].plan_version == version && forall|j: int|
                0 <= j < i ==> (#[trigger] plans[j]).plan_version != version,
            None => forall|j: int|
                0 <= j < plans.len() ==> (#[trigger] plans[j]).plan_version != version,
        },
    decreases plans.len(),
{
    if plans.len() > 0 {
        let rest = plans.drop_last();
        lemma_plan_place(rest, version);
        assert forall|j: int| 0 <= j < rest.len() implies rest[j] == #[trigger] plans[j] by {}
    }
}

/// An execution of a task counts if and only if its event is the start of the attempt, at the step
/// of the version of the plan of the task, that it names; the last accepted record of that version
/// has the step, and the step declares the intent; the task may run; and a step that writes
/// declares this intent alone, for a mutation.
pub proof fn law_task_executions_are_exact(
    records: Seq<SessionStreamRecordView>,
    tasks: TaskStateProjectionView,
    binding: IntentExecutionBindingV1View,
    accepted: AcceptedIntentPlanProjectionV1View,
    n: int,
    m: int,
    t: TaskPlanEntryView,
    k: int,
    h: int,
)
    requires
        binding.origin is Task,
        binding.origin->Task_attempt_id is Some,
        is_first(records, tells_of_attempt(binding.source_event_id), n),
        is_last(
            records,
            tells_accepted(binding.origin->Task_task_id, binding.origin->task_plan_version),
            m,
        ),
        plan_told(records[m], t),
        0 <= k < t.steps.len(),
        t.steps[k].step_id == binding.origin->step_id,
        forall|j: int| 0 <= j < k ==> (#[trigger] t.steps[j]).step_id != binding.origin->step_id,
        0 <= h < tasks.tasks.len(),
        tasks.tasks[h].task_id == binding.origin->Task_task_id,
        forall|j: int|
            0 <= j < h ==> (#[trigger] tasks.tasks[j]).task_id != binding.origin->Task_task_id,
    ensures
        execution_source_verdict(records, tasks, binding, accepted) is Ok <==> {
            &&& records[n].body matches RecordBodyView::Control(
                ControlEntryView::TaskParticipantAttempt(a),
            )
            &&& a.status == TaskParticipantAttemptStatus::Started
            &&& a.purpose == TaskParticipantPurpose::Step
            &&& Some(a.attempt_id) == binding.origin->Task_attempt_id
            &&& a.task_id == binding.origin->Task_task_id
            &&& a.plan_version == Some(binding.origin->task_plan_version)
            &&& a.step_id == Some(binding.origin->step_id)
            &&& may_run(tasks.tasks[h], binding.origin->task_plan_version)
            &&& t.steps[k].intent_refs.contains(binding.intent_ref)
            &&& t.steps[k].mode == TaskStepMode::Write ==> t.steps[k].intent_refs.len() == 1
                && binding.binding_kind == IntentExecutionBindingKind::Mutation
        },
{
    let task_id = binding.origin->Task_task_id;
    let version = binding.origin->task_plan_version;
    let step_id = binding.origin->step_id;
    let id = binding.source_event_id;
    assert forall|j: int| 0 <= j < records.len() implies tells_of_attempt(id)(#[trigger] records[j])
        == is_attempt_event(id)(records[j]) by {}
    lemma_first(records, tells_of_attempt(id), is_attempt_event(id));
    lemma_accepted_plans(records, task_id, version);
    lemma_last(records, tells_accepted(task_id, version), is_accepted_plan(task_id, version));
    lemma_find_key::<TaskStepSpec>(t.steps, step_id);
    lemma_find_key::<TaskState>(tasks.tasks, task_id);
    assert(find_key::<TaskStepSpec>(t.steps, step_id) == Some(k));
    assert(find_key::<TaskState>(tasks.tasks, task_id) == Some(h));
    assert(crate::stream::task_plan_in(records[m]) == Some(t));
    assert(accepted_step(records, task_id, version, step_id) == Some(t.steps[k]));
    lemma_plan_state(tasks.tasks[h], version);
}

/// An execution without its attempt, without an accepted plan or without a task does not count.
pub proof fn law_executions_without_sources_are_refused(
    records: Seq<SessionStreamRecordView>,
    tasks: TaskStateProjectionView,
    binding: IntentExecutionBindingV1View,
    accepted: AcceptedIntentPlanProjectionV1View,
)
    ensures
        binding.origin matches IntentExecutionOriginV1View::Task {
            task_id,
            task_plan_version,
            attempt_id,
            ..
        } ==> (attempt_id is None || is_nowhere(records, tells_of_attempt(binding.source_event_id))
            || is_nowhere(records, tells_accepted(task_id, task_plan_version)) || (forall|j: int|
            0 <= j < tasks.tasks.len() ==> (#[trigger] tasks.tasks[j]).task_id != task_id)
            ==> execution_source_verdict(records, tasks, binding, accepted) is Err),
        binding.origin matches IntentExecutionOriginV1View::Chat { attempt_id, .. } ==> (attempt_id is None
            || is_nowhere(records, tells_of_run(binding.source_event_id))
            ==> execution_source_verdict(records, tasks, binding, accepted) is Err),
{
    let id = binding.source_event_id;
    assert forall|j: int| 0 <= j < records.len() implies tells_of_attempt(id)(#[trigger] records[j])
        == is_attempt_event(id)(records[j]) by {}
    lemma_first(records, tells_of_attempt(id), is_attempt_event(id));
    assert forall|j: int| 0 <= j < records.len() implies tells_of_run(id)(#[trigger] records[j])
        == is_agent_event(id)(records[j]) by {}
    lemma_first(records, tells_of_run(id), is_agent_event(id));
    if let IntentExecutionOriginV1View::Task { task_id, task_plan_version, .. } = binding.origin {
        lemma_accepted_plans(records, task_id, task_plan_version);
        lemma_last(
            records,
            tells_accepted(task_id, task_plan_version),
            is_accepted_plan(task_id, task_plan_version),
        );
        lemma_find_key::<TaskState>(tasks.tasks, task_id);
    }
}

/// An execution of a chat counts if and only if its event starts the run and the attempt that it
/// names, in the foreground, for the one intent of a plan that was accepted in the same turn
/// without a task plan, and for a mutation.
pub proof fn law_chat_executions_are_exact(
    records: Seq<SessionStreamRecordView>,
    tasks: TaskStateProjectionView,
    binding: IntentExecutionBindingV1View,
    accepted: AcceptedIntentPlanProjectionV1View,
    n: int,
)
    requires
        binding.origin is Chat,
        binding.origin->Chat_attempt_id is Some,
        is_first(records, tells_of_run(binding.source_event_id), n),
    ensures
        execution_source_verdict(records, tasks, binding, accepted) is Ok <==> {
            &&& records[n].body matches RecordBodyView::Control(
                ControlEntryView::AgentRunAttemptStarted(a),
            )
            &&& a.thread_id == binding.origin->root_logical_run_id
            &&& Some(a.attempt_id) == binding.origin->Chat_attempt_id
            &&& !a.background
            &&& binding.origin->source_turn_id == accepted.source_turn_id
            &&& accepted.task_plan_binding is None
            &&& accepted.plan.intents.len() == 1
            &&& binding.binding_kind == IntentExecutionBindingKind::Mutation
        },
{
    let id = binding.source_event_id;
    assert forall|j: int| 0 <= j < records.len() implies tells_of_run(id)(#[trigger] records[j])
        == is_agent_event(id)(records[j]) by {}
    lemma_first(records, tells_of_run(id), is_agent_event(id));
}

// Evidence.

/// The record brings a policy of verification with a hash.
pub open spec fn brings_policy(hash: Seq<char>) -> spec_fn(SessionStreamRecordView) -> bool {
    |r: SessionStreamRecordView|
        r.body matches RecordBodyView::Control(ControlEntryView::VerificationPolicyChanged(p))
            && p.policy_hash == hash
}

/// Evidence of the system counts for an execution if and only if its receipt succeeded, in its
/// check and as a whole, without touching what it verified, on a known backend, on the snapshot and
/// under the policy of the evidence; the execution ended in that snapshot, with exactly the change
/// sets of the evidence; a verification of a promotion that the event brings passed on that
/// snapshot under that policy, for a plan without contradictions; and the check of the receipt,
/// which that policy requires, covers the criterion.
pub proof fn law_system_evidence_is_exact(
    records: Seq<SessionStreamRecordView>,
    e: IntentCriterionEvidenceV1View,
    execution: IntentExecutionLineageV1View,
    n: int,
    k: int,
)
    requires
        receipt_from(records, e.source_event_id, e.receipt_id) is Some,
        is_last(records, brings_policy(e.verification_policy_digest), n),
        ({
            let r = receipt_from(records, e.source_event_id, e.receipt_id)->0;
            let p = records[n].body->Control_0->VerificationPolicyChanged_0;
            &&& 0 <= k < p.required_checks.len()
            &&& p.required_checks[k].check_spec_id == r.check_spec_id
            &&& p.required_checks[k].check_spec_hash == r.check_spec_hash
            &&& forall|j: int|
                0 <= j < k ==> !((#[trigger] p.required_checks[j]).check_spec_id == r.check_spec_id
                    && p.required_checks[j].check_spec_hash == r.check_spec_hash)
        }),
    ensures
        system_evidence_verdict(records, e, execution) is Ok <==> {
            let r = receipt_from(records, e.source_event_id, e.receipt_id)->0;
            let p = records[n].body->Control_0->VerificationPolicyChanged_0;
            &&& r.check_status == ReceiptStatus::Succeeded
            &&& r.status == ReceiptStatus::Succeeded
            &&& !r.mutates_verification_scope
            &&& r.execution_backend is Some
            &&& r.workspace_snapshot_id == e.parent_snapshot_id
            &&& r.policy_hash == Some(e.verification_policy_digest)
            &&& execution.parent_snapshot_id == Some(e.parent_snapshot_id)
            &&& parent_event(records, e.source_event_id) matches Some(v) ==> v.promoted_snapshot_id
                == e.parent_snapshot_id && v.policy_digest == e.verification_policy_digest && v.verdict
                == VerificationVerdict::Passed && is_sound_plan(records, v.plan_id)
            &&& exists|c: int|
                0 <= c < p.required_checks[k].intent_criteria.len() && (
                #[trigger] p.required_checks[k].intent_criteria[c]).intent_ref == e.intent_ref
                    && p.required_checks[k].intent_criteria[c].criterion_id == e.criterion_id
            &&& forall|id: Seq<char>| #[trigger]
                execution.changeset_ids.contains(id) <==> e.changeset_ids.contains(id)
        },
{
    let hash = e.verification_policy_digest;
    assert forall|j: int| 0 <= j < records.len() implies brings_policy(hash)(#[trigger] records[j])
        == is_policy(hash)(records[j]) by {}
    lemma_last(records, brings_policy(hash), is_policy(hash));
    let r = receipt_from(records, e.source_event_id, e.receipt_id)->0;
    let p = records[n].body->Control_0->VerificationPolicyChanged_0;
    let f = is_check_of(r);
    lemma_first_where(p.required_checks, f);
    assert(f(p.required_checks[k]));
    let place = first_where(p.required_checks, f)->0;
    assert(f(p.required_checks[place]));
    assert(place == k);
    let criteria = p.required_checks[k].intent_criteria;
    let scope = crate::lineage_facts::criterion_scope(e);
    if criteria.contains(scope) {
        let c = choose|c: int| 0 <= c < criteria.len() && criteria[c] == scope;
        assert(criteria[c].intent_ref == e.intent_ref);
    }
    if exists|c: int|
        0 <= c < criteria.len() && (#[trigger] criteria[c]).intent_ref == e.intent_ref
            && criteria[c].criterion_id == e.criterion_id {
        let c = choose|c: int|
            0 <= c < criteria.len() && (#[trigger] criteria[c]).intent_ref == e.intent_ref
                && criteria[c].criterion_id == e.criterion_id;
        assert(criteria[c] == scope);
    }
    let a = execution.changeset_ids;
    let b = e.changeset_ids;
    if crate::search::same_items(a, b) {
        assert forall|id: Seq<char>| #[trigger] a.contains(id) <==> b.contains(id) by {
            if a.contains(id) {
                let i = choose|i: int| 0 <= i < a.len() && a[i] == id;
                assert(b.contains(a[i]));
            }
            if b.contains(id) {
                let i = choose|i: int| 0 <= i < b.len() && b[i] == id;
                assert(a.contains(b[i]));
            }
        }
    }
    if forall|id: Seq<char>| #[trigger] a.contains(id) <==> b.contains(id) {
        assert forall|i: int| 0 <= i < a.len() implies b.contains(#[trigger] a[i]) by {
            assert(a.contains(a[i]));
        }
        assert forall|i: int| 0 <= i < b.len() implies a.contains(#[trigger] b[i]) by {
            assert(a.contains(b[i]) == b.contains(b[i]));
        }
    }
}

/// Evidence of the system whose policy is unknown, or whose policy does not require its check, does
/// not count.
pub proof fn law_evidence_without_policy_is_refused(
    records: Seq<SessionStreamRecordView>,
    e: IntentCriterionEvidenceV1View,
    execution: IntentExecutionLineageV1View,
)
    ensures
        is_nowhere(records, brings_policy(e.verification_policy_digest)) ==> system_evidence_verdict(
            records,
            e,
            execution,
        ) is Err,
        receipt_from(records, e.source_event_id, e.receipt_id) is None ==> system_evidence_verdict(
            records,
            e,
            execution,
        ) is Err,
{
    let hash = e.verification_policy_digest;
    assert forall|j: int| 0 <= j < records.len() implies brings_policy(hash)(#[trigger] records[j])
        == is_policy(hash)(records[j]) by {}
    lemma_last(records, brings_policy(hash), is_policy(hash));
}

// The window of a chat.

/// The record ends the time in which an attempt of a run may change files: it is later than the
/// attempt and starts an attempt of the run, or interrupts this attempt of it.
pub open spec fn ends_attempt(
    r: SessionStreamRecordView,
    run_id: Seq<char>,
    attempt_id: Seq<char>,
    after: u64,
) -> bool {
    &&& r.stream_sequence > after
    &&& {
        ||| r.body matches RecordBodyView::Control(ControlEntryView::AgentRunAttemptStarted(a))
            && a.thread_id == run_id
        ||| r.body matches RecordBodyView::Control(ControlEntryView::AgentRunInterrupted(x))
            && x.thread_id == run_id && x.attempt_id == attempt_id
    }
}

proof fn lemma_least_close(
    records: Seq<SessionStreamRecordView>,
    run_id: Seq<char>,
    attempt_id: Seq<char>,
    after: u64,
)
    ensures
        match least_close(records, run_id, attempt_id, after) {
            Some(n) => (exists|i: int|
                0 <= i < records.len() && ends_attempt(
                    #[trigger] records[i],
                    run_id,
                    attempt_id,
                    after,
                ) && records[i].stream_sequence == n) && forall|i: int|
                0 <= i < records.len() && ends_attempt(
                    #[trigger] records[i],
                    run_id,
                    attempt_id,
                    after,
                ) ==> n <= records[i].stream_sequence,
            None => forall|i: int|
                0 <= i < records.len() ==> !ends_attempt(
                    #[trigger] records[i],
                    run_id,
                    attempt_id,
                    after,
                ),
        },
    decreases records.len(),
{
    if records.len() > 0 {
        let rest = records.drop_last();
        lemma_least_close(rest, run_id, attempt_id, after);
        assert forall|i: int| 0 <= i < rest.len() implies rest[i] == #[trigger] records[i] by {}
        let last = records.len() - 1;
        assert(records[last] == records.last());
        if let Some(n) = least_close(rest, run_id, attempt_id, after) {
            let i = choose|i: int|
                0 <= i < rest.len() && ends_attempt(#[trigger] rest[i], run_id, attempt_id, after)
                    && rest[i].stream_sequence == n;
            assert(ends_attempt(records[i], run_id, attempt_id, after));
        }
    }
}

/// The window of the attempt of a chat ends with the earliest record that ends the attempt, and is
/// open where there is none.
pub proof fn law_windows_end_with_their_attempts(
    records: Seq<SessionStreamRecordView>,
    binding: IntentExecutionBindingV1View,
    n: int,
)
    requires
        binding.origin is Chat,
        binding.origin->Chat_attempt_id is Some,
        is_first(records, tells_of_run(binding.source_event_id), n),
    ensures
        ({
            let run_id = binding.origin->root_logical_run_id;
            let attempt_id = binding.origin->Chat_attempt_id->0;
            let after = records[n].stream_sequence;
            match window_end(records, binding) {
                Some(end) => (exists|i: int|
                    0 <= i < records.len() && ends_attempt(
                        #[trigger] records[i],
                        run_id,
                        attempt_id,
                        after,
                    ) && records[i].stream_sequence == end) && forall|i: int|
                    0 <= i < records.len() && ends_attempt(
                        #[trigger] records[i],
                        run_id,
                        attempt_id,
                        after,
                    ) ==> end <= records[i].stream_sequence,
                None => forall|i: int|
                    0 <= i < records.len() ==> !ends_attempt(
                        #[trigger] records[i],
                        run_id,
                        attempt_id,
                        after,
                    ),
            }
        }),
{
    let id = binding.source_event_id;
    assert forall|j: int| 0 <= j < records.len() implies tells_of_run(id)(#[trigger] records[j])
        == is_agent_event(id)(records[j]) by {}
    lemma_first(records, tells_of_run(id), is_agent_event(id));
    lemma_least_close(
        records,
        binding.origin->root_logical_run_id,
        binding.origin->Chat_attempt_id->0,
        records[n].stream_sequence,
    );
}

// Changes of the parent workspace by a chat.

/// A mutation is one of the file at a path.
pub open spec fn is_on_path(subject: MutationSubjectView, path: Seq<char>) -> bool {
    subject matches MutationSubjectView::File { portable_path, .. } && portable_path == Some(path)
}

/// The record commits, before the end of a window, what was prepared for a file.
pub open spec fn ends_change(
    p: MutationPreparedView,
    end: Option<u64>,
    workspace_id: Seq<char>,
    file: ChangeSetFileView,
) -> spec_fn(SessionStreamRecordView) -> bool {
    |r: SessionStreamRecordView|
        {
            &&& r.body matches RecordBodyView::MutationCommitted(c)
            &&& c.operation_id == p.operation_id
            &&& c.workspace_id == Some(workspace_id)
            &&& c.observed_after_hash == file.after_hash
            &&& is_on_path(c.committed_subject, file.path)
            &&& end matches Some(n) ==> r.stream_sequence < n
        }
}

/// The record prepares, within a window, exactly the change of a file, and some record commits it.
pub open spec fn begins_change(
    records: Seq<SessionStreamRecordView>,
    start: u64,
    end: Option<u64>,
    workspace_id: Seq<char>,
    file: ChangeSetFileView,
) -> spec_fn(SessionStreamRecordView) -> bool {
    |r: SessionStreamRecordView|
        {
            &&& r.body matches RecordBodyView::MutationPrepared(p)
            &&& r.stream_sequence > start
            &&& end matches Some(n) ==> r.stream_sequence < n
            &&& p.workspace_id == workspace_id
            &&& p.before_hash == file.before_hash
            &&& p.intended_after_hash == file.after_hash
            &&& is_on_path(p.subject, file.path)
            &&& !is_nowhere(records, ends_change(p, end, workspace_id, file))
        }
}

proof fn lemma_changes(
    records: Seq<SessionStreamRecordView>,
    start: u64,
    end: Option<u64>,
    workspace_id: Seq<char>,
    file: ChangeSetFileView,
)
    ensures
        forall|j: int|
            0 <= j < records.len() ==> begins_change(records, start, end, workspace_id, file)(
                #[trigger] records[j],
            ) == prepares_in_window(records, start, end, workspace_id, file)(records[j]),
{
    assert forall|j: int| 0 <= j < records.len() implies begins_change(
        records,
        start,
        end,
        workspace_id,
        file,
    )(#[trigger] records[j]) == prepares_in_window(records, start, end, workspace_id, file)(
        records[j],
    ) by {
        if let RecordBodyView::MutationPrepared(p) = records[j].body {
            lemma_ends(records, p, end, workspace_id, file);
        }
    }
}

proof fn lemma_ends(
    records: Seq<SessionStreamRecordView>,
    p: MutationPreparedView,
    end: Option<u64>,
    workspace_id: Seq<char>,
    file: ChangeSetFileView,
)
    ensures
        forall|i: int| #[trigger]
            is_first(records, ends_change(p, end, workspace_id, file), i) ==> first_where(
                records,
                commits_in_window(p, end, workspace_id, file),
            ) == Some(i),
        is_nowhere(records, ends_change(p, end, workspace_id, file)) == (first_where(
            records,
            commits_in_window(p, end, workspace_id, file),
        ) is None),
{
    let mine = ends_change(p, end, workspace_id, file);
    let its = commits_in_window(p, end, workspace_id, file);
    assert forall|j: int| 0 <= j < records.len() implies mine(#[trigger] records[j]) == its(
        records[j],
    ) by {}
    lemma_first(records, mine, its);
}

/// A change set of a chat reached the parent workspace if and only if it is the only one, was
/// proposed and applied, has one file, and that change was prepared, in the window of the attempt,
/// and then committed: the first such preparation counts, and the first commit of it. The commit
/// tells the snapshot.
pub proof fn law_chat_changes_reach_the_parent(
    records: Seq<SessionStreamRecordView>,
    execution: IntentExecutionLineageV1View,
    ids: Seq<Seq<char>>,
    workspace_id: Seq<char>,
)
    ensures
        ({
            let end = window_end(records, execution.binding);
            let start = execution.binding_stream_sequence;
            let none = ParentLineageView::ReadOnly(
                IntentLineageReadOnlyReasonV1::MissingParentMutation,
            );
            let r = chat_parent_lineage(records, execution, ids, workspace_id);
            &&& ids.len() != 1 ==> r == none
            &&& ids.len() == 1 && proposal(records, ids[0]) is None ==> r
                == ParentLineageView::ReadOnly(IntentLineageReadOnlyReasonV1::MissingChangeSet)
            &&& ids.len() == 1 ==> (proposal(records, ids[0]) matches Some(c) ==> {
                let file = c.files[0];
                let begins = begins_change(records, start, end, workspace_id, file);
                &&& !is_applied(records, ids[0]) || c.files.len() != 1 ==> r == none
                &&& is_nowhere(records, begins) ==> r == none
                &&& is_applied(records, ids[0]) && c.files.len() == 1 ==> forall|i: int, k: int|
                    #![trigger records[i], records[k]]
                    is_first(records, begins, i) && is_first(
                        records,
                        ends_change(records[i].body->MutationPrepared_0, end, workspace_id, file),
                        k,
                    ) ==> r == if records[k].stream_sequence > records[i].stream_sequence {
                        ParentLineageView::Applied {
                            mutation_event_id: records[k].event_id,
                            snapshot_id:
                                records[k].body->MutationCommitted_0.workspace_snapshot_id,
                        }
                    } else {
                        none
                    }
            })
        }),
{
    if ids.len() == 1 {
        if let Some(c) = proposal(records, ids[0]) {
            let file = c.files[0];
            let end = window_end(records, execution.binding);
            let start = execution.binding_stream_sequence;
            let begins = begins_change(records, start, end, workspace_id, file);
            lemma_changes(records, start, end, workspace_id, file);
            lemma_first(
                records,
                begins,
                prepares_in_window(records, start, end, workspace_id, file),
            );
            let r = chat_parent_lineage(records, execution, ids, workspace_id);
            let none = ParentLineageView::ReadOnly(
                IntentLineageReadOnlyReasonV1::MissingParentMutation,
            );
            if is_applied(records, ids[0]) && c.files.len() == 1 {
                assert forall|i: int, k: int|
                    #![trigger records[i], records[k]]
                    is_first(records, begins, i) && is_first(
                        records,
                        ends_change(records[i].body->MutationPrepared_0, end, workspace_id, file),
                        k,
                    ) implies r == if records[k].stream_sequence > records[i].stream_sequence {
                    ParentLineageView::Applied {
                        mutation_event_id: records[k].event_id,
                        snapshot_id: records[k].body->MutationCommitted_0.workspace_snapshot_id,
                    }
                } else {
                    none
                } by {
                    let p = records[i].body->MutationPrepared_0;
                    assert(begins(records[i]));
                    assert(ends_change(p, end, workspace_id, file)(records[k]));
                    lemma_ends(records, p, end, workspace_id, file);
                    assert(r == chat_file_lineage(records, start, end, workspace_id, file));
                }
            }
        }
    }
}

// The snapshot of a workspace.

/// The record tells a new state of a workspace: a mutation of it was committed, or a change by
/// other hands was found in it.
pub open spec fn tells_state(workspace_id: Seq<char>) -> spec_fn(SessionStreamRecordView) -> bool {
    |r: SessionStreamRecordView|
        {
            ||| r.body matches RecordBodyView::MutationCommitted(c) && c.workspace_id == Some(
                workspace_id,
            )
            ||| r.body matches RecordBodyView::WorkspaceMutation(d) && d.workspace_id == workspace_id
        }
}

/// The snapshot that a record tells.
pub open spec fn snapshot_told(r: SessionStreamRecordView) -> Option<Seq<char>> {
    match r.body {
        RecordBodyView::MutationCommitted(c) => Some(c.workspace_snapshot_id),
        RecordBodyView::WorkspaceMutation(d) => d.to_workspace_snapshot_id,
        _ => None,
    }
}

proof fn lemma_latest(records: Seq<SessionStreamRecordView>, p: spec_fn(SessionStreamRecordView) -> bool)
    ensures
        match latest_where(records, p) {
            Some(i) => 0 <= i < records.len() && p(records[i]) && (forall|j: int|
                0 <= j < records.len() && p(#[trigger] records[j]) ==> records[j].stream_sequence
                    <= records[i].stream_sequence) && forall|j: int|
                i < j < records.len() && p(#[trigger] records[j]) ==> records[j].stream_sequence
                    < records[i].stream_sequence,
            None => forall|j: int| 0 <= j < records.len() ==> !p(#[trigger] records[j]),
        },
    decreases records.len(),
{
    if records.len() > 0 {
        let rest = records.drop_last();
        lemma_latest(rest, p);
        assert forall|j: int| 0 <= j < rest.len() implies rest[j] == #[trigger] records[j] by {}
        assert(records[records.len() - 1] == records.last());
    }
}

/// The snapshot of a workspace is the one that the latest record of a state of it tells; without
/// such a record there is none.
pub proof fn law_snapshots_are_the_latest(
    records: Seq<SessionStreamRecordView>,
    workspace_id: Seq<char>,
    i: int,
)
    requires
        0 <= i < records.len(),
        tells_state(workspace_id)(records[i]),
        forall|j: int|
            0 <= j < records.len() && j != i && tells_state(workspace_id)(#[trigger] records[j])
                ==> records[j].stream_sequence < records[i].stream_sequence,
    ensures
        current_snapshot(records, workspace_id) == snapshot_told(records[i]),
{
    let a = commits_to(workspace_id);
    let b = detects_in(workspace_id);
    let t = tells_state(workspace_id);
    assert forall|j: int| 0 <= j < records.len() implies t(#[trigger] records[j]) == (a(records[j])
        || b(records[j])) by {}
    lemma_latest(records, a);
    lemma_latest(records, b);
    assert(t(records[i]));
}

/// A workspace that no record tells of has no snapshot.
pub proof fn law_untold_workspaces_have_no_snapshot(
    records: Seq<SessionStreamRecordView>,
    workspace_id: Seq<char>,
)
    requires
        is_nowhere(records, tells_state(workspace_id)),
    ensures
        current_snapshot(records, workspace_id) is None,
{
    let a = commits_to(workspace_id);
    let b = detects_in(workspace_id);
    let t = tells_state(workspace_id);
    assert forall|j: int| 0 <= j < records.len() implies t(#[trigger] records[j]) == (a(records[j])
        || b(records[j])) by {}
    lemma_latest(records, a);
    lemma_latest(records, b);
}

// Changes of the parent workspace by a task.

/// The record commits, in a batch, what was prepared for a file.
pub open spec fn ends_change_in_batch(
    p: MutationPreparedView,
    prepared_sequence: u64,
    end_sequence: u64,
    workspace_id: Seq<char>,
    file: ChangeSetFileView,
    r: SessionStreamRecordView,
) -> bool {
    &&& r.body matches RecordBodyView::MutationCommitted(c)
    &&& c.operation_id == p.operation_id
    &&& c.batch_id == p.batch_id
    &&& prepared_sequence < r.stream_sequence
    &&& r.stream_sequence < end_sequence
    &&& c.workspace_id == Some(workspace_id)
    &&& c.observed_after_hash == file.after_hash
    &&& is_on_path(c.committed_subject, file.path)
}

/// A batch made exactly the change of a file: it was prepared between the start and the end of the
/// batch, as one of its subjects, its operation is among those that were committed, and a record
/// commits it.
pub open spec fn was_made(
    records: Seq<SessionStreamRecordView>,
    start: MutationBatchStartedView,
    start_sequence: u64,
    end: MutationBatchFinishedView,
    end_sequence: u64,
    workspace_id: Seq<char>,
    file: ChangeSetFileView,
) -> bool {
    &&& file.action != ChangeSetFileAction::Rename
    &&& exists|i: int, k: int|
        0 <= i < records.len() && 0 <= k < records.len() && {
            &&& (#[trigger] records[i]).body matches RecordBodyView::MutationPrepared(p)
            &&& p.batch_id == Some(end.batch_id)
            &&& start_sequence < records[i].stream_sequence
            &&& records[i].stream_sequence < end_sequence
            &&& p.workspace_id == workspace_id
            &&& p.before_hash == file.before_hash
            &&& p.intended_after_hash == file.after_hash
            &&& is_on_path(p.subject, file.path)
            &&& start.expected_subjects.contains(p.subject)
            &&& end.committed_operations.contains(p.operation_id)
            &&& ends_change_in_batch(
                p,
                records[i].stream_sequence,
                end_sequence,
                workspace_id,
                file,
                #[trigger] records[k],
            )
        }
}

proof fn lemma_was_made(
    records: Seq<SessionStreamRecordView>,
    start: MutationBatchStartedView,
    start_sequence: u64,
    end: MutationBatchFinishedView,
    end_sequence: u64,
    workspace_id: Seq<char>,
    file: ChangeSetFileView,
)
    ensures
        batch_applies_file(records, start, start_sequence, end, end_sequence, workspace_id)(file)
            == was_made(records, start, start_sequence, end, end_sequence, workspace_id, file),
{
    let f = applies_in_batch(
        records,
        start,
        start_sequence,
        end,
        end_sequence,
        workspace_id,
        file,
    );
    if any_where(records, f) {
        let i = choose|i: int| 0 <= i < records.len() && f(#[trigger] records[i]);
        let p = records[i].body->MutationPrepared_0;
        let g = commits_in_batch(p, records[i].stream_sequence, end_sequence, workspace_id, file);
        let k = choose|k: int| 0 <= k < records.len() && g(#[trigger] records[k]);
        assert(ends_change_in_batch(
            p,
            records[i].stream_sequence,
            end_sequence,
            workspace_id,
            file,
            records[k],
        ));
    }
    if was_made(records, start, start_sequence, end, end_sequence, workspace_id, file) {
        let (i, k) = choose|i: int, k: int|
            0 <= i < records.len() && 0 <= k < records.len() && {
                &&& (#[trigger] records[i]).body matches RecordBodyView::MutationPrepared(p)
                &&& p.batch_id == Some(end.batch_id)
                &&& start_sequence < records[i].stream_sequence
                &&& records[i].stream_sequence < end_sequence
                &&& p.workspace_id == workspace_id
                &&& p.before_hash == file.before_hash
                &&& p.intended_after_hash == file.after_hash
                &&& is_on_path(p.subject, file.path)
                &&& start.expected_subjects.contains(p.subject)
                &&& end.committed_operations.contains(p.operation_id)
                &&& ends_change_in_batch(
                    p,
                    records[i].stream_sequence,
                    end_sequence,
                    workspace_id,
                    file,
                    #[trigger] records[k],
                )
            };
        let p = records[i].body->MutationPrepared_0;
        let g = commits_in_batch(p, records[i].stream_sequence, end_sequence, workspace_id, file);
        assert(g(records[k]));
        assert(any_where(records, g));
        assert(f(records[i]));
    }
}

/// The record starts a batch.
pub open spec fn starts(id: Seq<char>) -> spec_fn(SessionStreamRecordView) -> bool {
    |r: SessionStreamRecordView|
        r.body matches RecordBodyView::MutationBatchStarted(b) && b.batch_id == id
}

/// A batch applies change sets: its last start stands before its end, and of every change set,
/// which was proposed and applied, it made every change.
pub proof fn law_batches_apply_every_change(
    records: Seq<SessionStreamRecordView>,
    end: MutationBatchFinishedView,
    end_sequence: u64,
    ids: Seq<Seq<char>>,
    workspace_id: Seq<char>,
    n: int,
)
    requires
        is_last(records, starts(end.batch_id), n),
    ensures
        batch_applies(records, end, end_sequence, ids, workspace_id) <==> {
            &&& records[n].stream_sequence < end_sequence
            &&& forall|i: int|
                0 <= i < ids.len() ==> {
                    &&& is_applied(records, #[trigger] ids[i])
                    &&& proposal(records, ids[i]) matches Some(c)
                    &&& forall|k: int|
                        0 <= k < c.files.len() ==> was_made(
                            records,
                            records[n].body->MutationBatchStarted_0,
                            records[n].stream_sequence,
                            end,
                            end_sequence,
                            workspace_id,
                            #[trigger] c.files[k],
                        )
                }
        },
{
    let f = starts(end.batch_id);
    let g = begins_batch(end.batch_id);
    assert forall|j: int| 0 <= j < records.len() implies f(#[trigger] records[j]) == g(
        records[j],
    ) by {}
    lemma_last(records, f, g);
    let start = records[n].body->MutationBatchStarted_0;
    let at = records[n].stream_sequence;
    let h = batch_applies_set(records, start, at, end, end_sequence, workspace_id);
    let one = batch_applies_file(records, start, at, end, end_sequence, workspace_id);
    assert forall|i: int| 0 <= i < ids.len() implies h(#[trigger] ids[i]) == {
        &&& is_applied(records, ids[i])
        &&& proposal(records, ids[i]) matches Some(c)
        &&& forall|k: int|
            0 <= k < c.files.len() ==> was_made(
                records,
                start,
                at,
                end,
                end_sequence,
                workspace_id,
                #[trigger] c.files[k],
            )
    } by {
        if let Some(c) = proposal(records, ids[i]) {
            assert forall|k: int| 0 <= k < c.files.len() implies one(#[trigger] c.files[k])
                == was_made(records, start, at, end, end_sequence, workspace_id, c.files[k]) by {
                lemma_was_made(records, start, at, end, end_sequence, workspace_id, c.files[k]);
            }
        }
    }
    assert(crate::stream::batch_start_in(records[n]) == Some(start));
    assert(batch_applies(records, end, end_sequence, ids, workspace_id) == (at < end_sequence
        && all_where(ids, h)));
}

/// The record brings a plan of integration of a version of a task that holds every one of the
/// change sets, for a step.
pub open spec fn integrates_all(
    task_id: Seq<char>,
    version: u32,
    step_id: Seq<char>,
    ids: Seq<Seq<char>>,
) -> spec_fn(SessionStreamRecordView) -> bool {
    |r: SessionStreamRecordView|
        r.body matches RecordBodyView::Control(ControlEntryView::IntegrationPlanRecorded(p))
            && p.plan.task_id == task_id && p.plan.plan_version == version && forall|i: int|
            0 <= i < ids.len() ==> holds_for_step(p.plan.proposals, #[trigger] ids[i], step_id)
}

/// One of the proposals is a change set of a step.
pub open spec fn holds_for_step(
    proposals: Seq<IntegrationProposalSpecView>,
    id: Seq<char>,
    step_id: Seq<char>,
) -> bool {
    exists|k: int|
        0 <= k < proposals.len() && (#[trigger] proposals[k]).change_set_id == id
            && proposals[k].step_id == step_id
}

/// The record tells that a plan of integration was promoted.
pub open spec fn tells_promoted(plan_id: Seq<char>) -> spec_fn(SessionStreamRecordView) -> bool {
    |r: SessionStreamRecordView|
        r.body matches RecordBodyView::Control(ControlEntryView::IntegrationPromotionRecorded(p))
            && p.plan_id == plan_id && p.status == IntegrationPromotionStatus::Promoted
}

/// The record ends, before a place in the stream and with no failure, an applied batch of all
/// change sets.
pub open spec fn ends_whole_batch(
    records: Seq<SessionStreamRecordView>,
    before: u64,
    ids: Seq<Seq<char>>,
    workspace_id: Seq<char>,
) -> spec_fn(SessionStreamRecordView) -> bool {
    |r: SessionStreamRecordView|
        {
            &&& r.body matches RecordBodyView::MutationBatchFinished(b)
            &&& r.stream_sequence < before
            &&& b.status == MutationBatchStatus::Applied
            &&& b.failed_operations.len() == 0
            &&& batch_applies(records, b, r.stream_sequence, ids, workspace_id)
        }
}

proof fn lemma_integrates(
    records: Seq<SessionStreamRecordView>,
    task_id: Seq<char>,
    version: u32,
    step_id: Seq<char>,
    ids: Seq<Seq<char>>,
)
    ensures
        forall|j: int|
            0 <= j < records.len() ==> integrates_all(task_id, version, step_id, ids)(
                #[trigger] records[j],
            ) == is_plan_for(task_id, version, step_id, ids)(records[j]),
{
    assert forall|j: int| 0 <= j < records.len() implies integrates_all(
        task_id,
        version,
        step_id,
        ids,
    )(#[trigger] records[j]) == is_plan_for(task_id, version, step_id, ids)(records[j]) by {
        if let RecordBodyView::Control(ControlEntryView::IntegrationPlanRecorded(p)) =
            records[j].body {
            let f = plan_integrates(p.plan, step_id);
            assert forall|i: int| 0 <= i < ids.len() implies f(#[trigger] ids[i]) == holds_for_step(
                p.plan.proposals,
                ids[i],
                step_id,
            ) by {
                let g = integrates(ids[i], step_id);
                if any_where(p.plan.proposals, g) {
                    let k = choose|k: int|
                        0 <= k < p.plan.proposals.len() && g(#[trigger] p.plan.proposals[k]);
                    assert(p.plan.proposals[k].change_set_id == ids[i]);
                }
                if holds_for_step(p.plan.proposals, ids[i], step_id) {
                    let k = choose|k: int|
                        0 <= k < p.plan.proposals.len() && (
                        #[trigger] p.plan.proposals[k]).change_set_id == ids[i]
                            && p.plan.proposals[k].step_id == step_id;
                    assert(g(p.plan.proposals[k]));
                }
            }
        }
    }
}

/// The change sets of a task reach the parent workspace by a plan of integration without
/// contradictions, the last one that holds them all for the step, which was promoted: the last
/// promotion decides. One that advances a reference of git leaves the workspace as it is. One into
/// the workspace counts where a batch before it applied all change sets: the last such batch is the
/// mutation.
pub proof fn law_task_changes_reach_the_parent(
    records: Seq<SessionStreamRecordView>,
    task_id: Seq<char>,
    version: u32,
    step_id: Seq<char>,
    ids: Seq<Seq<char>>,
    workspace_id: Seq<char>,
    n: int,
    k: int,
)
    requires
        is_last(records, integrates_all(task_id, version, step_id, ids), n),
        is_last(
            records,
            tells_promoted(records[n].body->Control_0->IntegrationPlanRecorded_0.plan.plan_id),
            k,
        ),
    ensures
        ({
            let plan_id = records[n].body->Control_0->IntegrationPlanRecorded_0.plan.plan_id;
            let promotion = records[k].body->Control_0->IntegrationPromotionRecorded_0;
            let batch = ends_whole_batch(records, records[k].stream_sequence, ids, workspace_id);
            let none = ParentLineageView::ReadOnly(
                IntentLineageReadOnlyReasonV1::MissingParentMutation,
            );
            let r = task_parent_lineage(records, task_id, version, step_id, ids, workspace_id);
            &&& !is_sound_plan(records, plan_id) ==> r == none
            &&& is_sound_plan(records, plan_id) && promotion.target is GitRefAdvance ==> r
                == ParentLineageView::ReadOnly(IntentLineageReadOnlyReasonV1::GitRefAdvance)
            &&& promotion.target is WorkspaceApply && !(promotion.effect matches Some(
                IntegrationPromotionEffectView::WorkspaceApplied { .. },
            )) ==> r == none
            &&& promotion.target is WorkspaceApply && is_nowhere(records, batch) ==> r == none
            &&& is_sound_plan(records, plan_id) && promotion.target is WorkspaceApply ==> (
            promotion.effect matches Some(
                IntegrationPromotionEffectView::WorkspaceApplied { promoted_snapshot_id, .. },
            ) ==> forall|i: int| #[trigger]
                is_last(records, batch, i) ==> r == (ParentLineageView::Applied {
                    mutation_event_id: records[i].event_id,
                    snapshot_id: promoted_snapshot_id,
                }))
        }),
{
    let f = integrates_all(task_id, version, step_id, ids);
    lemma_integrates(records, task_id, version, step_id, ids);
    lemma_last(records, f, is_plan_for(task_id, version, step_id, ids));
    assert(f(records[n]));
    let plan_id = records[n].body->Control_0->IntegrationPlanRecorded_0.plan.plan_id;
    let g = tells_promoted(plan_id);
    assert forall|j: int| 0 <= j < records.len() implies g(#[trigger] records[j]) == promotes(
        plan_id,
    )(records[j]) by {}
    lemma_last(records, g, promotes(plan_id));
    assert(g(records[k]));
    let at = records[k].stream_sequence;
    let batch = ends_whole_batch(records, at, ids, workspace_id);
    assert forall|j: int| 0 <= j < records.len() implies batch(#[trigger] records[j])
        == ends_applying_batch(records, at, ids, workspace_id)(records[j]) by {}
    lemma_last(records, batch, ends_applying_batch(records, at, ids, workspace_id));
}

/// Without a plan of integration for all change sets of the step, or without a promotion of the
/// plan, the change sets of a task did not reach the parent workspace.
pub proof fn law_unpromoted_tasks_have_no_parent(
    records: Seq<SessionStreamRecordView>,
    task_id: Seq<char>,
    version: u32,
    step_id: Seq<char>,
    ids: Seq<Seq<char>>,
    workspace_id: Seq<char>,
    n: int,
)
    ensures
        ({
            let plan_id = records[n].body->Control_0->IntegrationPlanRecorded_0.plan.plan_id;
            let all = integrates_all(task_id, version, step_id, ids);
            is_nowhere(records, all) || (is_last(records, all, n) && is_nowhere(
                records,
                tells_promoted(plan_id),
            )) ==> task_parent_lineage(records, task_id, version, step_id, ids, workspace_id)
                == ParentLineageView::ReadOnly(
                IntentLineageReadOnlyReasonV1::MissingParentMutation,
            )
        }),
{
    let f = integrates_all(task_id, version, step_id, ids);
    lemma_integrates(records, task_id, version, step_id, ids);
    lemma_last(records, f, is_plan_for(task_id, version, step_id, ids));
    let plan_id = records[n].body->Control_0->IntegrationPlanRecorded_0.plan.plan_id;
    let g = tells_promoted(plan_id);
    assert forall|j: int| 0 <= j < records.len() implies g(#[trigger] records[j]) == promotes(
        plan_id,
    )(records[j]) by {}
    lemma_last(records, g, promotes(plan_id));
    if is_last(records, f, n) {
        assert(f(records[n]));
    }
}

} // verus!
