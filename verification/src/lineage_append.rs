//! What may be appended to a durable stream for executions, their change sets and their evidence.

use vstd::prelude::*;

use crate::digest::{sha256_hex_of, sha256_lower_hex};
use crate::integration_plan::linked;
use crate::intent::{
    IntentCriterionEvidenceLevel, IntentCriterionEvidenceV1, IntentCriterionEvidenceV1View,
    IntentEventV1, IntentEventV1View, IntentExecutionBindingKind, IntentExecutionBindingV1,
    IntentExecutionBindingV1View, IntentExecutionId, IntentExecutionOriginV1,
    IntentExecutionOriginV1View, IntentVersionRef, IntentVersionRefView,
    INTENT_CONTRACT_SCHEMA_VERSION,
};
use crate::intent_admission::{lemma_named_digest_is_stable, plan_refs};
use crate::intent_event_contract::event_verdict;
use crate::intent_lineage::{
    after_lineage_record, bound_execution, execution_with, has_criterion, latest_execution,
    lineage_of, linked_verdict, with_new, IntentLineageAppendV1, IntentLineageAppendV1View,
    IntentLineageProjectionV1, IntentLineageProjectionV1View,
};
use crate::intent_stack::{
    accepted_for_intent, latest_accepted, law_replayed_stacks_are_sound, lemma_latest_version,
    plan_holds, stack_of, IntentStackProjectionV1, IntentStackProjectionV1View,
};
use crate::intent_state::{
    AcceptedIntentPlanProjectionV1, AcceptedIntentPlanProjectionV1View, IntentExecutionLineageV1,
    IntentExecutionLineageV1View, IntentLineageWriteOutcomeV1, IntentLineageWriteOutcomeV1View,
};
use crate::json::{add_member, close_object, comma_separated, member, object, quote, quoted, Encode};
use crate::lineage_facts::{
    basic_evidence_verdict, before_end, chat_attempt_window_end, execution_source_verdict,
    facts_verdict, find_proposal, proposal, proposed, same_texts, system_evidence_verdict,
    validate_basic_evidence, validate_changesets, validate_execution_source, validate_facts,
    validate_system_evidence, window_end,
};
use crate::records::{
    ChangeSet, ChangeSetFile, ChangeSetFileAction, ChangeSetFileResult, ChangeSetFileResultStatus,
    ChangeSetFileResultView, ChangeSetFileView, ChangeSetResult, ChangeSetResultStatus,
    ChangeSetResultView, ChangeSetRisk, ChangeSetValidation, ChangeSetValidationKind,
    ChangeSetValidationStatus, ChangeSetValidationView, ChangeSetView, ControlEntry,
    ControlEntryView, MutationCommitted, MutationCommittedView, MutationPrepared,
    MutationPreparedView, MutationSubject, MutationSubjectView, Session, SessionStreamRecord,
    SessionStreamRecordView, SessionView, TaskParticipantAttemptStatus, TaskStateProjection,
    TaskStateProjectionView,
};
use crate::search::{
    all_where, any_where, check_each, find_first, first_where, has_all, same_items, validate_each,
};
use crate::stream::{
    agent_attempt_in, agent_attempt_of, attempt_in, attempt_of, committed_in, committed_of,
    intent_event_in, prepared_in, prepared_of,
};
use crate::text::{characters, every, in_class, joined, same_text, text_of, CharClass};
use crate::value::{
    chain, check, find_key, lemma_all_pass, lemma_find_key, outcome, reject, verdict, yields,
    KernelError, Value, Verdict,
};

verus! {

/// The texts of an array of JSON values.
pub open spec fn json_array(items: Seq<Seq<char>>) -> Seq<char> {
    (seq!['['] + comma_separated(items)).push(']')
}

/// The JSON text of an origin, its members in the order of their declaration.
pub open spec fn declared_origin(origin: IntentExecutionOriginV1View) -> Seq<char> {
    match origin {
        IntentExecutionOriginV1View::Task { task_id, task_plan_version, step_id, attempt_id } => {
            let start = member(
                member(
                    member(
                        member(Seq::empty(), "kind"@, quoted("task"@)),
                        "task_id"@,
                        String::json(task_id),
                    ),
                    "task_plan_version"@,
                    u32::json(task_plan_version),
                ),
                "step_id"@,
                String::json(step_id),
            );
            object(optional_member(start, "attempt_id"@, attempt_id))
        },
        IntentExecutionOriginV1View::Chat { root_logical_run_id, source_turn_id, attempt_id } => {
            let start = member(
                member(
                    member(Seq::empty(), "kind"@, quoted("chat"@)),
                    "root_logical_run_id"@,
                    String::json(root_logical_run_id),
                ),
                "source_turn_id"@,
                String::json(source_turn_id),
            );
            object(optional_member(start, "attempt_id"@, attempt_id))
        },
    }
}

/// An open object with one more member, where there is a value for it.
pub open spec fn optional_member(text: Seq<char>, key: Seq<char>, value: Option<Seq<char>>) -> Seq<
    char,
> {
    match value {
        Some(v) => member(text, key, String::json(v)),
        None => text,
    }
}

fn write_origin(origin: &IntentExecutionOriginV1) -> (r: String)
    ensures
        r@ == declared_origin(origin.deep_view()),
{
    let mut r = String::new();
    assert(r@ =~= Seq::empty());
    match origin {
        IntentExecutionOriginV1::Task { task_id, task_plan_version, step_id, attempt_id } => {
            let kind = quote("task");
            add_member(&mut r, "kind", &kind);
            add_member(&mut r, "task_id", &task_id.to_json());
            add_member(&mut r, "task_plan_version", &task_plan_version.to_json());
            add_member(&mut r, "step_id", &step_id.to_json());
            if let Some(attempt) = attempt_id {
                add_member(&mut r, "attempt_id", &attempt.to_json());
            }
        },
        IntentExecutionOriginV1::Chat { root_logical_run_id, source_turn_id, attempt_id } => {
            let kind = quote("chat");
            add_member(&mut r, "kind", &kind);
            add_member(&mut r, "root_logical_run_id", &root_logical_run_id.to_json());
            add_member(&mut r, "source_turn_id", &source_turn_id.to_json());
            if let Some(attempt) = attempt_id {
                add_member(&mut r, "attempt_id", &attempt.to_json());
            }
        },
    }
    close_object(&mut r);
    r
}

/// What the identity of an execution is computed from.
pub open spec fn execution_material(
    accepted: AcceptedIntentPlanProjectionV1View,
    intent_ref: IntentVersionRefView,
    origin: IntentExecutionOriginV1View,
    source_event_id: Seq<char>,
) -> Seq<char> {
    json_array(
        seq![
            String::json(accepted.plan.stack_id),
            u64::json(accepted.plan.stack_version),
            IntentVersionRef::json(intent_ref),
            declared_origin(origin),
            String::json(source_event_id),
        ],
    )
}

/// The first 24 digits of the digest of a text.
pub open spec fn short_digest(text: Seq<char>) -> Seq<char> {
    sha256_hex_of(vstd::utf8::encode_utf8(text)).take(24)
}

fn shortened_digest(text: &str) -> (r: String)
    ensures
        r@ == short_digest(text@),
        r@.len() == 24,
        every(CharClass::LowerHex, r@),
{
    let hex = sha256_lower_hex(text.as_bytes());
    let chars = characters(hex.as_str());
    let r = text_of(&chars, 0, 24);
    assert(r@ =~= hex@.take(24));
    assert forall|i: int| 0 <= i < r@.len() implies in_class(CharClass::LowerHex, #[trigger] r@[i]) by {
        assert(r@[i] == hex@[i]);
        assert(in_class(CharClass::LowerHex, hex@[i]));
    }
    r
}

/// The identity of an execution: it depends on the plan, the intent, the origin and the source event,
/// and on nothing else.
pub open spec fn execution_id_of(
    accepted: AcceptedIntentPlanProjectionV1View,
    intent_ref: IntentVersionRefView,
    origin: IntentExecutionOriginV1View,
    source_event_id: Seq<char>,
) -> Seq<char> {
    "execution"@ + "-"@ + short_digest(
        execution_material(accepted, intent_ref, origin, source_event_id),
    )
}

fn deterministic_execution_id(
    accepted: &AcceptedIntentPlanProjectionV1,
    intent_ref: &IntentVersionRef,
    origin: &IntentExecutionOriginV1,
    source_event_id: &String,
) -> (r: IntentExecutionId)
    ensures
        r.deep_view() == execution_id_of(
            accepted.deep_view(),
            intent_ref.deep_view(),
            origin.deep_view(),
            source_event_id@,
        ),
{
    let stack_text = accepted.plan.stack_id.as_str().to_owned();
    let mut material = String::new();
    material.push('[');
    material.append(stack_text.to_json().as_str());
    material.push(',');
    material.append(accepted.plan.stack_version.get().to_json().as_str());
    material.push(',');
    material.append(intent_ref.to_json().as_str());
    material.push(',');
    material.append(write_origin(origin).as_str());
    material.push(',');
    material.append(source_event_id.to_json().as_str());
    material.push(']');
    proof {
        let items = seq![
            String::json(accepted.deep_view().plan.stack_id),
            u64::json(accepted.deep_view().plan.stack_version),
            IntentVersionRef::json(intent_ref.deep_view()),
            declared_origin(origin.deep_view()),
            String::json(source_event_id@),
        ];
        lemma_five_separated(items);
        assert(material@ =~= json_array(items));
    }
    let digest = shortened_digest(material.as_str());
    let mut text = joined("execution", "-");
    text.append(digest.as_str());
    proof {
        reveal_strlit("execution");
        lemma_named_digest_is_stable("execution"@, digest@);
    }
    match IntentExecutionId::new(text) {
        Ok(id) => id,
        Err(_) => {
            assert(false);
            vstd::pervasive::unreached()
        },
    }
}

proof fn lemma_five_separated(items: Seq<Seq<char>>)
    requires
        items.len() == 5,
    ensures
        comma_separated(items) == ((((items[0].push(',') + items[1]).push(',') + items[2]).push(',')
            + items[3]).push(',') + items[4]),
{
    reveal_with_fuel(comma_separated, 6);
    assert(items.drop_last().last() == items[3]);
    assert(items.drop_last().drop_last().last() == items[2]);
    assert(items.drop_last().drop_last().drop_last().last() == items[1]);
    assert(items.drop_last().drop_last().drop_last().drop_last()[0] == items[0]);
}

/// The identity of the change set that stands for one mutation of a chat.
pub open spec fn changeset_id_of(
    execution_id: Seq<char>,
    prepared_event_id: Seq<char>,
    committed_event_id: Seq<char>,
    path: Seq<char>,
) -> Seq<char> {
    "intent-chat-"@ + short_digest(
        (((execution_id.push('\0') + prepared_event_id).push('\0') + committed_event_id).push('\0')
            + path).push('\0'),
    )
}

fn deterministic_changeset_id(
    execution_id: &IntentExecutionId,
    prepared_event_id: &str,
    committed_event_id: &str,
    path: &str,
) -> (r: String)
    ensures
        r@ == changeset_id_of(
            execution_id.deep_view(),
            prepared_event_id@,
            committed_event_id@,
            path@,
        ),
{
    let mut seed = execution_id.as_str().to_owned();
    seed.push('\0');
    seed.append(prepared_event_id);
    seed.push('\0');
    seed.append(committed_event_id);
    seed.push('\0');
    seed.append(path);
    seed.push('\0');
    joined("intent-chat-", shortened_digest(seed.as_str()).as_str())
}

// Executions.

/// What is to be appended: an event, unless the stream holds it already.
pub open spec fn append_event(
    event: IntentEventV1View,
    execution_id: Option<Seq<char>>,
    needed: bool,
) -> IntentLineageAppendV1View {
    IntentLineageAppendV1View {
        events: if needed {
            seq![event]
        } else {
            Seq::empty()
        },
        entries: Seq::empty(),
        outcome: IntentLineageWriteOutcomeV1View { appended: needed, execution_id },
    }
}

fn event_to_append(event: IntentEventV1, execution_id: Option<IntentExecutionId>, needed: bool) -> (r:
    IntentLineageAppendV1)
    ensures
        r.deep_view() == append_event(event.deep_view(), execution_id.deep_view(), needed),
{
    let ghost view = event.deep_view();
    let events = if needed {
        vec![event]
    } else {
        Vec::new()
    };
    let r = IntentLineageAppendV1 {
        events,
        entries: Vec::new(),
        outcome: IntentLineageWriteOutcomeV1 { appended: needed, execution_id },
    };
    assert(r.deep_view().events =~= append_event(view, execution_id.deep_view(), needed).events);
    assert(r.deep_view().entries =~= Seq::empty());
    r
}

/// The check that an intent belongs to an accepted plan.
pub open spec fn accepted_intent_verdict(
    accepted: AcceptedIntentPlanProjectionV1View,
    intent_ref: IntentVersionRefView,
) -> Verdict {
    check(
        plan_refs(accepted.plan).contains(intent_ref),
        "Intent execution binding references an unaccepted intent"@,
    )
}

fn ensure_accepted_intent(accepted: &AcceptedIntentPlanProjectionV1, intent_ref: &IntentVersionRef) -> (r:
    Result<(), KernelError>)
    ensures
        verdict(r) == accepted_intent_verdict(accepted.deep_view(), intent_ref.deep_view()),
{
    if plan_holds(&accepted.plan, intent_ref) {
        Ok(())
    } else {
        reject("Intent execution binding references an unaccepted intent")
    }
}

/// The check that a plan is accepted and that a binding fits it.
pub open spec fn binding_fits(
    records: Seq<SessionStreamRecordView>,
    tasks: TaskStateProjectionView,
    admission: IntentStackProjectionV1View,
    binding: IntentExecutionBindingV1View,
) -> Verdict {
    match latest_accepted(admission) {
        None => Err("Intent execution binding requires an accepted IntentPlan"@),
        Some(accepted) => chain(
            accepted_intent_verdict(accepted, binding.intent_ref),
            chain(
                facts_verdict(records),
                execution_source_verdict(records, tasks, binding, accepted),
            ),
        ),
    }
}

fn validate_binding_fits(
    records: &Vec<SessionStreamRecord>,
    tasks: &TaskStateProjection,
    admission: &IntentStackProjectionV1,
    binding: &IntentExecutionBindingV1,
) -> (r: Result<(), KernelError>)
    ensures
        verdict(r) == binding_fits(
            records.deep_view(),
            tasks.deep_view(),
            admission.deep_view(),
            binding.deep_view(),
        ),
{
    match admission.latest_accepted_plan() {
        None => reject("Intent execution binding requires an accepted IntentPlan"),
        Some(accepted) => {
            ensure_accepted_intent(accepted, &binding.intent_ref)?;
            validate_facts(records)?;
            validate_execution_source(records, tasks, binding, accepted)
        },
    }
}

/// Whether a binding is still to be appended to a stream.
pub open spec fn execution_append(
    records: Seq<SessionStreamRecordView>,
    tasks: TaskStateProjectionView,
    binding: IntentExecutionBindingV1View,
) -> Result<bool, Seq<char>> {
    match stack_of(records) {
        Err(m) => Err(m),
        Ok(admission) => match lineage_of(records, admission, tasks) {
            Err(m) => Err(m),
            Ok(p) => match execution_with(p, binding.execution_id) {
                Some(x) => yields(
                    check(
                        x.binding == binding,
                        "deterministic Intent execution id conflicts with durable binding"@,
                    ),
                    false,
                ),
                None => yields(binding_fits(records, tasks, admission, binding), true),
            },
        },
    }
}

/// Tells whether a binding is still to be appended to a stream. A writer calls it on the records at the
/// moment of the append.
pub fn execution_append_needed(
    records: &Vec<SessionStreamRecord>,
    tasks: &TaskStateProjection,
    binding: &IntentExecutionBindingV1,
) -> (r: Result<bool, KernelError>)
    ensures
        outcome(r) == execution_append(
            records.deep_view(),
            tasks.deep_view(),
            binding.deep_view(),
        ),
{
    let admission = IntentStackProjectionV1::from_records(records)?;
    let projection = IntentLineageProjectionV1::from_records(records, &admission, tasks)?;
    if let Some(x) = projection.execution(&binding.execution_id) {
        if !x.binding.same(binding) {
            return Err(
                KernelError::new(
                    "deterministic Intent execution id conflicts with durable binding",
                ),
            );
        }
        return Ok(false);
    }
    validate_binding_fits(records, tasks, &admission, binding)?;
    Ok(true)
}

/// The event that binds an execution to the latest accepted plan.
pub open spec fn bound_event(
    accepted: AcceptedIntentPlanProjectionV1View,
    binding: IntentExecutionBindingV1View,
) -> IntentEventV1View {
    IntentEventV1View::ExecutionBound {
        schema_version: INTENT_CONTRACT_SCHEMA_VERSION,
        stack_id: accepted.plan.stack_id,
        stack_version: accepted.plan.stack_version,
        binding,
    }
}

/// What is to be appended for a binding.
pub open spec fn append_binding(
    records: Seq<SessionStreamRecordView>,
    tasks: TaskStateProjectionView,
    admission: IntentStackProjectionV1View,
    binding: IntentExecutionBindingV1View,
) -> Result<IntentLineageAppendV1View, Seq<char>> {
    match binding_fits(records, tasks, admission, binding) {
        Err(m) => Err(m),
        Ok(_) => {
            let event = bound_event(latest_accepted(admission)->0, binding);
            match event_verdict(event) {
                Err(m) => Err(m),
                Ok(_) => match execution_append(records, tasks, binding) {
                    Err(m) => Err(m),
                    Ok(needed) => Ok(append_event(event, Some(binding.execution_id), needed)),
                },
            }
        },
    }
}

fn append_execution_binding(
    records: &Vec<SessionStreamRecord>,
    tasks: &TaskStateProjection,
    admission: &IntentStackProjectionV1,
    binding: IntentExecutionBindingV1,
) -> (r: Result<IntentLineageAppendV1, KernelError>)
    ensures
        outcome(r) == append_binding(
            records.deep_view(),
            tasks.deep_view(),
            admission.deep_view(),
            binding.deep_view(),
        ),
{
    validate_binding_fits(records, tasks, admission, &binding)?;
    match admission.latest_accepted_plan() {
        None => Err(
            KernelError::new("Intent execution binding requires an accepted IntentPlan"),
        ),
        Some(accepted) => {
            let execution_id = binding.execution_id.duplicate();
            let event = IntentEventV1::ExecutionBound {
                schema_version: INTENT_CONTRACT_SCHEMA_VERSION,
                stack_id: accepted.plan.stack_id.duplicate(),
                stack_version: accepted.plan.stack_version,
                binding: binding.duplicate(),
            };
            event.validate_contract()?;
            let needed = execution_append_needed(records, tasks, &binding)?;
            Ok(event_to_append(event, Some(execution_id), needed))
        },
    }
}

/// The record carries the exact started attempt at a step.
pub open spec fn is_exact_attempt(
    task_id: Seq<char>,
    version: u32,
    step_id: Seq<char>,
    attempt_id: Seq<char>,
) -> spec_fn(SessionStreamRecordView) -> bool {
    |r: SessionStreamRecordView|
        attempt_in(r) matches Some(a) && a.status == TaskParticipantAttemptStatus::Started
            && a.attempt_id == attempt_id && a.task_id == task_id && a.plan_version == Some(version)
            && a.step_id == Some(step_id)
}

/// The binding of an execution that changes files.
pub open spec fn mutation_binding(
    accepted: AcceptedIntentPlanProjectionV1View,
    intent_ref: IntentVersionRefView,
    origin: IntentExecutionOriginV1View,
    source_event_id: Seq<char>,
) -> IntentExecutionBindingV1View {
    IntentExecutionBindingV1View {
        execution_id: execution_id_of(accepted, intent_ref, origin, source_event_id),
        intent_ref,
        origin,
        binding_kind: IntentExecutionBindingKind::Mutation,
        source_event_id,
    }
}

/// What is to be appended for the execution of an intent at a step of a task.
pub open spec fn task_execution_append(
    session: SessionView,
    intent_ref: IntentVersionRefView,
    task_id: Seq<char>,
    version: u32,
    step_id: Seq<char>,
    attempt_id: Seq<char>,
) -> Result<IntentLineageAppendV1View, Seq<char>> {
    match session.durable_records {
        None => Err("Intent lineage requires a durable session"@),
        Some(records) => match stack_of(records) {
            Err(m) => Err(m),
            Ok(admission) => match latest_accepted(admission) {
                None => Err("Task Intent execution requires an accepted IntentPlan"@),
                Some(accepted) => match facts_verdict(records) {
                    Err(m) => Err(m),
                    Ok(_) => match first_where(
                        records,
                        is_exact_attempt(task_id, version, step_id, attempt_id),
                    ) {
                        None => Err(
                            "Task Intent execution has no exact started participant attempt"@,
                        ),
                        Some(i) => append_binding(
                            records,
                            session.tasks,
                            admission,
                            mutation_binding(
                                accepted,
                                intent_ref,
                                IntentExecutionOriginV1View::Task {
                                    task_id,
                                    task_plan_version: version,
                                    step_id,
                                    attempt_id: Some(attempt_id),
                                },
                                records[i].event_id,
                            ),
                        ),
                    },
                },
            },
        },
    }
}

fn same_opt(a: &Option<String>, b: &str) -> (r: bool)
    ensures
        r == (a.deep_view() == Some(b@)),
{
    match a {
        Some(x) => same_text(x.as_str(), b),
        None => false,
    }
}

/// Decides what is to be appended to bind an intent to the exact started attempt at a step of a task.
/// Where the stream holds exactly this binding already, there is nothing to append.
pub fn append_task_intent_execution_binding(
    session: &Session,
    intent_ref: IntentVersionRef,
    task_id: &str,
    task_plan_version: u32,
    step_id: &str,
    attempt_id: &str,
) -> (r: Result<IntentLineageAppendV1, KernelError>)
    ensures
        outcome(r) == task_execution_append(
            session.deep_view(),
            intent_ref.deep_view(),
            task_id@,
            task_plan_version,
            step_id@,
            attempt_id@,
        ),
{
    let records = match &session.durable_records {
        None => {
            return Err(KernelError::new("Intent lineage requires a durable session"));
        },
        Some(records) => records,
    };
    let admission = IntentStackProjectionV1::from_records(records)?;
    let accepted = match admission.latest_accepted_plan() {
        None => {
            return Err(
                KernelError::new("Task Intent execution requires an accepted IntentPlan"),
            );
        },
        Some(accepted) => accepted,
    };
    validate_facts(records)?;
    let ghost p = is_exact_attempt(task_id@, task_plan_version, step_id@, attempt_id@);
    let found = find_first(
        records,
        |r: &SessionStreamRecord| -> (b: bool)
            ensures
                b == p(r.deep_view())
            {
                match attempt_of(r) {
                    Some(a) => a.status == TaskParticipantAttemptStatus::Started && same_text(
                        a.attempt_id.as_str(),
                        attempt_id,
                    ) && same_text(a.task_id.as_str(), task_id) && a.plan_version.same(
                        &Some(task_plan_version),
                    ) && same_opt(&a.step_id, step_id),
                    None => false,
                }
            },
        Ghost(p),
    );
    match found {
        None => Err(
            KernelError::new("Task Intent execution has no exact started participant attempt"),
        ),
        Some(i) => {
            assert(records.deep_view()[i as int] == records@[i as int].deep_view());
            let origin = IntentExecutionOriginV1::Task {
                task_id: task_id.to_owned(),
                task_plan_version,
                step_id: step_id.to_owned(),
                attempt_id: Some(attempt_id.to_owned()),
            };
            let binding = IntentExecutionBindingV1 {
                execution_id: deterministic_execution_id(
                    accepted,
                    &intent_ref,
                    &origin,
                    &records[i].event_id,
                ),
                intent_ref,
                origin,
                binding_kind: IntentExecutionBindingKind::Mutation,
                source_event_id: records[i].event_id.duplicate(),
            };
            append_execution_binding(records, &session.tasks, &admission, binding)
        },
    }
}

/// The record starts the exact foreground attempt of a run.
pub open spec fn is_exact_run(run_id: Seq<char>, attempt_id: Seq<char>) -> spec_fn(
    SessionStreamRecordView,
) -> bool {
    |r: SessionStreamRecordView|
        agent_attempt_in(r) matches Some(a) && a.thread_id == run_id && a.attempt_id == attempt_id
            && !a.background
}

/// What is to be appended for the execution of the root of a chat.
pub open spec fn chat_execution_append(
    session: SessionView,
    intent_ref: IntentVersionRefView,
    run_id: Seq<char>,
    source_turn_id: Seq<char>,
    attempt_id: Seq<char>,
) -> Result<IntentLineageAppendV1View, Seq<char>> {
    match session.durable_records {
        None => Err("Intent lineage requires a durable session"@),
        Some(records) => match stack_of(records) {
            Err(m) => Err(m),
            Ok(admission) => match latest_accepted(admission) {
                None => Err("Chat Intent execution requires an accepted IntentPlan"@),
                Some(accepted) => match facts_verdict(records) {
                    Err(m) => Err(m),
                    Ok(_) => match first_where(records, is_exact_run(run_id, attempt_id)) {
                        None => Err(
                            "Chat Intent execution has no exact foreground agent-run attempt"@,
                        ),
                        Some(i) => append_binding(
                            records,
                            session.tasks,
                            admission,
                            mutation_binding(
                                accepted,
                                intent_ref,
                                IntentExecutionOriginV1View::Chat {
                                    root_logical_run_id: run_id,
                                    source_turn_id,
                                    attempt_id: Some(attempt_id),
                                },
                                records[i].event_id,
                            ),
                        ),
                    },
                },
            },
        },
    }
}

/// Decides what is to be appended to bind the root of a chat to the exact foreground attempt of its
/// run.
pub fn append_chat_intent_execution_binding(
    session: &Session,
    intent_ref: IntentVersionRef,
    root_logical_run_id: &str,
    source_turn_id: &str,
    attempt_id: &str,
) -> (r: Result<IntentLineageAppendV1, KernelError>)
    ensures
        outcome(r) == chat_execution_append(
            session.deep_view(),
            intent_ref.deep_view(),
            root_logical_run_id@,
            source_turn_id@,
            attempt_id@,
        ),
{
    let records = match &session.durable_records {
        None => {
            return Err(KernelError::new("Intent lineage requires a durable session"));
        },
        Some(records) => records,
    };
    let admission = IntentStackProjectionV1::from_records(records)?;
    let accepted = match admission.latest_accepted_plan() {
        None => {
            return Err(
                KernelError::new("Chat Intent execution requires an accepted IntentPlan"),
            );
        },
        Some(accepted) => accepted,
    };
    validate_facts(records)?;
    let ghost p = is_exact_run(root_logical_run_id@, attempt_id@);
    let found = find_first(
        records,
        |r: &SessionStreamRecord| -> (b: bool)
            ensures
                b == p(r.deep_view())
            {
                match agent_attempt_of(r) {
                    Some(a) => same_text(a.thread_id.as_str(), root_logical_run_id) && same_text(
                        a.attempt_id.as_str(),
                        attempt_id,
                    ) && !a.background,
                    None => false,
                }
            },
        Ghost(p),
    );
    match found {
        None => Err(
            KernelError::new("Chat Intent execution has no exact foreground agent-run attempt"),
        ),
        Some(i) => {
            assert(records.deep_view()[i as int] == records@[i as int].deep_view());
            let origin = IntentExecutionOriginV1::Chat {
                root_logical_run_id: root_logical_run_id.to_owned(),
                source_turn_id: source_turn_id.to_owned(),
                attempt_id: Some(attempt_id.to_owned()),
            };
            let binding = IntentExecutionBindingV1 {
                execution_id: deterministic_execution_id(
                    accepted,
                    &intent_ref,
                    &origin,
                    &records[i].event_id,
                ),
                intent_ref,
                origin,
                binding_kind: IntentExecutionBindingKind::Mutation,
                source_event_id: records[i].event_id.duplicate(),
            };
            append_execution_binding(records, &session.tasks, &admission, binding)
        },
    }
}

// Change sets.

/// Whether the binding of change sets to an execution is still to be appended to a stream.
pub open spec fn changesets_append(
    records: Seq<SessionStreamRecordView>,
    tasks: TaskStateProjectionView,
    execution_id: Seq<char>,
    ids: Seq<Seq<char>>,
) -> Result<bool, Seq<char>> {
    match stack_of(records) {
        Err(m) => Err(m),
        Ok(admission) => match lineage_of(records, admission, tasks) {
            Err(m) => Err(m),
            Ok(p) => match execution_with(p, execution_id) {
                None => Err("Intent ChangeSet binding references an unknown execution"@),
                Some(x) => if x.changeset_ids.len() > 0 {
                    yields(
                        check(
                            x.changeset_ids == ids,
                            "Intent execution already has a different ChangeSet binding"@,
                        ),
                        false,
                    )
                } else {
                    yields(
                        chain(facts_verdict(records), check_each(ids, proposed(records))),
                        true,
                    )
                },
            },
        },
    }
}

/// Tells whether the binding of change sets to an execution is still to be appended to a stream.
pub fn changesets_append_needed(
    records: &Vec<SessionStreamRecord>,
    tasks: &TaskStateProjection,
    execution_id: &IntentExecutionId,
    ids: &Vec<String>,
) -> (r: Result<bool, KernelError>)
    ensures
        outcome(r) == changesets_append(
            records.deep_view(),
            tasks.deep_view(),
            execution_id.deep_view(),
            ids.deep_view(),
        ),
{
    let admission = IntentStackProjectionV1::from_records(records)?;
    let projection = IntentLineageProjectionV1::from_records(records, &admission, tasks)?;
    let x = match projection.execution(execution_id) {
        None => {
            return Err(
                KernelError::new("Intent ChangeSet binding references an unknown execution"),
            );
        },
        Some(x) => x,
    };
    if x.changeset_ids.len() > 0 {
        if !x.changeset_ids.same(ids) {
            return Err(
                KernelError::new("Intent execution already has a different ChangeSet binding"),
            );
        }
        return Ok(false);
    }
    validate_facts(records)?;
    validate_changesets(records, ids)?;
    Ok(true)
}

/// The event that binds change sets to an execution.
pub open spec fn changesets_event(
    intent_ref: IntentVersionRefView,
    execution_id: Seq<char>,
    changeset_ids: Seq<Seq<char>>,
) -> IntentEventV1View {
    IntentEventV1View::ChangeSetBound {
        schema_version: INTENT_CONTRACT_SCHEMA_VERSION,
        intent_ref,
        execution_id,
        changeset_ids,
    }
}

/// What is to be appended for the change sets of an execution.
pub open spec fn append_changesets(
    session: SessionView,
    execution_id: Seq<char>,
    ids: Seq<Seq<char>>,
) -> Result<IntentLineageAppendV1View, Seq<char>> {
    if ids.len() == 0 {
        Err("Intent execution requires at least one ChangeSet"@)
    } else {
        match session.durable_records {
            None => Err("Intent ChangeSet binding requires a durable session"@),
            Some(records) => match stack_of(records) {
                Err(m) => Err(m),
                Ok(admission) => match lineage_of(records, admission, session.tasks) {
                    Err(m) => Err(m),
                    Ok(p) => match execution_with(p, execution_id) {
                        None => Err("Intent ChangeSet binding references an unknown execution"@),
                        Some(x) => {
                            let event = changesets_event(x.binding.intent_ref, execution_id, ids);
                            match chain(
                                facts_verdict(records),
                                chain(check_each(ids, proposed(records)), event_verdict(event)),
                            ) {
                                Err(m) => Err(m),
                                Ok(_) => match changesets_append(
                                    records,
                                    session.tasks,
                                    execution_id,
                                    ids,
                                ) {
                                    Err(m) => Err(m),
                                    Ok(needed) => Ok(
                                        append_event(event, Some(execution_id), needed),
                                    ),
                                },
                            }
                        },
                    },
                },
            },
        }
    }
}

/// Decides what is to be appended to bind proposed change sets to one exact execution.
pub fn append_intent_changeset_binding(
    session: &Session,
    execution_id: &IntentExecutionId,
    changeset_ids: Vec<String>,
) -> (r: Result<IntentLineageAppendV1, KernelError>)
    ensures
        outcome(r) == append_changesets(
            session.deep_view(),
            execution_id.deep_view(),
            changeset_ids.deep_view(),
        ),
{
    if changeset_ids.len() == 0 {
        return Err(KernelError::new("Intent execution requires at least one ChangeSet"));
    }
    let records = match &session.durable_records {
        None => {
            return Err(KernelError::new("Intent ChangeSet binding requires a durable session"));
        },
        Some(records) => records,
    };
    let admission = IntentStackProjectionV1::from_records(records)?;
    let projection = IntentLineageProjectionV1::from_records(records, &admission, &session.tasks)?;
    let x = match projection.execution(execution_id) {
        None => {
            return Err(
                KernelError::new("Intent ChangeSet binding references an unknown execution"),
            );
        },
        Some(x) => x,
    };
    validate_facts(records)?;
    validate_changesets(records, &changeset_ids)?;
    let event = IntentEventV1::ChangeSetBound {
        schema_version: INTENT_CONTRACT_SCHEMA_VERSION,
        intent_ref: x.binding.intent_ref.duplicate(),
        execution_id: execution_id.duplicate(),
        changeset_ids: changeset_ids.duplicate(),
    };
    event.validate_contract()?;
    let needed = changesets_append_needed(records, &session.tasks, execution_id, &changeset_ids)?;
    Ok(event_to_append(event, Some(execution_id.duplicate()), needed))
}

// The change set of a direct mutation of a chat.

/// A prepared and a committed mutation are two ends of one change of the workspace, within the window of
/// an execution.
pub open spec fn is_mutation_pair(
    prepared: MutationPreparedView,
    prepared_sequence: u64,
    committed: MutationCommittedView,
    committed_sequence: u64,
    workspace_id: Seq<char>,
    execution_sequence: u64,
    end: Option<u64>,
) -> bool {
    &&& prepared_sequence > execution_sequence
    &&& before_end(prepared_sequence, end)
    &&& before_end(committed_sequence, end)
    &&& committed_sequence > prepared_sequence
    &&& prepared.operation_id == committed.operation_id
    &&& prepared.workspace_id == workspace_id
    &&& committed.workspace_id == Some(workspace_id)
    &&& prepared.batch_id == committed.batch_id
    &&& committed.workspace_revision > prepared.base_workspace_revision
    &&& prepared.subject == committed.committed_subject
    &&& prepared.intended_after_hash == committed.observed_after_hash
}

/// What a change does, told by which contents there were before and after it.
pub open spec fn direct_action(before: Option<Seq<char>>, after: Option<Seq<char>>) -> Option<
    ChangeSetFileAction,
> {
    match (before, after) {
        (None, Some(_)) => Some(ChangeSetFileAction::Create),
        (Some(_), Some(_)) => Some(ChangeSetFileAction::Update),
        (Some(_), None) => Some(ChangeSetFileAction::Delete),
        (None, None) => None,
    }
}

/// The path of a controlled file mutation, or why it has none.
pub open spec fn direct_path(subject: MutationSubjectView) -> Result<Seq<char>, Seq<char>> {
    match subject {
        MutationSubjectView::File { portable_path, normalized, .. } => if !normalized {
            Err("Chat direct ChangeSet requires a normalized workspace-relative file path"@)
        } else {
            match portable_path {
                None => Err("Chat direct ChangeSet path is not valid UTF-8"@),
                Some(path) => Ok(path),
            }
        },
        _ => Err("Chat direct ChangeSet only supports controlled file mutations"@),
    }
}

/// The change set that stands for one mutation.
pub open spec fn direct_change_set(
    id: Seq<char>,
    path: Seq<char>,
    action: ChangeSetFileAction,
    before: Option<Seq<char>>,
    after: Option<Seq<char>>,
) -> ChangeSetView {
    ChangeSetView {
        id,
        title: "Controlled Chat file mutation"@,
        summary: "Runtime-projected from exact mutation prepare and commit events."@,
        risk: ChangeSetRisk::Low,
        files: seq![
            ChangeSetFileView {
                path,
                previous_path: None,
                action,
                risk: ChangeSetRisk::Low,
                before_hash: before,
                after_hash: after,
                diff_hash: None,
                additions: 0,
                deletions: 0,
                validations: seq![
                    ChangeSetValidationView {
                        kind: ChangeSetValidationKind::Hash,
                        status: ChangeSetValidationStatus::Passed,
                        message: Some("projected from controlled mutation evidence"@),
                    },
                ],
            },
        ],
        validations: Seq::empty(),
    }
}

/// The result of the change set that stands for one mutation.
pub open spec fn direct_result(id: Seq<char>, path: Seq<char>, action: ChangeSetFileAction) -> ChangeSetResultView {
    ChangeSetResultView {
        id,
        status: ChangeSetResultStatus::Applied,
        file_results: seq![
            ChangeSetFileResultView {
                path,
                action,
                status: ChangeSetFileResultStatus::Applied,
                message: Some("confirmed by controlled mutation commit"@),
                validations: Seq::empty(),
            },
        ],
        message: Some("runtime-projected controlled mutation"@),
    }
}

/// The change set of a mutation of a chat, with its result: path, action and hashes come from the pair
/// of prepared and committed mutation alone.
pub open spec fn direct_changeset_of(
    execution_id: Seq<char>,
    prepared_record: SessionStreamRecordView,
    prepared: MutationPreparedView,
    committed_record: SessionStreamRecordView,
    committed: MutationCommittedView,
    workspace_id: Seq<char>,
    execution_sequence: u64,
    end: Option<u64>,
) -> Result<(ChangeSetView, ChangeSetResultView), Seq<char>> {
    if !is_mutation_pair(
        prepared,
        prepared_record.stream_sequence,
        committed,
        committed_record.stream_sequence,
        workspace_id,
        execution_sequence,
        end,
    ) {
        Err("Chat mutation prepare/commit lineage is inconsistent"@)
    } else {
        match direct_path(prepared.subject) {
            Err(m) => Err(m),
            Ok(path) => match direct_action(prepared.before_hash, committed.observed_after_hash) {
                None => Err("Chat mutation has neither before nor after file content"@),
                Some(action) => {
                    let id = changeset_id_of(
                        execution_id,
                        prepared_record.event_id,
                        committed_record.event_id,
                        path,
                    );
                    Ok(
                        (
                            direct_change_set(
                                id,
                                path,
                                action,
                                prepared.before_hash,
                                committed.observed_after_hash,
                            ),
                            direct_result(id, path, action),
                        ),
                    )
                },
            },
        }
    }
}

fn build_direct_change_set(
    id: String,
    path: String,
    action: ChangeSetFileAction,
    before: Option<String>,
    after: Option<String>,
) -> (r: ChangeSet)
    ensures
        r.deep_view() == direct_change_set(
            id@,
            path@,
            action,
            before.deep_view(),
            after.deep_view(),
        ),
{
    let ghost expected = direct_change_set(
        id@,
        path@,
        action,
        before.deep_view(),
        after.deep_view(),
    );
    let validation = ChangeSetValidation {
        kind: ChangeSetValidationKind::Hash,
        status: ChangeSetValidationStatus::Passed,
        message: Some("projected from controlled mutation evidence".to_owned()),
    };
    let file = ChangeSetFile {
        path,
        previous_path: None,
        action,
        risk: ChangeSetRisk::Low,
        before_hash: before,
        after_hash: after,
        diff_hash: None,
        additions: 0,
        deletions: 0,
        validations: vec![validation],
    };
    assert(file.deep_view().validations =~= expected.files[0].validations);
    let r = ChangeSet {
        id,
        title: "Controlled Chat file mutation".to_owned(),
        summary: "Runtime-projected from exact mutation prepare and commit events.".to_owned(),
        risk: ChangeSetRisk::Low,
        files: vec![file],
        validations: Vec::new(),
    };
    assert(r.deep_view().files[0] == file.deep_view());
    assert(r.deep_view().files =~= expected.files);
    assert(r.deep_view().validations =~= expected.validations);
    r
}

fn build_direct_result(id: String, path: String, action: ChangeSetFileAction) -> (r: ChangeSetResult)
    ensures
        r.deep_view() == direct_result(id@, path@, action),
{
    let ghost expected = direct_result(id@, path@, action);
    let file = ChangeSetFileResult {
        path,
        action,
        status: ChangeSetFileResultStatus::Applied,
        message: Some("confirmed by controlled mutation commit".to_owned()),
        validations: Vec::new(),
    };
    assert(file.deep_view().validations =~= Seq::empty());
    let r = ChangeSetResult {
        id,
        status: ChangeSetResultStatus::Applied,
        file_results: vec![file],
        message: Some("runtime-projected controlled mutation".to_owned()),
    };
    assert(r.deep_view().file_results[0] == file.deep_view());
    assert(r.deep_view().file_results =~= expected.file_results);
    r
}

fn ends_before(sequence: u64, end: Option<u64>) -> (r: bool)
    ensures
        r == before_end(sequence, end),
{
    match end {
        Some(n) => sequence < n,
        None => true,
    }
}

/// Projects the change set of a mutation of a chat, with its result.
pub(crate) fn direct_mutation_changeset(
    execution_id: &IntentExecutionId,
    prepared_record: &SessionStreamRecord,
    prepared: &MutationPrepared,
    committed_record: &SessionStreamRecord,
    committed: &MutationCommitted,
    workspace_id: &str,
    execution_sequence: u64,
    end: Option<u64>,
) -> (r: Result<(ChangeSet, ChangeSetResult), KernelError>)
    ensures
        match direct_changeset_of(
            execution_id.deep_view(),
            prepared_record.deep_view(),
            prepared.deep_view(),
            committed_record.deep_view(),
            committed.deep_view(),
            workspace_id@,
            execution_sequence,
            end,
        ) {
            Ok(x) => r matches Ok(y) && y.0.deep_view() == x.0 && y.1.deep_view() == x.1,
            Err(m) => r matches Err(e) && e.deep_view() == m,
        },
{
    if prepared_record.stream_sequence <= execution_sequence || !ends_before(
        prepared_record.stream_sequence,
        end,
    ) || !ends_before(committed_record.stream_sequence, end) || committed_record.stream_sequence
        <= prepared_record.stream_sequence || prepared.operation_id != committed.operation_id
        || !same_text(prepared.workspace_id.as_str(), workspace_id) || !same_opt(
        &committed.workspace_id,
        workspace_id,
    ) || !prepared.batch_id.same(&committed.batch_id) || committed.workspace_revision
        <= prepared.base_workspace_revision || !prepared.subject.same(&committed.committed_subject)
        || !prepared.intended_after_hash.same(&committed.observed_after_hash) {
        return Err(KernelError::new("Chat mutation prepare/commit lineage is inconsistent"));
    }
    let path = match &prepared.subject {
        MutationSubject::File { portable_path, normalized, .. } => {
            if !*normalized {
                return Err(
                    KernelError::new(
                        "Chat direct ChangeSet requires a normalized workspace-relative file path",
                    ),
                );
            }
            match portable_path {
                None => {
                    return Err(KernelError::new("Chat direct ChangeSet path is not valid UTF-8"));
                },
                Some(path) => path,
            }
        },
        _ => {
            return Err(
                KernelError::new(
                    "Chat direct ChangeSet only supports controlled file mutations",
                ),
            );
        },
    };
    let action = match (&prepared.before_hash, &committed.observed_after_hash) {
        (None, Some(_)) => ChangeSetFileAction::Create,
        (Some(_), Some(_)) => ChangeSetFileAction::Update,
        (Some(_), None) => ChangeSetFileAction::Delete,
        (None, None) => {
            return Err(
                KernelError::new("Chat mutation has neither before nor after file content"),
            );
        },
    };
    let id = deterministic_changeset_id(
        execution_id,
        prepared_record.event_id.as_str(),
        committed_record.event_id.as_str(),
        path.as_str(),
    );
    let result = build_direct_result(id.duplicate(), path.duplicate(), action);
    let change_set = build_direct_change_set(
        id,
        path.duplicate(),
        action,
        prepared.before_hash.duplicate(),
        committed.observed_after_hash.duplicate(),
    );
    Ok((change_set, result))
}

/// Whether the change set of a mutation of a chat is still to be appended to a stream.
pub open spec fn direct_append(
    records: Seq<SessionStreamRecordView>,
    tasks: TaskStateProjectionView,
    execution_id: Seq<char>,
    change_set: ChangeSetView,
) -> Result<bool, Seq<char>> {
    match stack_of(records) {
        Err(m) => Err(m),
        Ok(admission) => match lineage_of(records, admission, tasks) {
            Err(m) => Err(m),
            Ok(p) => match execution_with(p, execution_id) {
                None => Err("Chat mutation projection references an unknown execution"@),
                Some(x) => if x.changeset_ids.len() > 0 {
                    yields(
                        chain(
                            check(
                                x.changeset_ids == seq![change_set.id],
                                "Chat execution already has a different ChangeSet binding"@,
                            ),
                            chain(
                                facts_verdict(records),
                                check(
                                    proposal(records, change_set.id) == Some(change_set),
                                    "synthetic Chat ChangeSet conflicts with durable state"@,
                                ),
                            ),
                        ),
                        false,
                    )
                } else {
                    yields(
                        chain(
                            facts_verdict(records),
                            check(
                                proposal(records, change_set.id) is None,
                                "synthetic Chat ChangeSet id already exists"@,
                            ),
                        ),
                        true,
                    )
                },
            },
        },
    }
}

/// Tells whether the change set of a mutation of a chat is still to be appended to a stream.
pub fn direct_append_needed(
    records: &Vec<SessionStreamRecord>,
    tasks: &TaskStateProjection,
    execution_id: &IntentExecutionId,
    change_set: &ChangeSet,
) -> (r: Result<bool, KernelError>)
    ensures
        outcome(r) == direct_append(
            records.deep_view(),
            tasks.deep_view(),
            execution_id.deep_view(),
            change_set.deep_view(),
        ),
{
    let admission = IntentStackProjectionV1::from_records(records)?;
    let projection = IntentLineageProjectionV1::from_records(records, &admission, tasks)?;
    let x = match projection.execution(execution_id) {
        None => {
            return Err(
                KernelError::new("Chat mutation projection references an unknown execution"),
            );
        },
        Some(x) => x,
    };
    if x.changeset_ids.len() > 0 {
        let wanted = vec![change_set.id.duplicate()];
        assert(wanted.deep_view() =~= seq![change_set.deep_view().id]);
        if !x.changeset_ids.same(&wanted) {
            return Err(
                KernelError::new("Chat execution already has a different ChangeSet binding"),
            );
        }
        validate_facts(records)?;
        let same = match find_proposal(records, change_set.id.as_str()) {
            Some(c) => c.same(change_set),
            None => false,
        };
        if !same {
            return Err(KernelError::new("synthetic Chat ChangeSet conflicts with durable state"));
        }
        return Ok(false);
    }
    validate_facts(records)?;
    if find_proposal(records, change_set.id.as_str()).is_some() {
        return Err(KernelError::new("synthetic Chat ChangeSet id already exists"));
    }
    Ok(true)
}

/// The record is the event `id` and prepares a mutation.
pub open spec fn is_prepare_event(id: Seq<char>) -> spec_fn(SessionStreamRecordView) -> bool {
    |r: SessionStreamRecordView| r.event_id == id && prepared_in(r) is Some
}

/// The record is the event `id` and commits a mutation.
pub open spec fn is_commit_event(id: Seq<char>) -> spec_fn(SessionStreamRecordView) -> bool {
    |r: SessionStreamRecordView| r.event_id == id && committed_in(r) is Some
}

/// What is to be appended, in this order, for the change set of a mutation of a chat: its binding, its
/// proposal and its result.
pub open spec fn direct_batch(
    intent_ref: IntentVersionRefView,
    execution_id: Seq<char>,
    change_set: ChangeSetView,
    result: ChangeSetResultView,
    needed: bool,
) -> IntentLineageAppendV1View {
    IntentLineageAppendV1View {
        entries: if needed {
            seq![
                ControlEntryView::ChangeSetProposed(change_set),
                ControlEntryView::ChangeSetApplied(result),
            ]
        } else {
            Seq::empty()
        },
        ..append_event(
            changesets_event(intent_ref, execution_id, seq![change_set.id]),
            Some(execution_id),
            needed,
        )
    }
}

/// The change set of the mutation between two events, for an execution of a chat.
pub open spec fn direct_changeset_between(
    records: Seq<SessionStreamRecordView>,
    accepted: AcceptedIntentPlanProjectionV1View,
    x: IntentExecutionLineageV1View,
    execution_id: Seq<char>,
    prepared_event_id: Seq<char>,
    committed_event_id: Seq<char>,
) -> Result<(ChangeSetView, ChangeSetResultView), Seq<char>> {
    match first_where(records, is_prepare_event(prepared_event_id)) {
        None => Err("Chat mutation projection has no exact prepare event"@),
        Some(i) => match first_where(records, is_commit_event(committed_event_id)) {
            None => Err("Chat mutation projection has no exact commit event"@),
            Some(k) => direct_changeset_of(
                execution_id,
                records[i],
                prepared_in(records[i])->0,
                records[k],
                committed_in(records[k])->0,
                accepted.plan.workspace_id,
                x.binding_stream_sequence,
                window_end(records, x.binding),
            ),
        },
    }
}

/// What is to be appended for the mutation between two events of an execution of a chat.
pub open spec fn append_direct_changeset(
    session: SessionView,
    execution_id: Seq<char>,
    prepared_event_id: Seq<char>,
    committed_event_id: Seq<char>,
) -> Result<IntentLineageAppendV1View, Seq<char>> {
    match session.durable_records {
        None => Err("Chat mutation projection requires a durable session"@),
        Some(records) => match stack_of(records) {
            Err(m) => Err(m),
            Ok(admission) => match lineage_of(records, admission, session.tasks) {
                Err(m) => Err(m),
                Ok(p) => match execution_with(p, execution_id) {
                    None => Err("Chat mutation projection references an unknown execution"@),
                    Some(x) => if !(x.binding.origin is Chat) {
                        Err("direct mutation projection is only valid for Chat execution"@)
                    } else {
                        match latest_accepted(admission) {
                            None => Err(
                                "Chat mutation projection requires an accepted IntentPlan"@,
                            ),
                            Some(accepted) => match facts_verdict(records) {
                                Err(m) => Err(m),
                                Ok(_) => match direct_changeset_between(
                                    records,
                                    accepted,
                                    x,
                                    execution_id,
                                    prepared_event_id,
                                    committed_event_id,
                                ) {
                                    Err(m) => Err(m),
                                    Ok(made) => match event_verdict(
                                        changesets_event(
                                            x.binding.intent_ref,
                                            execution_id,
                                            seq![made.0.id],
                                        ),
                                    ) {
                                        Err(m) => Err(m),
                                        Ok(_) => match direct_append(
                                            records,
                                            session.tasks,
                                            execution_id,
                                            made.0,
                                        ) {
                                            Err(m) => Err(m),
                                            Ok(needed) => Ok(
                                                direct_batch(
                                                    x.binding.intent_ref,
                                                    execution_id,
                                                    made.0,
                                                    made.1,
                                                    needed,
                                                ),
                                            ),
                                        },
                                    },
                                },
                            },
                        }
                    },
                },
            },
        },
    }
}

fn find_changeset_between(
    records: &Vec<SessionStreamRecord>,
    accepted: &AcceptedIntentPlanProjectionV1,
    x: &IntentExecutionLineageV1,
    execution_id: &IntentExecutionId,
    prepared_event_id: &str,
    committed_event_id: &str,
) -> (r: Result<(ChangeSet, ChangeSetResult), KernelError>)
    ensures
        match direct_changeset_between(
            records.deep_view(),
            accepted.deep_view(),
            x.deep_view(),
            execution_id.deep_view(),
            prepared_event_id@,
            committed_event_id@,
        ) {
            Ok(a) => r matches Ok(b) && b.0.deep_view() == a.0 && b.1.deep_view() == a.1,
            Err(m) => r matches Err(e) && e.deep_view() == m,
        },
{
    let prepare = find_first(
        records,
        |r: &SessionStreamRecord| -> (b: bool)
            ensures
                b == is_prepare_event(prepared_event_id@)(r.deep_view())
            { same_text(r.event_id.as_str(), prepared_event_id) && prepared_of(r).is_some() },
        Ghost(is_prepare_event(prepared_event_id@)),
    );
    let i = match prepare {
        None => {
            return Err(KernelError::new("Chat mutation projection has no exact prepare event"));
        },
        Some(i) => i,
    };
    let commit = find_first(
        records,
        |r: &SessionStreamRecord| -> (b: bool)
            ensures
                b == is_commit_event(committed_event_id@)(r.deep_view())
            { same_text(r.event_id.as_str(), committed_event_id) && committed_of(r).is_some() },
        Ghost(is_commit_event(committed_event_id@)),
    );
    let k = match commit {
        None => {
            return Err(KernelError::new("Chat mutation projection has no exact commit event"));
        },
        Some(k) => k,
    };
    assert(records.deep_view()[i as int] == records@[i as int].deep_view());
    assert(records.deep_view()[k as int] == records@[k as int].deep_view());
    match (prepared_of(&records[i]), committed_of(&records[k])) {
        (Some(prepared), Some(committed)) => direct_mutation_changeset(
            execution_id,
            &records[i],
            prepared,
            &records[k],
            committed,
            accepted.plan.workspace_id.as_str(),
            x.binding_stream_sequence,
            chat_attempt_window_end(records, &x.binding),
        ),
        _ => {
            assert(false);
            vstd::pervasive::unreached()
        },
    }
}

/// Decides what is to be appended for the mutation between two events of an execution of a chat: a
/// change set of one file that is projected from the two events alone, with its binding.
#[verifier::rlimit(40)]
pub fn append_chat_direct_mutation_changeset_binding(
    session: &Session,
    execution_id: &IntentExecutionId,
    prepared_event_id: &str,
    committed_event_id: &str,
) -> (r: Result<IntentLineageAppendV1, KernelError>)
    ensures
        outcome(r) == append_direct_changeset(
            session.deep_view(),
            execution_id.deep_view(),
            prepared_event_id@,
            committed_event_id@,
        ),
{
    let records = match &session.durable_records {
        None => {
            return Err(KernelError::new("Chat mutation projection requires a durable session"));
        },
        Some(records) => records,
    };
    let admission = IntentStackProjectionV1::from_records(records)?;
    let projection = IntentLineageProjectionV1::from_records(records, &admission, &session.tasks)?;
    let x = match projection.execution(execution_id) {
        None => {
            return Err(
                KernelError::new("Chat mutation projection references an unknown execution"),
            );
        },
        Some(x) => x,
    };
    match &x.binding.origin {
        IntentExecutionOriginV1::Chat { .. } => {},
        _ => {
            return Err(
                KernelError::new("direct mutation projection is only valid for Chat execution"),
            );
        },
    }
    let accepted = match admission.latest_accepted_plan() {
        None => {
            return Err(
                KernelError::new("Chat mutation projection requires an accepted IntentPlan"),
            );
        },
        Some(accepted) => accepted,
    };
    validate_facts(records)?;
    let (change_set, result) = find_changeset_between(
        records,
        accepted,
        x,
        execution_id,
        prepared_event_id,
        committed_event_id,
    )?;
    let ids = vec![change_set.id.duplicate()];
    assert(ids.deep_view() =~= seq![change_set.deep_view().id]);
    let event = IntentEventV1::ChangeSetBound {
        schema_version: INTENT_CONTRACT_SCHEMA_VERSION,
        intent_ref: x.binding.intent_ref.duplicate(),
        execution_id: execution_id.duplicate(),
        changeset_ids: ids,
    };
    event.validate_contract()?;
    let needed = direct_append_needed(records, &session.tasks, execution_id, &change_set)?;
    let ghost set_view = change_set.deep_view();
    let ghost result_view = result.deep_view();
    let mut r = event_to_append(event, Some(execution_id.duplicate()), needed);
    if needed {
        r.entries = vec![
            ControlEntry::ChangeSetProposed(change_set),
            ControlEntry::ChangeSetApplied(result),
        ];
        assert(r.entries.deep_view() =~= seq![
            ControlEntryView::ChangeSetProposed(set_view),
            ControlEntryView::ChangeSetApplied(result_view),
        ]);
    }
    Ok(r)
}

// Evidence.

/// The check of a piece of evidence at the moment of its append.
pub open spec fn fresh_evidence_verdict(
    records: Seq<SessionStreamRecordView>,
    p: IntentLineageProjectionV1View,
) -> spec_fn(IntentCriterionEvidenceV1View) -> Verdict {
    |e: IntentCriterionEvidenceV1View|
        chain(
            basic_evidence_verdict(records, e),
            match latest_execution(p, e.intent_ref) {
                None => Err("Intent verification evidence has no execution binding"@),
                Some(x) => chain(
                    check(
                        same_items(e.changeset_ids, x.changeset_ids),
                        "Intent verification evidence does not match execution ChangeSets"@,
                    ),
                    if e.level != IntentCriterionEvidenceLevel::SystemVerified {
                        Ok(())
                    } else {
                        chain(
                            system_evidence_verdict(records, e, x),
                            check(
                                p.current_parent_snapshot_id == Some(e.parent_snapshot_id),
                                "system Intent evidence receipt is stale for the parent workspace"@,
                            ),
                        )
                    },
                ),
            },
        )
}

fn validate_evidence_batch(
    records: &Vec<SessionStreamRecord>,
    projection: &IntentLineageProjectionV1,
    evidence: &Vec<IntentCriterionEvidenceV1>,
) -> (r: Result<(), KernelError>)
    ensures
        verdict(r) == check_each(
            evidence.deep_view(),
            fresh_evidence_verdict(records.deep_view(), projection.deep_view()),
        ),
{
    let ghost v = fresh_evidence_verdict(records.deep_view(), projection.deep_view());
    validate_each(
        evidence,
        |e: &IntentCriterionEvidenceV1| -> (o: Result<(), KernelError>)
            ensures
                verdict(o) == v(e.deep_view())
            { validate_fresh_evidence(records, projection, e) },
        Ghost(v),
    )
}

fn validate_fresh_evidence(
    records: &Vec<SessionStreamRecord>,
    projection: &IntentLineageProjectionV1,
    e: &IntentCriterionEvidenceV1,
) -> (r: Result<(), KernelError>)
    ensures
        verdict(r) == fresh_evidence_verdict(records.deep_view(), projection.deep_view())(
            e.deep_view(),
        ),
{
    validate_basic_evidence(records, e)?;
    let x = match projection.latest_execution_for(&e.intent_ref) {
        None => {
            return reject("Intent verification evidence has no execution binding");
        },
        Some(x) => x,
    };
    if !same_texts(&e.changeset_ids, &x.changeset_ids) {
        return reject("Intent verification evidence does not match execution ChangeSets");
    }
    if e.level == IntentCriterionEvidenceLevel::SystemVerified {
        validate_system_evidence(records, e, x)?;
        if !projection.is_current_parent(&e.parent_snapshot_id) {
            return reject("system Intent evidence receipt is stale for the parent workspace");
        }
    }
    Ok(())
}

/// The evidence is known.
pub open spec fn is_known(p: IntentLineageProjectionV1View) -> spec_fn(
    IntentCriterionEvidenceV1View,
) -> bool {
    |e: IntentCriterionEvidenceV1View| p.evidence.contains(e)
}

/// Whether evidence is still to be appended to a stream.
pub open spec fn evidence_append(
    records: Seq<SessionStreamRecordView>,
    tasks: TaskStateProjectionView,
    evidence: Seq<IntentCriterionEvidenceV1View>,
) -> Result<bool, Seq<char>> {
    match stack_of(records) {
        Err(m) => Err(m),
        Ok(admission) => match lineage_of(records, admission, tasks) {
            Err(m) => Err(m),
            Ok(p) => if all_where(evidence, is_known(p)) {
                Ok(false)
            } else {
                yields(
                    chain(
                        facts_verdict(records),
                        check_each(evidence, fresh_evidence_verdict(records, p)),
                    ),
                    true,
                )
            },
        },
    }
}

/// Tells whether evidence is still to be appended to a stream.
pub fn evidence_append_needed(
    records: &Vec<SessionStreamRecord>,
    tasks: &TaskStateProjection,
    evidence: &Vec<IntentCriterionEvidenceV1>,
) -> (r: Result<bool, KernelError>)
    ensures
        outcome(r) == evidence_append(
            records.deep_view(),
            tasks.deep_view(),
            evidence.deep_view(),
        ),
{
    let admission = IntentStackProjectionV1::from_records(records)?;
    let projection = IntentLineageProjectionV1::from_records(records, &admission, tasks)?;
    let ghost p = is_known(projection.deep_view());
    let known = has_all(
        evidence,
        |e: &IntentCriterionEvidenceV1| -> (b: bool)
            ensures
                b == p(e.deep_view())
            { projection.knows(e) },
        Ghost(p),
    );
    if known {
        return Ok(false);
    }
    validate_facts(records)?;
    validate_evidence_batch(records, &projection, evidence)?;
    Ok(true)
}

/// The event that links evidence.
pub open spec fn evidence_event(evidence: Seq<IntentCriterionEvidenceV1View>) -> IntentEventV1View {
    IntentEventV1View::VerificationLinked {
        schema_version: INTENT_CONTRACT_SCHEMA_VERSION,
        evidence,
    }
}

/// What is to be appended for evidence.
pub open spec fn append_evidence(
    session: SessionView,
    evidence: Seq<IntentCriterionEvidenceV1View>,
) -> Result<IntentLineageAppendV1View, Seq<char>> {
    if evidence.len() == 0 {
        Err("Intent verification link requires evidence"@)
    } else {
        match session.durable_records {
            None => Err("Intent verification link requires a durable session"@),
            Some(records) => match stack_of(records) {
                Err(m) => Err(m),
                Ok(admission) => match lineage_of(records, admission, session.tasks) {
                    Err(m) => Err(m),
                    Ok(p) => match chain(
                        facts_verdict(records),
                        chain(
                            check_each(evidence, fresh_evidence_verdict(records, p)),
                            event_verdict(evidence_event(evidence)),
                        ),
                    ) {
                        Err(m) => Err(m),
                        Ok(_) => match evidence_append(records, session.tasks, evidence) {
                            Err(m) => Err(m),
                            Ok(needed) => Ok(append_event(evidence_event(evidence), None, needed)),
                        },
                    },
                },
            },
        }
    }
}

/// Decides what is to be appended to link evidence with criteria. Evidence of the system needs a
/// successful receipt for the current snapshot of the parent workspace, from a check that its policy
/// requires and that names the criterion, and exactly the change sets of the execution.
pub fn append_intent_verification_evidence(
    session: &Session,
    evidence: Vec<IntentCriterionEvidenceV1>,
) -> (r: Result<IntentLineageAppendV1, KernelError>)
    ensures
        outcome(r) == append_evidence(session.deep_view(), evidence.deep_view()),
{
    if evidence.len() == 0 {
        return Err(KernelError::new("Intent verification link requires evidence"));
    }
    let records = match &session.durable_records {
        None => {
            return Err(KernelError::new("Intent verification link requires a durable session"));
        },
        Some(records) => records,
    };
    let admission = IntentStackProjectionV1::from_records(records)?;
    let projection = IntentLineageProjectionV1::from_records(records, &admission, &session.tasks)?;
    validate_facts(records)?;
    validate_evidence_batch(records, &projection, &evidence)?;
    let event = IntentEventV1::VerificationLinked {
        schema_version: INTENT_CONTRACT_SCHEMA_VERSION,
        evidence: evidence.duplicate(),
    };
    event.validate_contract()?;
    let needed = evidence_append_needed(records, &session.tasks, &evidence)?;
    Ok(event_to_append(event, None, needed))
}

/// The lineage of a session.
pub open spec fn session_lineage(session: SessionView) -> Result<
    IntentLineageProjectionV1View,
    Seq<char>,
> {
    match session.durable_records {
        None => Err("Intent lineage requires a durable session"@),
        Some(records) => match stack_of(records) {
            Err(m) => Err(m),
            Ok(admission) => lineage_of(records, admission, session.tasks),
        },
    }
}

impl Session {
    /// Replays the intent stack of the session together with the lineage of its executions.
    pub fn intent_lineage_projection(&self) -> (r: Result<IntentLineageProjectionV1, KernelError>)
        ensures
            outcome(r) == session_lineage(self.deep_view()),
    {
        let records = match &self.durable_records {
            None => {
                return Err(KernelError::new("Intent lineage requires a durable session"));
            },
            Some(records) => records,
        };
        let admission = IntentStackProjectionV1::from_records(records)?;
        IntentLineageProjectionV1::from_records(records, &admission, &self.tasks)
    }
}

// Laws.

/// Binding an execution again appends nothing, and binding another execution under the same identity
/// fails: whatever the stream holds, the identity of an execution never stands for two bindings.
pub proof fn law_execution_is_bound_once(
    records: Seq<SessionStreamRecordView>,
    tasks: TaskStateProjectionView,
    binding: IntentExecutionBindingV1View,
    x: IntentExecutionLineageV1View,
)
    requires
        stack_of(records) matches Ok(admission) && (lineage_of(records, admission, tasks) matches Ok(
            p,
        ) && execution_with(p, binding.execution_id) == Some(x)),
    ensures
        x.binding == binding ==> execution_append(records, tasks, binding) == Ok::<bool, Seq<char>>(
            false,
        ),
        x.binding != binding ==> execution_append(records, tasks, binding) is Err,
{
}

/// An execution that has its change sets keeps them: binding the same again appends nothing, and
/// binding others fails.
pub proof fn law_change_sets_are_bound_once(
    records: Seq<SessionStreamRecordView>,
    tasks: TaskStateProjectionView,
    execution_id: Seq<char>,
    ids: Seq<Seq<char>>,
    x: IntentExecutionLineageV1View,
)
    requires
        stack_of(records) matches Ok(admission) && (lineage_of(records, admission, tasks) matches Ok(
            p,
        ) && execution_with(p, execution_id) == Some(x)),
        x.changeset_ids.len() > 0,
    ensures
        x.changeset_ids == ids ==> changesets_append(records, tasks, execution_id, ids) == Ok::<
            bool,
            Seq<char>,
        >(false),
        x.changeset_ids != ids ==> changesets_append(records, tasks, execution_id, ids) is Err,
{
}

/// Evidence that the stream holds already is not appended again.
pub proof fn law_known_evidence_is_not_appended(
    records: Seq<SessionStreamRecordView>,
    tasks: TaskStateProjectionView,
    evidence: Seq<IntentCriterionEvidenceV1View>,
)
    requires
        stack_of(records) matches Ok(admission) && (lineage_of(records, admission, tasks) matches Ok(
            p,
        ) && forall|i: int| 0 <= i < evidence.len() ==> p.evidence.contains(#[trigger] evidence[i])),
    ensures
        evidence_append(records, tasks, evidence) == Ok::<bool, Seq<char>>(false),
{
}

/// The binding of an execution that is appended is one that a replay of the stream so far accepts, as
/// the newest execution of its intent.
pub proof fn law_appended_executions_are_accepted(
    records: Seq<SessionStreamRecordView>,
    admission: IntentStackProjectionV1View,
    tasks: TaskStateProjectionView,
    p: IntentLineageProjectionV1View,
    accepted: AcceptedIntentPlanProjectionV1View,
    binding: IntentExecutionBindingV1View,
    record: SessionStreamRecordView,
)
    requires
        records.len() < u64::MAX,
        stack_of(records) == Ok::<_, Seq<char>>(admission),
        lineage_of(records, admission, tasks) == Ok::<_, Seq<char>>(p),
        latest_accepted(admission) == Some(accepted),
        append_binding(records, tasks, admission, binding) matches Ok(a) && a.outcome.appended,
        intent_event_in(record) == Some(bound_event(accepted, binding)),
        accepted.accepted_stream_sequence < record.stream_sequence,
    ensures
        after_lineage_record(records, admission, tasks, p, record) == Ok::<_, Seq<char>>(
            IntentLineageProjectionV1View {
                executions: p.executions.push(
                    bound_execution(accepted.plan.stack_version, binding, record),
                ),
                ..p
            },
        ),
{
    law_replayed_stacks_are_sound(records);
    lemma_latest_version(admission);
}

/// The change sets that are appended to an execution are ones that a replay of the stream so far
/// accepts.
pub proof fn law_appended_change_sets_are_accepted(
    session: SessionView,
    records: Seq<SessionStreamRecordView>,
    admission: IntentStackProjectionV1View,
    p: IntentLineageProjectionV1View,
    execution_id: Seq<char>,
    ids: Seq<Seq<char>>,
    record: SessionStreamRecordView,
)
    requires
        session.durable_records == Some(records),
        stack_of(records) == Ok::<_, Seq<char>>(admission),
        lineage_of(records, admission, session.tasks) == Ok::<_, Seq<char>>(p),
        append_changesets(session, execution_id, ids) matches Ok(a) && a.outcome.appended
            && intent_event_in(record) == Some(a.events[0]),
    ensures
        after_lineage_record(records, admission, session.tasks, p, record) matches Ok(q)
            && execution_with(q, execution_id) == Some(
            IntentExecutionLineageV1View {
                changeset_ids: ids,
                ..execution_with(p, execution_id)->0
            },
        ),
{
    let q = after_lineage_record(records, admission, session.tasks, p, record)->Ok_0;
    lemma_find_key::<IntentExecutionLineageV1>(p.executions, execution_id);
    lemma_find_key::<IntentExecutionLineageV1>(q.executions, execution_id);
    let i = find_key::<IntentExecutionLineageV1>(p.executions, execution_id)->0;
    assert(q.executions[i].binding.execution_id == execution_id);
    assert forall|j: int| 0 <= j < i implies q.executions[j] == #[trigger] p.executions[j] by {}
}

/// The evidence that is appended is evidence that a replay of the stream so far accepts, where its
/// criteria are ones of accepted intents.
pub proof fn law_appended_evidence_is_accepted(
    session: SessionView,
    records: Seq<SessionStreamRecordView>,
    admission: IntentStackProjectionV1View,
    p: IntentLineageProjectionV1View,
    evidence: Seq<IntentCriterionEvidenceV1View>,
    record: SessionStreamRecordView,
)
    requires
        session.durable_records == Some(records),
        stack_of(records) == Ok::<_, Seq<char>>(admission),
        lineage_of(records, admission, session.tasks) == Ok::<_, Seq<char>>(p),
        append_evidence(session, evidence) matches Ok(a) && a.outcome.appended && intent_event_in(
            record,
        ) == Some(a.events[0]),
        forall|i: int|
            0 <= i < evidence.len() ==> (accepted_for_intent(
                admission,
                (#[trigger] evidence[i]).intent_ref,
                record.stream_sequence,
            ) matches Some(accepted) && any_where(
                accepted.plan.intents,
                has_criterion(evidence[i]),
            )),
    ensures
        after_lineage_record(records, admission, session.tasks, p, record) == Ok::<_, Seq<char>>(
            IntentLineageProjectionV1View { evidence: with_new(p.evidence, evidence), ..p },
        ),
{
    let fresh = evidence.map_values(fresh_evidence_verdict(records, p));
    let linked = evidence.map_values(linked_verdict(records, admission, record.stream_sequence));
    lemma_all_pass(fresh);
    lemma_all_pass(linked);
    assert forall|i: int| 0 <= i < linked.len() implies #[trigger] linked[i] is Ok by {
        assert(fresh[i] == fresh_evidence_verdict(records, p)(evidence[i]));
        assert(fresh[i] is Ok);
        assert(linked[i] == linked_verdict(records, admission, record.stream_sequence)(evidence[i]));
    }
}

} // verus!
