//! What a replay of intent plans takes, what an acceptance needs, what may be appended, and what
//! the public sees.

use vstd::prelude::*;

use crate::intent::{
    IntentAcceptanceKind, IntentApplicationState, IntentAuthorityState, IntentDefinitionState,
    IntentEventV1View, IntentPlanKind, IntentPlanV1View, IntentSourceV1View,
    IntentTaskPlanBindingV1View, IntentVersionRefView, PublicIntentSourceV1View,
    PublicIntentStackStateV1View,
};
use crate::intent_admission::{
    admission_events, admission_identity_verdict, plan_refs, task_graph_verdict,
    IntentPlanAdmissionV1View,
};
use crate::intent_contract::plan_verdict;
use crate::intent_event_contract::event_verdict;
use crate::intent_lineage::{lineage_summary, IntentLineageProjectionV1View};
use crate::intent_stack::{
    acceptance_verdict, accepted_for_intent, accepted_place, accepted_version, accepted_with,
    after_intent_event, after_record, chat_admission_append, chat_append, confirmed_source_verdicts,
    durable_task_plan_of, is_bound_task_plan, live_has, pending_verdict, plan_acceptance_verdict,
    public_state_of, recorded_place, stack_of, task_admission_append, task_append, task_binding,
    IntentStackProjectionV1View,
};
use crate::intent_state::AcceptedIntentPlanProjectionV1View;
use crate::records::{
    ControlEntryView, RecordBodyView, SessionStreamRecordView, SessionView, TaskPlanEntryView,
    TaskPlanStatus,
};
use crate::value::lemma_all_pass;

verus! {

// What the public sees.

/// The number after a number, or the same where there is none.
pub open spec fn comes_next(before: u64, n: u64) -> bool {
    n == before + 1 || (before == u64::MAX && n == before)
}

/// No plan waits: none is recorded, or the last recorded one is accepted.
pub open spec fn is_settled(p: IntentStackProjectionV1View) -> bool {
    &&& p.pending_task_acceptance is None
    &&& p.recorded_plans.len() == 0 <==> p.accepted_plans.len() == 0
    &&& p.recorded_plans.len() > 0 ==> p.recorded_plans[p.recorded_plans.len() - 1].stack_version
        == p.accepted_plans[p.accepted_plans.len() - 1].plan.stack_version
}

/// The public sees the plan that was accepted last, intent by intent, and only where no plan waits.
/// Where there is no stack, it is told that there is no history. The stack has authority unless one
/// of its intents can only be read. Nothing is told of the digest of a suggestion or of a trusted
/// source.
pub proof fn law_public_states_are_exact(
    p: IntentStackProjectionV1View,
    lineage: Option<IntentLineageProjectionV1View>,
)
    ensures
        public_state_of(p, lineage) is Ok <==> p.header is None || (is_settled(p)
            && p.accepted_plans.len() > 0),
        p.header is None ==> public_state_of(p, lineage) == Ok::<_, Seq<char>>(
            PublicIntentStackStateV1View::HistoryUnavailable {
                schema_version: 1,
                safe_message: "Intent history is unavailable for this session."@,
            },
        ),
        p.header matches Some(header) ==> (public_state_of(p, lineage) matches Ok(state) ==> {
            let plan = p.accepted_plans[p.accepted_plans.len() - 1].plan;
            &&& state matches PublicIntentStackStateV1View::Available { schema_version, stack }
            &&& schema_version == 1
            &&& stack.schema_version == 1
            &&& stack.stack_id == header.stack_id
            &&& stack.stack_version == plan.stack_version
            &&& stack.plan_digest == plan.plan_digest
            &&& stack.conflicts.len() == 0
            &&& stack.intents.len() == plan.intents.len()
            &&& stack.authority_state == IntentAuthorityState::ReadOnlyProvenance
                || stack.authority_state == IntentAuthorityState::Active
            &&& stack.authority_state == IntentAuthorityState::Active <==> forall|i: int|
                0 <= i < stack.intents.len() ==> (#[trigger] stack.intents[i]).application_state
                    != IntentApplicationState::ReadOnly
            &&& forall|i: int|
                0 <= i < plan.intents.len() ==> {
                    let d = plan.intents[i];
                    let x = #[trigger] stack.intents[i];
                    &&& x.intent_ref == d.intent_ref
                    &&& x.title == d.title
                    &&& x.statement == d.statement
                    &&& x.acceptance_criteria == d.acceptance_criteria
                    &&& x.depends_on == d.depends_on
                    &&& x.definition_state == IntentDefinitionState::Accepted
                    &&& x.artifacts.len() == 0
                    &&& x.available_actions.len() == 0
                    &&& x.exclusive_artifact_count == 0
                    &&& x.shared_artifact_count == 0
                    &&& x.unowned_artifact_count == 0
                    &&& x.drifted_artifact_count == 0
                    &&& x.unavailable_artifact_count == 0
                    &&& lineage is None ==> x.application_state == IntentApplicationState::Unapplied
                        && x.advisory_criterion_count == 0 && x.system_verified_criterion_count == 0
                    &&& lineage matches Some(l) ==> {
                        let s = lineage_summary(l, d.intent_ref);
                        &&& Some(x.application_state) == s.application_state
                            || s.application_state is None && x.application_state
                            == IntentApplicationState::Unapplied
                        &&& x.advisory_criterion_count == s.advisory_criterion_count
                        &&& x.system_verified_criterion_count == s.system_verified_criterion_count
                    }
                    &&& d.source matches IntentSourceV1View::UserTurn { source_turn_id } ==> x.source
                        == (PublicIntentSourceV1View::UserTurn { source_turn_id })
                    &&& d.source matches IntentSourceV1View::AcceptedSuggestion {
                        source_turn_id,
                        ..
                    } ==> x.source == (PublicIntentSourceV1View::AcceptedSuggestion { source_turn_id })
                    &&& d.source is TrustedSource ==> x.source
                        == (PublicIntentSourceV1View::TrustedSource {
                        safe_source_label: "Trusted specification"@,
                    })
                }
        }),
{
}

// Which plan holds an intent.

/// The plan at `k` was accepted before a record and holds an intent.
pub open spec fn held_before(
    p: IntentStackProjectionV1View,
    intent_ref: IntentVersionRefView,
    stream_sequence: u64,
    k: int,
) -> bool {
    &&& 0 <= k < p.accepted_plans.len()
    &&& p.accepted_plans[k].accepted_stream_sequence < stream_sequence
    &&& exists|i: int|
        0 <= i < p.accepted_plans[k].plan.intents.len() && (
        #[trigger] p.accepted_plans[k].plan.intents[i]).intent_ref == intent_ref
}

proof fn lemma_held(
    p: IntentStackProjectionV1View,
    intent_ref: IntentVersionRefView,
    stream_sequence: u64,
    n: int,
)
    requires
        0 <= n <= p.accepted_plans.len(),
    ensures
        match accepted_with(p.accepted_plans, intent_ref, stream_sequence, n) {
            Some(k) => k < n && held_before(p, intent_ref, stream_sequence, k) && forall|j: int|
                k < j < n ==> !#[trigger] held_before(p, intent_ref, stream_sequence, j),
            None => forall|j: int|
                0 <= j < n ==> !#[trigger] held_before(p, intent_ref, stream_sequence, j),
        },
    decreases n,
{
    if n > 0 {
        lemma_held(p, intent_ref, stream_sequence, n - 1);
        let k = n - 1;
        let plan = p.accepted_plans[k].plan;
        let refs = plan_refs(plan);
        if refs.contains(intent_ref) {
            let i = choose|i: int| 0 <= i < refs.len() && refs[i] == intent_ref;
            assert(plan.intents[i].intent_ref == intent_ref);
        }
        if held_before(p, intent_ref, stream_sequence, k) {
            let i = choose|i: int|
                0 <= i < plan.intents.len() && (#[trigger] plan.intents[i]).intent_ref == intent_ref;
            assert(refs[i] == intent_ref);
        }
    }
}

/// The plan of an intent before a record is the last that was accepted before it and holds the
/// intent.
pub proof fn law_plans_of_intents_are_the_last(
    p: IntentStackProjectionV1View,
    intent_ref: IntentVersionRefView,
    stream_sequence: u64,
)
    ensures
        accepted_for_intent(p, intent_ref, stream_sequence) is Some <==> exists|k: int| #[trigger]
            held_before(p, intent_ref, stream_sequence, k),
        accepted_for_intent(p, intent_ref, stream_sequence) matches Some(a) ==> exists|k: int|
            #[trigger] held_before(p, intent_ref, stream_sequence, k) && p.accepted_plans[k] == a
                && forall|j: int|
                k < j < p.accepted_plans.len() ==> !#[trigger] held_before(
                    p,
                    intent_ref,
                    stream_sequence,
                    j,
                ),
{
    lemma_held(p, intent_ref, stream_sequence, p.accepted_plans.len() as int);
}

proof fn lemma_recorded(plans: Seq<IntentPlanV1View>, version: u64)
    ensures
        match recorded_place(plans, version) {
            Some(i) => 0 <= i < plans.len() && plans[i].stack_version == version && forall|j: int|
                0 <= j < i ==> (#[trigger] plans[j]).stack_version != version,
            None => forall|j: int|
                0 <= j < plans.len() ==> (#[trigger] plans[j]).stack_version != version,
        },
    decreases plans.len(),
{
    if plans.len() > 0 {
        let rest = plans.drop_last();
        lemma_recorded(rest, version);
        assert forall|j: int| 0 <= j < rest.len() implies rest[j] == #[trigger] plans[j] by {}
    }
}

proof fn lemma_accepted(plans: Seq<AcceptedIntentPlanProjectionV1View>, version: u64)
    ensures
        match accepted_place(plans, version) {
            Some(i) => 0 <= i < plans.len() && plans[i].plan.stack_version == version && forall|j: int|
                0 <= j < i ==> (#[trigger] plans[j]).plan.stack_version != version,
            None => forall|j: int|
                0 <= j < plans.len() ==> (#[trigger] plans[j]).plan.stack_version != version,
        },
    decreases plans.len(),
{
    if plans.len() > 0 {
        let rest = plans.drop_last();
        lemma_accepted(rest, version);
        assert forall|j: int| 0 <= j < rest.len() implies rest[j] == #[trigger] plans[j] by {}
    }
}

/// The accepted plan of a version is the first that has it.
pub proof fn law_accepted_versions_are_found(p: IntentStackProjectionV1View, version: u64, i: int)
    ensures
        accepted_version(p, version) is Some <==> exists|k: int|
            0 <= k < p.accepted_plans.len() && (#[trigger] p.accepted_plans[k]).plan.stack_version
                == version,
        0 <= i < p.accepted_plans.len() && p.accepted_plans[i].plan.stack_version == version && (
        forall|j: int|
            0 <= j < i ==> (#[trigger] p.accepted_plans[j]).plan.stack_version != version)
            ==> accepted_version(p, version) == Some(p.accepted_plans[i]),
{
    lemma_accepted(p.accepted_plans, version);
}

// What an acceptance needs.

/// An intent was suggested in a turn, by the proposal with a digest.
pub open spec fn is_suggestion(source: IntentSourceV1View, turn: Seq<char>, digest: Seq<char>) -> bool {
    source matches IntentSourceV1View::AcceptedSuggestion { source_turn_id, proposal_digest, .. }
        && source_turn_id == turn && proposal_digest == digest
}

/// All intents of a plan, of which there is one, were suggested in a turn by one proposal.
pub open spec fn is_one_suggestion(plan: IntentPlanV1View, turn: Seq<char>) -> bool {
    plan.intents.len() > 0 && exists|digest: Seq<char>| #[trigger] is_suggested_by(plan, turn, digest)
}

/// All intents of a plan were suggested in a turn by the proposal with a digest.
pub open spec fn is_suggested_by(plan: IntentPlanV1View, turn: Seq<char>, digest: Seq<char>) -> bool {
    forall|i: int|
        0 <= i < plan.intents.len() ==> is_suggestion(
            (#[trigger] plan.intents[i]).source,
            turn,
            digest,
        )
}

/// A plan can be accepted in three ways and no other: what the user declared, as the root of the
/// turn that declared all its intents; a suggested decomposition, by a confirmation in the turn of
/// its intents, bound to a task plan, where all come from one proposal; or, bound to a task plan
/// too, by a decision on a specification where all intents come from trusted sources.
pub proof fn law_acceptances_are_exact(
    plan: IntentPlanV1View,
    kind: IntentAcceptanceKind,
    source_turn_id: Seq<char>,
    bound: bool,
)
    requires
        admission_identity_verdict("intent acceptance source turn id"@, source_turn_id) is Ok,
    ensures
        acceptance_verdict(plan, kind, source_turn_id, bound) is Ok <==> {
            ||| kind == IntentAcceptanceKind::UserDeclaredRootAdmission && plan.kind
                == IntentPlanKind::UserDeclaredRoot && forall|i: int|
                0 <= i < plan.intents.len() ==> (#[trigger] plan.intents[i]).source
                    == (IntentSourceV1View::UserTurn { source_turn_id })
            ||| kind == IntentAcceptanceKind::ExplicitUserConfirmation && plan.kind
                == IntentPlanKind::SuggestedDecomposition && bound && is_one_suggestion(
                plan,
                source_turn_id,
            )
            ||| kind == IntentAcceptanceKind::ContentBoundSpecDecision && plan.kind
                == IntentPlanKind::SuggestedDecomposition && bound && forall|i: int|
                0 <= i < plan.intents.len() ==> (
                #[trigger] plan.intents[i]).source is TrustedSource
        },
{
    let all = confirmed_source_verdicts(plan.intents, source_turn_id);
    lemma_all_pass(all);
    if plan.kind == IntentPlanKind::SuggestedDecomposition && kind
        == IntentAcceptanceKind::ExplicitUserConfirmation && bound {
        if acceptance_verdict(plan, kind, source_turn_id, bound) is Ok {
            let digest = crate::intent_stack::suggestion_digest(plan.intents[0].source);
            assert forall|i: int| 0 <= i < plan.intents.len() implies is_suggestion(
                (#[trigger] plan.intents[i]).source,
                source_turn_id,
                digest,
            ) by {
                assert(all[i] is Ok);
            }
            assert(is_suggested_by(plan, source_turn_id, digest));
        }
        if is_one_suggestion(plan, source_turn_id) {
            let digest = choose|digest: Seq<char>| #[trigger]
                is_suggested_by(plan, source_turn_id, digest);
            assert forall|i: int| 0 <= i < all.len() implies (#[trigger] all[i]) is Ok by {
                assert(is_suggestion(plan.intents[i].source, source_turn_id, digest));
            }
            assert(is_suggestion(plan.intents[0].source, source_turn_id, digest));
            assert forall|i: int| 0 <= i < plan.intents.len() implies
                crate::intent_stack::suggestion_digest((#[trigger] plan.intents[i]).source)
                == crate::intent_stack::suggestion_digest(plan.intents[0].source) by {
                assert(is_suggestion(plan.intents[i].source, source_turn_id, digest));
            }
        }
    }
}

/// A later plan is accepted with less only where a user confirms it, and it goes on with the
/// intents of the plan before it: each is unchanged, or is the next version of itself that names
/// what it supersedes and comes from the turn of the confirmation. In a forked session a first plan
/// without history, bound to no task plan, can be confirmed too. Every other plan needs what a
/// first one needs.
pub proof fn law_successors_are_exact(
    p: IntentStackProjectionV1View,
    plan: IntentPlanV1View,
    kind: IntentAcceptanceKind,
    source_turn_id: Seq<char>,
    bound: bool,
)
    requires
        admission_identity_verdict("intent acceptance source turn id"@, source_turn_id) is Ok,
    ensures
        plan_acceptance_verdict(p, plan, kind, source_turn_id, bound) is Ok <==> {
            ||| acceptance_verdict(plan, kind, source_turn_id, bound) is Ok
            ||| kind == IntentAcceptanceKind::ExplicitUserConfirmation && p.accepted_plans.len() == 0
                && p.fork_source_session_id is Some && !bound && plan.stack_version == 1 && forall|i: int|
                0 <= i < plan.intents.len() ==> (#[trigger] plan.intents[i]).supersedes is None
            ||| kind == IntentAcceptanceKind::ExplicitUserConfirmation && p.accepted_plans.len() > 0 && {
                let before = p.accepted_plans[p.accepted_plans.len() - 1].plan;
                &&& plan.kind == before.kind
                &&& plan.intents.len() == before.intents.len()
                &&& forall|i: int|
                    0 <= i < plan.intents.len() ==> {
                        let a = before.intents[i];
                        let b = #[trigger] plan.intents[i];
                        a == b || {
                            &&& b.supersedes == Some(a.intent_ref)
                            &&& b.intent_ref.intent_id == a.intent_ref.intent_id
                            &&& comes_next(a.intent_ref.version, b.intent_ref.version)
                            &&& match b.source {
                                IntentSourceV1View::UserTurn { source_turn_id: turn } => turn
                                    == source_turn_id,
                                IntentSourceV1View::AcceptedSuggestion {
                                    source_turn_id: turn,
                                    ..
                                } => turn == source_turn_id,
                                IntentSourceV1View::TrustedSource { .. } => false,
                            }
                        }
                    }
            }
        },
{
    if p.accepted_plans.len() > 0 {
        let before = p.accepted_plans[p.accepted_plans.len() - 1].plan;
        assert(before == p.accepted_plans.last().plan);
        assert forall|i: int| 0 <= i < plan.intents.len() implies crate::intent_stack::goes_on(
            before.intents[i],
            #[trigger] plan.intents[i],
            source_turn_id,
        ) == {
            let a = before.intents[i];
            let b = plan.intents[i];
            a == b || {
                &&& b.supersedes == Some(a.intent_ref)
                &&& b.intent_ref.intent_id == a.intent_ref.intent_id
                &&& comes_next(a.intent_ref.version, b.intent_ref.version)
                &&& match b.source {
                    IntentSourceV1View::UserTurn { source_turn_id: turn } => turn == source_turn_id,
                    IntentSourceV1View::AcceptedSuggestion { source_turn_id: turn, .. } => turn
                        == source_turn_id,
                    IntentSourceV1View::TrustedSource { .. } => false,
                }
            }
        } by {}
    }
}

/// A task-bound acceptance is completed by the very next record, where that is the accepted task
/// plan of its binding with a sound graph, and by nothing else.
pub proof fn law_task_plans_follow_at_once(
    accepted: AcceptedIntentPlanProjectionV1View,
    task_plan: TaskPlanEntryView,
    stream_sequence: u64,
)
    ensures
        pending_verdict(accepted, task_plan, stream_sequence) is Ok <==> {
            &&& accepted.task_plan_binding matches Some(b)
            &&& comes_next(accepted.accepted_stream_sequence, stream_sequence)
            &&& task_plan.status == TaskPlanStatus::Accepted
            &&& task_plan.task_id == b.task_id
            &&& task_plan.plan_version == b.task_plan_version
            &&& task_graph_verdict(task_plan) is Ok
        },
{
}

// What a replay takes.

/// A stack is created once, in the stream of its own session, and has the identities of its event.
pub proof fn law_stacks_are_created_once(
    p: IntentStackProjectionV1View,
    record: SessionStreamRecordView,
    e: IntentEventV1View,
)
    requires
        event_verdict(e) is Ok,
    ensures
        e matches IntentEventV1View::StackCreated {
            stack_id,
            workspace_id,
            source_session_id,
            ..
        } ==> {
            let r = after_intent_event(p, record, e);
            &&& r is Ok <==> p.header is None && source_session_id == record.session_id
            &&& r matches Ok(q) ==> q.header matches Some(h) && h.stack_id == stack_id && h.workspace_id
                == workspace_id && h.source_session_id == source_session_id && q.recorded_plans
                == p.recorded_plans && q.accepted_plans == p.accepted_plans
                && q.pending_task_acceptance == p.pending_task_acceptance
        },
{
}

/// A plan is recorded if and only if there is a stack, the plan is valid and of that stack,
/// workspace and session, and its version comes next; it is then the last of the recorded ones, and
/// nothing is accepted by it.
pub proof fn law_plans_are_recorded_in_order(
    p: IntentStackProjectionV1View,
    record: SessionStreamRecordView,
    e: IntentEventV1View,
)
    requires
        event_verdict(e) is Ok,
    ensures
        e matches IntentEventV1View::PlanRecorded { plan, .. } ==> {
            let r = after_intent_event(p, record, e);
            &&& r is Ok <==> {
                &&& p.header matches Some(h)
                &&& plan_verdict(plan) is Ok
                &&& plan.stack_id == h.stack_id
                &&& plan.workspace_id == h.workspace_id
                &&& plan.source_session_id == h.source_session_id
                &&& plan.source_session_id == record.session_id
                &&& p.recorded_plans.len() == 0 ==> plan.stack_version == 1
                &&& p.recorded_plans.len() > 0 ==> comes_next(
                    p.recorded_plans[p.recorded_plans.len() - 1].stack_version,
                    plan.stack_version,
                )
                &&& forall|j: int|
                    0 <= j < p.recorded_plans.len() ==> (
                    #[trigger] p.recorded_plans[j]).stack_version != plan.stack_version
            }
            &&& r matches Ok(q) ==> q.recorded_plans == p.recorded_plans.push(plan)
                && q.accepted_plans == p.accepted_plans && q.pending_task_acceptance
                == p.pending_task_acceptance && q.header == p.header
        },
{
    if let IntentEventV1View::PlanRecorded { plan, .. } = e {
        lemma_recorded(p.recorded_plans, plan.stack_version);
    }
}

/// A plan is accepted if and only if it is the recorded one of its version and digest in this
/// stack, its version comes next among the accepted ones, and the acceptance fits it. Bound to a
/// task plan it waits for that plan; else it is the last of the accepted ones.
pub proof fn law_plans_are_accepted_in_order(
    p: IntentStackProjectionV1View,
    record: SessionStreamRecordView,
    e: IntentEventV1View,
)
    requires
        event_verdict(e) is Ok,
    ensures
        e matches IntentEventV1View::PlanAccepted {
            stack_id,
            stack_version,
            plan_digest,
            acceptance_kind,
            source_turn_id,
            acceptance_authority_id,
            task_plan_binding,
            ..
        } ==> {
            let r = after_intent_event(p, record, e);
            &&& r is Ok <==> {
                &&& p.header matches Some(h)
                &&& h.stack_id == stack_id
                &&& exists|i: int|
                    0 <= i < p.recorded_plans.len() && (
                    #[trigger] p.recorded_plans[i]).stack_version == stack_version
                        && p.recorded_plans[i].plan_digest == plan_digest && (forall|j: int|
                        0 <= j < i ==> (#[trigger] p.recorded_plans[j]).stack_version
                            != stack_version) && plan_acceptance_verdict(
                        p,
                        p.recorded_plans[i],
                        acceptance_kind,
                        source_turn_id,
                        task_plan_binding is Some,
                    ) is Ok
                &&& p.accepted_plans.len() == 0 ==> stack_version == 1
                &&& p.accepted_plans.len() > 0 ==> comes_next(
                    p.accepted_plans[p.accepted_plans.len() - 1].plan.stack_version,
                    stack_version,
                )
                &&& forall|j: int|
                    0 <= j < p.accepted_plans.len() ==> (
                    #[trigger] p.accepted_plans[j]).plan.stack_version != stack_version
            }
            &&& r matches Ok(q) ==> {
                let new = if task_plan_binding is Some {
                    q.pending_task_acceptance->0.accepted
                } else {
                    q.accepted_plans[q.accepted_plans.len() - 1]
                };
                &&& task_plan_binding is Some ==> q.accepted_plans == p.accepted_plans
                    && q.pending_task_acceptance is Some
                &&& task_plan_binding is None ==> q.accepted_plans == p.accepted_plans.push(new)
                    && q.pending_task_acceptance == p.pending_task_acceptance
                &&& q.recorded_plans == p.recorded_plans
                &&& q.header == p.header
                &&& new.plan.stack_version == stack_version
                &&& new.plan.plan_digest == plan_digest
                &&& p.recorded_plans.contains(new.plan)
                &&& new.acceptance_kind == acceptance_kind
                &&& new.source_turn_id == source_turn_id
                &&& new.acceptance_authority_id == acceptance_authority_id
                &&& new.task_plan_binding == task_plan_binding
                &&& new.accepted_event_id == record.event_id
                &&& new.accepted_stream_sequence == record.stream_sequence
            }
        },
{
    if let IntentEventV1View::PlanAccepted { stack_version, .. } = e {
        lemma_recorded(p.recorded_plans, stack_version);
        lemma_accepted(p.accepted_plans, stack_version);
    }
}

/// While an acceptance waits for its task plan, the next record either is that task plan, which
/// completes it, or is refused. A fork tells which session it was forked from.
pub proof fn law_waiting_acceptances_are_completed(
    p: IntentStackProjectionV1View,
    record: SessionStreamRecordView,
)
    requires
        !(p.cursor matches Some(c) && record.stream_sequence <= c.stream_sequence),
    ensures
        p.pending_task_acceptance matches Some(w) ==> {
            let r = after_record(p, record);
            &&& r is Ok <==> {
                &&& record.body matches RecordBodyView::Control(ControlEntryView::TaskPlan(t))
                &&& pending_verdict(w.accepted, t, record.stream_sequence) is Ok
            }
            &&& r matches Ok(q) ==> q.pending_task_acceptance is None && q.accepted_plans
                == p.accepted_plans.push(w.accepted) && q.recorded_plans == p.recorded_plans
        },
        p.pending_task_acceptance is None ==> (
        record.body matches RecordBodyView::ConversationForked(f) ==> (after_record(
            p,
            record,
        ) matches Ok(q) && q.fork_source_session_id == Some(f.source_session_id) && q.accepted_plans
            == p.accepted_plans && q.recorded_plans == p.recorded_plans && q.header == p.header)),
        after_record(p, record) matches Ok(q) ==> (q.cursor matches Some(c) && c.event_id
            == record.event_id && c.stream_sequence == record.stream_sequence),
{
}

// What may be appended.

/// The last accepted plan is the one of an admission, accepted as the admission says, with a
/// binding.
pub open spec fn is_admitted(
    p: IntentStackProjectionV1View,
    a: IntentPlanAdmissionV1View,
    binding: Option<IntentTaskPlanBindingV1View>,
) -> bool {
    p.accepted_plans.len() > 0 && {
        let x = p.accepted_plans[p.accepted_plans.len() - 1];
        &&& x.plan == a.plan
        &&& x.acceptance_kind == a.acceptance_kind
        &&& x.source_turn_id == a.source_turn_id
        &&& x.acceptance_authority_id == a.acceptance_authority_id
        &&& x.task_plan_binding == binding
    }
}

/// Nothing of a stack is in the stream.
pub open spec fn is_bare(p: IntentStackProjectionV1View) -> bool {
    p.header is None && p.pending_task_acceptance is None && p.recorded_plans.len() == 0
        && p.accepted_plans.len() == 0
}

/// The stream holds task plans of a binding, and all of them are this one.
pub open spec fn holds_only(
    records: Seq<SessionStreamRecordView>,
    binding: IntentTaskPlanBindingV1View,
    t: TaskPlanEntryView,
) -> bool {
    &&& exists|i: int|
        0 <= i < records.len() && (#[trigger] records[i]).body == RecordBodyView::Control(
            ControlEntryView::TaskPlan(t),
        ) && t.task_id == binding.task_id && t.plan_version == binding.task_plan_version
    &&& forall|i: int|
        0 <= i < records.len() ==> is_other_plan(#[trigger] records[i], binding, t)
}

/// A record is no task plan of a binding that differs from this one.
pub open spec fn is_other_plan(
    r: SessionStreamRecordView,
    binding: IntentTaskPlanBindingV1View,
    t: TaskPlanEntryView,
) -> bool {
    r.body matches RecordBodyView::Control(ControlEntryView::TaskPlan(x)) ==> (x.task_id
        == binding.task_id && x.plan_version == binding.task_plan_version ==> x == t)
}

/// The stream holds no task plan of a binding.
pub open spec fn holds_none(
    records: Seq<SessionStreamRecordView>,
    binding: IntentTaskPlanBindingV1View,
) -> bool {
    forall|i: int|
        0 <= i < records.len() ==> !((#[trigger] records[i]).body matches RecordBodyView::Control(
            ControlEntryView::TaskPlan(x),
        ) && x.task_id == binding.task_id && x.plan_version == binding.task_plan_version)
}

proof fn lemma_durable_plans(
    records: Seq<SessionStreamRecordView>,
    binding: IntentTaskPlanBindingV1View,
    t: TaskPlanEntryView,
)
    ensures
        (durable_task_plan_of(records, binding) == Ok::<_, Seq<char>>(
            Some(t),
        )) == holds_only(records, binding, t),
        (durable_task_plan_of(records, binding) == Ok::<_, Seq<char>>(
            None::<TaskPlanEntryView>,
        )) == holds_none(records, binding),
    decreases records.len(),
{
    if records.len() > 0 {
        let rest = records.drop_last();
        let last = records[records.len() - 1];
        lemma_durable_plans(rest, binding, t);
        assert forall|i: int| 0 <= i < rest.len() implies rest[i] == #[trigger] records[i] by {}
        if is_bound_task_plan(last, binding) {
            let own = last.body->Control_0->TaskPlan_0;
            lemma_durable_plans(rest, binding, own);
        }
        let a = holds_only(rest, binding, t);
        let b = holds_none(rest, binding);
        if holds_only(records, binding, t) {
            assert forall|i: int| 0 <= i < rest.len() implies is_other_plan(
                #[trigger] rest[i],
                binding,
                t,
            ) by {
                assert(is_other_plan(records[i], binding, t));
            }
            assert(is_other_plan(last, binding, t));
            let i = choose|i: int|
                0 <= i < records.len() && (#[trigger] records[i]).body == RecordBodyView::Control(
                    ControlEntryView::TaskPlan(t),
                ) && t.task_id == binding.task_id && t.plan_version == binding.task_plan_version;
            if i < rest.len() {
                assert(rest[i].body == RecordBodyView::Control(ControlEntryView::TaskPlan(t)));
                assert(a);
            } else {
                assert(is_bound_task_plan(last, binding));
                if !b {
                    let k = choose|k: int|
                        0 <= k < rest.len() && ((
                        #[trigger] rest[k]).body matches RecordBodyView::Control(
                            ControlEntryView::TaskPlan(x),
                        ) && x.task_id == binding.task_id && x.plan_version
                            == binding.task_plan_version);
                    assert(is_other_plan(rest[k], binding, t));
                    assert(a);
                }
            }
        }
        if durable_task_plan_of(records, binding) == Ok::<_, Seq<char>>(Some(t)) {
            assert forall|i: int| 0 <= i < records.len() implies is_other_plan(
                #[trigger] records[i],
                binding,
                t,
            ) by {
                if i < rest.len() {
                    if a {
                        assert(is_other_plan(rest[i], binding, t));
                    } else {
                        assert(rest[i] == records[i]);
                    }
                }
            }
            if a && !is_bound_task_plan(last, binding) {
                let i = choose|i: int|
                    0 <= i < rest.len() && (#[trigger] rest[i]).body == RecordBodyView::Control(
                        ControlEntryView::TaskPlan(t),
                    ) && t.task_id == binding.task_id && t.plan_version
                        == binding.task_plan_version;
                assert(records[i].body == RecordBodyView::Control(ControlEntryView::TaskPlan(t)));
            } else {
                assert(records[records.len() - 1].body == RecordBodyView::Control(
                    ControlEntryView::TaskPlan(t),
                ));
            }
        }
        if holds_none(records, binding) {
            assert forall|i: int| 0 <= i < rest.len() implies !((
            #[trigger] rest[i]).body matches RecordBodyView::Control(
                ControlEntryView::TaskPlan(x),
            ) && x.task_id == binding.task_id && x.plan_version == binding.task_plan_version) by {
                assert(rest[i] == records[i]);
            }
        }
        if durable_task_plan_of(records, binding) == Ok::<_, Seq<char>>(None::<TaskPlanEntryView>) {
            assert forall|i: int| 0 <= i < records.len() implies !((
            #[trigger] records[i]).body matches RecordBodyView::Control(
                ControlEntryView::TaskPlan(x),
            ) && x.task_id == binding.task_id && x.plan_version == binding.task_plan_version) by {
                if i < rest.len() {
                    assert(rest[i] == records[i]);
                }
            }
        }
    }
}

/// The first plan of a session is appended if and only if nothing of a stack is there and its
/// version is one; where exactly this admission is the last accepted one, there is nothing to
/// append; everything else is refused.
pub proof fn law_chat_admissions_are_exact(
    records: Seq<SessionStreamRecordView>,
    a: IntentPlanAdmissionV1View,
    p: IntentStackProjectionV1View,
)
    requires
        stack_of(records) == Ok::<_, Seq<char>>(p),
    ensures
        chat_append(records, a) == Ok::<bool, Seq<char>>(false) <==> is_admitted(p, a, None),
        chat_append(records, a) == Ok::<bool, Seq<char>>(true) <==> is_bare(p)
            && a.plan.stack_version == 1,
{
}

/// The same holds of an admission with a task plan, where the stream holds no task plan of that
/// version yet, or holds exactly this one with the admission.
pub proof fn law_task_admissions_are_exact(
    records: Seq<SessionStreamRecordView>,
    a: IntentPlanAdmissionV1View,
    binding: IntentTaskPlanBindingV1View,
    task_plan: TaskPlanEntryView,
    p: IntentStackProjectionV1View,
)
    requires
        stack_of(records) == Ok::<_, Seq<char>>(p),
    ensures
        task_append(records, a, binding, task_plan) == Ok::<bool, Seq<char>>(false) <==> is_admitted(
            p,
            a,
            Some(binding),
        ) && holds_only(records, binding, task_plan),
        task_append(records, a, binding, task_plan) == Ok::<bool, Seq<char>>(true) <==> is_bare(p)
            && a.plan.stack_version == 1 && holds_none(records, binding),
{
    lemma_durable_plans(records, binding, task_plan);
    if let Ok(Some(x)) = durable_task_plan_of(records, binding) {
        lemma_durable_plans(records, binding, x);
    }
}

/// What is written for a task: all of the events and the task plan, or nothing at all; and the
/// report names the plan. Where nothing is written, the live session is still told of a task plan
/// that it lacks.
pub proof fn law_task_admissions_are_written_whole(
    session: SessionView,
    a: IntentPlanAdmissionV1View,
    task_plan: TaskPlanEntryView,
)
    ensures
        task_admission_append(session, a, task_plan) matches Ok(r) ==> {
            &&& task_plan.status == TaskPlanStatus::Accepted
            &&& a.plan.source_session_id == session.session_scope_id
            &&& r.outcome.stack_id == a.plan.stack_id
            &&& r.outcome.stack_version == a.plan.stack_version
            &&& r.outcome.plan_digest == a.plan.plan_digest
            &&& r.outcome.appended ==> r.events == admission_events(
                a,
                Some(
                    IntentTaskPlanBindingV1View {
                        task_id: task_plan.task_id,
                        task_plan_version: task_plan.plan_version,
                    },
                ),
            ) && r.entries == seq![ControlEntryView::TaskPlan(task_plan)] && r.record_live
            &&& !r.outcome.appended ==> r.events.len() == 0 && r.entries.len() == 0 && r.record_live
                == !live_has(session.tasks, task_plan)
            &&& session.durable_records matches Some(records)
            &&& task_append(records, a, task_binding(task_plan), task_plan) == Ok::<bool, Seq<char>>(
                r.outcome.appended,
            )
        },
{
}

/// A chat admits nothing but what its user declared, as its root.
pub proof fn law_chats_admit_only_roots(session: SessionView, a: IntentPlanAdmissionV1View)
    ensures
        chat_admission_append(session, a) matches Ok(r) ==> {
            &&& a.plan.kind == IntentPlanKind::UserDeclaredRoot
            &&& a.acceptance_kind == IntentAcceptanceKind::UserDeclaredRootAdmission
            &&& a.plan.source_session_id == session.session_scope_id
            &&& r.outcome.stack_id == a.plan.stack_id
            &&& r.outcome.stack_version == a.plan.stack_version
            &&& r.outcome.plan_digest == a.plan.plan_digest
            &&& r.entries.len() == 0
            &&& !r.record_live
            &&& r.outcome.appended ==> r.events == admission_events(a, None)
            &&& !r.outcome.appended ==> r.events.len() == 0
            &&& session.durable_records matches Some(records)
            &&& chat_append(records, a) == Ok::<bool, Seq<char>>(r.outcome.appended)
        },
{
}

} // verus!
