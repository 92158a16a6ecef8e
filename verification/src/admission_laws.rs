//! What an admission holds of what was declared or proposed, which events it writes, and how the
//! steps of a task plan are bound to intents.

use vstd::prelude::*;

use crate::intent::{
    IntentAcceptanceCriterionV1View, IntentAcceptanceKind, IntentEventV1View, IntentPlanKind,
    IntentPlanProposalV1View, IntentPlanV1View, IntentProposalCriterionV1View, IntentSourceV1View,
    IntentTaskPlanBindingV1View, IntentVersionRefView,
};
use crate::intent_admission::{
    admission_events, admission_identity_verdict, admission_text_verdict, alias_binding_verdicts,
    alias_target, alias_verdicts, binding_refs, bound_steps, bound_task_plan, plan_refs,
    root_admission, step_ids, steps_refs_verdicts, successor_events, suggested_admission,
    unknown_steps, write_step_verdicts, IntentAcceptanceAuthorityV1View, IntentPlanAdmissionV1View,
};
use crate::intent_contract::{plan_digest_of, proposal_verdict};
use crate::intent_state::{
    IntentAdmissionContextV1View, ResolvedIntentAlias, TaskStepIntentAliasBindingV1,
    TaskStepIntentAliasBindingV1View, UserDeclaredIntentV1View,
};
use crate::records::{TaskPlanEntryView, TaskStepMode, TaskStepSpecView};
use crate::text::{byte_len, trim_end, trim_start, trimmed};
use crate::value::{find_key, lemma_all_pass, lemma_find_key, repeats};

verus! {

// Texts.

/// A character that prints: no control character of ASCII or of the block behind it.
pub open spec fn prints(c: char) -> bool {
    !(c < ' ' || ('\u{7f}' <= c && c <= '\u{9f}'))
}

proof fn lemma_trimmed_is_part(s: Seq<char>)
    ensures
        exists|from: int, to: int|
            0 <= from <= to <= s.len() && trimmed(s) == #[trigger] s.subrange(from, to),
{
    lemma_start_is_part(s);
    let from = choose|from: int| 0 <= from <= s.len() && trim_start(s) == #[trigger] s.skip(from);
    let rest = s.skip(from);
    lemma_end_is_part(rest);
    let to = choose|to: int| 0 <= to <= rest.len() && trim_end(rest) == #[trigger] rest.take(to);
    assert(s.subrange(from, from + to) =~= rest.take(to));
}

proof fn lemma_start_is_part(s: Seq<char>)
    ensures
        exists|from: int| 0 <= from <= s.len() && trim_start(s) == #[trigger] s.skip(from),
    decreases s.len(),
{
    if s.len() > 0 && crate::text::is_white_space(s[0]) {
        let rest = s.drop_first();
        lemma_start_is_part(rest);
        let from = choose|from: int|
            0 <= from <= rest.len() && trim_start(rest) == #[trigger] rest.skip(from);
        assert(s.skip(from + 1) =~= rest.skip(from));
    } else {
        assert(s.skip(0) =~= s);
    }
}

proof fn lemma_end_is_part(s: Seq<char>)
    ensures
        exists|to: int| 0 <= to <= s.len() && trim_end(s) == #[trigger] s.take(to),
    decreases s.len(),
{
    if s.len() > 0 && crate::text::is_white_space(s.last()) {
        let rest = s.drop_last();
        lemma_end_is_part(rest);
        let to = choose|to: int| 0 <= to <= rest.len() && trim_end(rest) == #[trigger] rest.take(to);
        assert(s.take(to) =~= rest.take(to));
    } else {
        assert(s.take(s.len() as int) =~= s);
    }
}

/// An identity without white space around it is accepted if and only if it is there, has at most
/// 256 bytes and prints. What is around it does not matter.
pub proof fn law_identities_are_bounded(label: Seq<char>, value: Seq<char>)
    ensures
        admission_identity_verdict(label, value) is Ok <==> {
            let t = trimmed(value);
            &&& t.len() > 0
            &&& byte_len(t) <= 256
            &&& forall|i: int| 0 <= i < t.len() ==> prints(#[trigger] t[i])
        },
        exists|from: int, to: int|
            0 <= from <= to <= value.len() && trimmed(value) == #[trigger] value.subrange(from, to),
        trimmed(value).len() > 0 ==> !crate::text::is_white_space(trimmed(value).last()),
{
    lemma_trimmed_is_part(value);
    lemma_no_white_end(trim_start(value));
    let t = trimmed(value);
    assert forall|i: int| 0 <= i < t.len() implies prints(#[trigger] t[i]) == crate::text::in_class(
        crate::text::CharClass::Printable,
        t[i],
    ) by {}
}

proof fn lemma_no_white_end(s: Seq<char>)
    ensures
        trim_end(s).len() > 0 ==> !crate::text::is_white_space(trim_end(s).last()),
    decreases s.len(),
{
    if s.len() > 0 && crate::text::is_white_space(s.last()) {
        lemma_no_white_end(s.drop_last());
    }
}

/// A text is accepted if and only if it is not white space alone, has no more bytes than it may,
/// and prints, line breaks and tabs aside.
pub proof fn law_texts_are_bounded(label: Seq<char>, value: Seq<char>, max: nat)
    ensures
        admission_text_verdict(label, value, max) is Ok <==> {
            &&& exists|i: int| 0 <= i < value.len() && !crate::text::is_white_space(#[trigger] value[i])
            &&& byte_len(value) <= max
            &&& forall|i: int|
                0 <= i < value.len() ==> prints(#[trigger] value[i]) || value[i] == '\n' || value[i]
                    == '\r' || value[i] == '\t'
        },
{
    assert forall|i: int| 0 <= i < value.len() implies (prints(#[trigger] value[i]) || value[i]
        == '\n' || value[i] == '\r' || value[i] == '\t') == crate::text::in_class(
        crate::text::CharClass::Prose,
        value[i],
    ) by {}
    if crate::text::is_blank(value) {
        assert forall|i: int| 0 <= i < value.len() implies crate::text::is_white_space(
            #[trigger] value[i],
        ) by {
            assert(crate::text::in_class(crate::text::CharClass::White, value[i]));
        }
    } else {
        let i = choose|i: int|
            0 <= i < value.len() && !crate::text::in_class(
                crate::text::CharClass::White,
                #[trigger] value[i],
            );
        assert(!crate::text::is_white_space(value[i]));
    }
}

// What was declared or proposed.

/// Criteria keep their statements and whether they are required, one by one.
pub open spec fn are_kept(
    drafted: Seq<IntentProposalCriterionV1View>,
    kept: Seq<IntentAcceptanceCriterionV1View>,
) -> bool {
    kept.len() == drafted.len() && forall|i: int|
        0 <= i < kept.len() ==> (#[trigger] kept[i]).statement == drafted[i].statement
            && kept[i].required == drafted[i].required
}

/// An admission is that of a plan of a context under an authority: it has the identities of the
/// context, its own digest, and names who accepted it.
pub open spec fn is_admitted_under(
    a: IntentPlanAdmissionV1View,
    context: IntentAdmissionContextV1View,
    authority: IntentAcceptanceAuthorityV1View,
) -> bool {
    &&& a.plan.schema_version == 1
    &&& a.plan.stack_id == context.stack_id
    &&& a.plan.stack_version == context.stack_version
    &&& a.plan.workspace_id == context.workspace_id
    &&& a.plan.source_session_id == context.source_session_id
    &&& a.plan.plan_digest == plan_digest_of(a.plan)
    &&& a.acceptance_kind == authority.kind
    &&& a.source_turn_id == authority.source_turn_id
    &&& a.acceptance_authority_id == authority.authority_event_id
}

proof fn lemma_own_digest(p: IntentPlanV1View, digest: Seq<char>)
    ensures
        plan_digest_of(IntentPlanV1View { plan_digest: digest, ..p }) == plan_digest_of(p),
{
    crate::intent_contract::lemma_plan_digest_is_left_out(p, digest);
}

/// What a user declares is admitted as the one intent of the first plan, word for word, as the
/// first version of itself, with the turn of the user as its source; and only under the authority
/// of that turn.
pub proof fn law_roots_are_admitted_as_declared(
    context: IntentAdmissionContextV1View,
    root: UserDeclaredIntentV1View,
    authority: IntentAcceptanceAuthorityV1View,
)
    ensures
        root_admission(context, root, authority) matches Ok(a) ==> {
            let d = a.plan.intents[0];
            &&& context.stack_version == 1
            &&& authority.kind == IntentAcceptanceKind::UserDeclaredRootAdmission
            &&& authority.proposal_digest is None
            &&& is_admitted_under(a, context, authority)
            &&& a.plan.kind == IntentPlanKind::UserDeclaredRoot
            &&& a.plan.intents.len() == 1
            &&& d.title == root.title
            &&& d.statement == root.statement
            &&& are_kept(root.acceptance_criteria, d.acceptance_criteria)
            &&& d.intent_ref.version == 1
            &&& d.depends_on.len() == 0
            &&& d.supersedes is None
            &&& d.source == (IntentSourceV1View::UserTurn {
                source_turn_id: authority.source_turn_id,
            })
            &&& a.resolved_aliases.len() == 1
            &&& a.resolved_aliases[0].alias == "root"@
            &&& a.resolved_aliases[0].intent_ref == d.intent_ref
        },
{
    if let Ok(a) = root_admission(context, root, authority) {
        lemma_own_digest(a.plan, crate::intent::zero_digest_text());
        let definition = crate::intent_admission::root_definition(
            context,
            root,
            authority.source_turn_id,
        );
        let draft = crate::intent_admission::plan_draft(
            context,
            IntentPlanKind::UserDeclaredRoot,
            seq![definition],
        );
        assert(IntentPlanV1View { plan_digest: crate::intent::zero_digest_text(), ..a.plan } == draft);
    }
}

/// A suggestion is admitted intent by intent, word for word, each as the first version of itself,
/// with the proposal and its turn as the source; and only where a user confirmed exactly this
/// proposal in that turn. An alias stands for the intent that was suggested under it, also where
/// another intent depends on it.
pub proof fn law_suggestions_are_admitted_as_proposed(
    context: IntentAdmissionContextV1View,
    proposal: IntentPlanProposalV1View,
    authority: IntentAcceptanceAuthorityV1View,
)
    ensures
        suggested_admission(context, proposal, authority) matches Ok(a) ==> {
            &&& context.stack_version == 1
            &&& authority.kind == IntentAcceptanceKind::ExplicitUserConfirmation
            &&& authority.proposal_digest == Some(proposal.proposal_digest)
            &&& authority.source_turn_id == proposal.source_turn_id
            &&& proposal_verdict(proposal) is Ok
            &&& is_admitted_under(a, context, authority)
            &&& a.plan.kind == IntentPlanKind::SuggestedDecomposition
            &&& a.plan.intents.len() == proposal.intents.len()
            &&& a.resolved_aliases.len() == proposal.intents.len()
            &&& forall|i: int|
                0 <= i < proposal.intents.len() ==> {
                    let u = proposal.intents[i];
                    let d = #[trigger] a.plan.intents[i];
                    &&& d.title == u.title
                    &&& d.statement == u.statement
                    &&& are_kept(u.acceptance_criteria, d.acceptance_criteria)
                    &&& d.intent_ref.version == 1
                    &&& d.supersedes is None
                    &&& d.source == (IntentSourceV1View::AcceptedSuggestion {
                        source_turn_id: proposal.source_turn_id,
                        proposal_digest: proposal.proposal_digest,
                    })
                    &&& a.resolved_aliases[i].alias == u.intent_alias
                    &&& a.resolved_aliases[i].intent_ref == d.intent_ref
                    &&& d.depends_on.len() == u.depends_on_aliases.len()
                }
            &&& forall|i: int, j: int, k: int|
                0 <= i < proposal.intents.len() && 0 <= j
                    < proposal.intents[i].depends_on_aliases.len() && 0 <= k < proposal.intents.len()
                    && #[trigger] proposal.intents[i].depends_on_aliases[j] == (
                #[trigger] proposal.intents[k]).intent_alias ==> a.plan.intents[i].depends_on[j]
                    == a.plan.intents[k].intent_ref.intent_id
        },
{
    if let Ok(a) = suggested_admission(context, proposal, authority) {
        lemma_own_digest(a.plan, crate::intent::zero_digest_text());
        let draft = crate::intent_admission::plan_draft(
            context,
            IntentPlanKind::SuggestedDecomposition,
            crate::intent_admission::suggested_definitions(context, proposal),
        );
        assert(IntentPlanV1View { plan_digest: crate::intent::zero_digest_text(), ..a.plan } == draft);
    }
}

/// An admission writes that its stack is created, that its plan is recorded and that it is
/// accepted, in this order; a later admission to the stack leaves the first out. All tell what the
/// admission holds.
pub proof fn law_admissions_write_what_they_hold(
    a: IntentPlanAdmissionV1View,
    binding: Option<IntentTaskPlanBindingV1View>,
)
    ensures
        ({
            let events = admission_events(a, binding);
            &&& events.len() == 3
            &&& events[0] == (IntentEventV1View::StackCreated {
                schema_version: 1,
                stack_id: a.plan.stack_id,
                workspace_id: a.plan.workspace_id,
                source_session_id: a.plan.source_session_id,
            })
            &&& events[1] == (IntentEventV1View::PlanRecorded { schema_version: 1, plan: a.plan })
            &&& events[2] == (IntentEventV1View::PlanAccepted {
                schema_version: 1,
                stack_id: a.plan.stack_id,
                stack_version: a.plan.stack_version,
                plan_digest: a.plan.plan_digest,
                acceptance_kind: a.acceptance_kind,
                source_turn_id: a.source_turn_id,
                acceptance_authority_id: a.acceptance_authority_id,
                task_plan_binding: binding,
            })
            &&& successor_events(a, binding) == seq![events[1], events[2]]
        }),
{
}

// How steps are bound.

/// The first alias of an admission with this text stands for an intent.
pub open spec fn stands_for(
    a: IntentPlanAdmissionV1View,
    alias: Seq<char>,
    x: IntentVersionRefView,
) -> bool {
    exists|i: int|
        0 <= i < a.resolved_aliases.len() && (#[trigger] a.resolved_aliases[i]).alias == alias
            && a.resolved_aliases[i].intent_ref == x && forall|j: int|
            0 <= j < i ==> (#[trigger] a.resolved_aliases[j]).alias != alias
}

/// An admission has an alias.
pub open spec fn is_an_alias(a: IntentPlanAdmissionV1View, alias: Seq<char>) -> bool {
    exists|i: int|
        0 <= i < a.resolved_aliases.len() && (#[trigger] a.resolved_aliases[i]).alias == alias
}

proof fn lemma_alias(a: IntentPlanAdmissionV1View, alias: Seq<char>, x: IntentVersionRefView)
    ensures
        (alias_target(a, alias) == Some(x)) == stands_for(a, alias, x),
{
    lemma_find_key::<ResolvedIntentAlias>(a.resolved_aliases, alias);
    match find_key::<ResolvedIntentAlias>(a.resolved_aliases, alias) {
        Some(i) => {
            assert(a.resolved_aliases[i].alias == alias);
        },
        None => {},
    }
}

/// A plan holds an intent.
pub open spec fn is_of_plan(plan: IntentPlanV1View, x: IntentVersionRefView) -> bool {
    exists|n: int| 0 <= n < plan.intents.len() && (#[trigger] plan.intents[n]).intent_ref == x
}

/// Steps have different identities.
pub open spec fn steps_differ(steps: Seq<TaskStepSpecView>) -> bool {
    forall|i: int, j: int|
        0 <= i < j < steps.len() ==> (#[trigger] steps[i]).step_id != (#[trigger] steps[j]).step_id
}

proof fn lemma_unknown_steps(
    bindings: Seq<TaskStepIntentAliasBindingV1View>,
    steps: Seq<TaskStepSpecView>,
    n: int,
)
    requires
        0 <= n <= bindings.len(),
    ensures
        unknown_steps(bindings, steps, n).len() == 0 <==> forall|k: int|
            0 <= k < n ==> step_ids(steps).contains((#[trigger] bindings[k]).step_id),
    decreases n,
{
    if n > 0 {
        lemma_unknown_steps(bindings, steps, n - 1);
        if (forall|k: int| 0 <= k < n ==> step_ids(steps).contains((#[trigger] bindings[k]).step_id)) {
            assert(step_ids(steps).contains(bindings[n - 1].step_id));
        }
    }
}

/// The binding at `k` can be used: it alone names its step, a step of the plan; its aliases differ
/// and stand for intents of the plan that differ.
pub open spec fn is_usable(
    a: IntentPlanAdmissionV1View,
    steps: Seq<TaskStepSpecView>,
    bindings: Seq<TaskStepIntentAliasBindingV1View>,
    k: int,
) -> bool {
    let aliases = bindings[k].intent_aliases;
    &&& exists|i: int| 0 <= i < steps.len() && (#[trigger] steps[i]).step_id == bindings[k].step_id
    &&& forall|j: int| 0 <= j < k ==> (#[trigger] bindings[j]).step_id != bindings[k].step_id
    &&& forall|m: int, n: int|
        0 <= m < n < aliases.len() ==> #[trigger] aliases[m] != #[trigger] aliases[n]
    &&& forall|m: int| 0 <= m < aliases.len() ==> is_an_alias(a, #[trigger] aliases[m])
    &&& forall|m: int, n: int, x: IntentVersionRefView|
        0 <= m < n < aliases.len() && #[trigger] stands_for(a, aliases[m], x) ==> !#[trigger] stands_for(
            a,
            aliases[n],
            x,
        )
}

/// A bound task plan differs from the plan that was bound in nothing but the intents of its steps:
/// a step has, in order, the intents that the aliases of its binding stand for, and none where it
/// has no binding. Every intent is one of the accepted plan; a step that writes has exactly one.
/// Every binding can be used.
pub proof fn law_steps_are_bound_as_named(
    a: IntentPlanAdmissionV1View,
    task_plan: TaskPlanEntryView,
    bindings: Seq<TaskStepIntentAliasBindingV1View>,
)
    requires
        steps_differ(task_plan.steps),
    ensures
        bound_task_plan(a, task_plan, bindings) matches Ok(t) ==> {
            &&& task_plan.graph_validation_error is None
            &&& t == (TaskPlanEntryView { steps: t.steps, ..task_plan })
            &&& t.steps.len() == task_plan.steps.len()
            &&& forall|k: int|
                #![trigger bindings[k]]
                0 <= k < bindings.len() ==> is_usable(a, task_plan.steps, bindings, k)
            &&& forall|i: int|
                0 <= i < t.steps.len() ==> {
                    let s = #[trigger] t.steps[i];
                    &&& s == (TaskStepSpecView { intent_refs: s.intent_refs, ..task_plan.steps[i] })
                    &&& s.mode == TaskStepMode::Write ==> s.intent_refs.len() == 1
                    &&& (forall|k: int|
                        0 <= k < bindings.len() ==> (#[trigger] bindings[k]).step_id != s.step_id)
                        ==> s.intent_refs.len() == 0
                    &&& forall|m: int|
                        0 <= m < s.intent_refs.len() ==> is_of_plan(a.plan, #[trigger] s.intent_refs[m])
                }
            &&& forall|i: int, k: int|
                #![trigger t.steps[i], bindings[k]]
                0 <= i < t.steps.len() && 0 <= k < bindings.len() && bindings[k].step_id
                    == t.steps[i].step_id ==> {
                    &&& t.steps[i].intent_refs.len() == bindings[k].intent_aliases.len()
                    &&& forall|m: int|
                        0 <= m < bindings[k].intent_aliases.len() ==> stands_for(
                            a,
                            #[trigger] bindings[k].intent_aliases[m],
                            t.steps[i].intent_refs[m],
                        )
                }
        },
{
    if let Ok(t) = bound_task_plan(a, task_plan, bindings) {
        let steps = task_plan.steps;
        let all = alias_binding_verdicts(a, bindings);
        lemma_all_pass(all);
        lemma_all_pass(write_step_verdicts(t.steps));
        let refs = plan_refs(a.plan);
        lemma_all_pass(steps_refs_verdicts(refs, t.steps));
        lemma_unknown_steps(bindings, steps, bindings.len() as int);
        assert(t.steps == bound_steps(a, steps, bindings));
        assert forall|i: int| 0 <= i < steps.len() implies !repeats(#[trigger] step_ids(steps), i) by {}
        assert forall|k: int|
            #![trigger bindings[k]]
            0 <= k < bindings.len() implies is_usable(a, steps, bindings, k) && (forall|m: int|
            0 <= m < bindings[k].intent_aliases.len() ==> stands_for(
                a,
                #[trigger] bindings[k].intent_aliases[m],
                binding_refs(a, bindings[k].intent_aliases)[m],
            )) by {
            lemma_binding(a, steps, bindings, k);
        }
        assert forall|i: int| 0 <= i < t.steps.len() implies {
            let s = #[trigger] t.steps[i];
            &&& s == (TaskStepSpecView { intent_refs: s.intent_refs, ..task_plan.steps[i] })
            &&& s.mode == TaskStepMode::Write ==> s.intent_refs.len() == 1
            &&& (forall|k: int|
                0 <= k < bindings.len() ==> (#[trigger] bindings[k]).step_id != s.step_id)
                ==> s.intent_refs.len() == 0
            &&& forall|m: int|
                0 <= m < s.intent_refs.len() ==> is_of_plan(a.plan, #[trigger] s.intent_refs[m])
        } by {
            let s = t.steps[i];
            assert(write_step_verdicts(t.steps)[i] is Ok);
            assert(steps_refs_verdicts(refs, t.steps)[i] is Ok);
            lemma_find_key::<TaskStepIntentAliasBindingV1>(bindings, steps[i].step_id);
            assert forall|m: int| 0 <= m < s.intent_refs.len() implies is_of_plan(a.plan, #[trigger] s.intent_refs[m]) by {
                assert(refs.contains(s.intent_refs[m]));
                let n = choose|n: int| 0 <= n < refs.len() && refs[n] == s.intent_refs[m];
                assert(a.plan.intents[n].intent_ref == s.intent_refs[m]);
            }
        }
        assert forall|i: int, k: int|
            #![trigger t.steps[i], bindings[k]]
            0 <= i < t.steps.len() && 0 <= k < bindings.len() && bindings[k].step_id
                == t.steps[i].step_id implies {
            &&& t.steps[i].intent_refs.len() == bindings[k].intent_aliases.len()
            &&& forall|m: int|
                0 <= m < bindings[k].intent_aliases.len() ==> stands_for(
                    a,
                    #[trigger] bindings[k].intent_aliases[m],
                    t.steps[i].intent_refs[m],
                )
        } by {
            lemma_find_key::<TaskStepIntentAliasBindingV1>(bindings, steps[i].step_id);
            let f = find_key::<TaskStepIntentAliasBindingV1>(bindings, steps[i].step_id);
            assert(f is Some) by {
                if f is None {
                    assert(bindings[k].step_id != steps[i].step_id);
                }
            }
            let j = f->0;
            if j < k {
                assert(is_usable(a, steps, bindings, k));
                assert(bindings[j].step_id != bindings[k].step_id);
            }
            assert(t.steps[i].intent_refs == binding_refs(a, bindings[k].intent_aliases));
        }
    }
}

proof fn lemma_binding(
    a: IntentPlanAdmissionV1View,
    steps: Seq<TaskStepSpecView>,
    bindings: Seq<TaskStepIntentAliasBindingV1View>,
    k: int,
)
    requires
        0 <= k < bindings.len(),
        alias_binding_verdicts(a, bindings)[k] is Ok,
        step_ids(steps).contains(bindings[k].step_id),
    ensures
        is_usable(a, steps, bindings, k),
        forall|m: int|
            0 <= m < bindings[k].intent_aliases.len() ==> stands_for(
                a,
                #[trigger] bindings[k].intent_aliases[m],
                binding_refs(a, bindings[k].intent_aliases)[m],
            ),
{
    let b = bindings[k];
    let aliases = b.intent_aliases;
    let named = binding_refs(a, aliases);
    lemma_all_pass(alias_verdicts(a, b));
    let ids = step_ids(steps);
    let i = choose|i: int| 0 <= i < ids.len() && ids[i] == b.step_id;
    assert(steps[i].step_id == b.step_id);
    assert forall|j: int| 0 <= j < k implies (#[trigger] bindings[j]).step_id != b.step_id by {
        let bound = crate::intent_admission::bound_step_ids(bindings);
        assert(!repeats(bound, k));
        assert(bound[j] != bound[k]);
    }
    assert forall|m: int| 0 <= m < aliases.len() implies stands_for(
        a,
        #[trigger] aliases[m],
        named[m],
    ) by {
        assert(alias_verdicts(a, b)[m] is Ok);
        lemma_alias(a, aliases[m], named[m]);
    }
    assert forall|m: int| 0 <= m < aliases.len() implies is_an_alias(a, #[trigger] aliases[m]) by {
        assert(stands_for(a, aliases[m], named[m]));
    }
    assert forall|m: int, n: int| 0 <= m < n < aliases.len() implies #[trigger] aliases[m]
        != #[trigger] aliases[n] by {
        assert(alias_verdicts(a, b)[n] is Ok);
        assert(!repeats(aliases, n));
    }
    assert forall|m: int, n: int, x: IntentVersionRefView|
        0 <= m < n < aliases.len() && #[trigger] stands_for(a, aliases[m], x) implies !#[trigger] stands_for(
        a,
        aliases[n],
        x,
    ) by {
        lemma_alias(a, aliases[m], x);
        lemma_alias(a, aliases[n], x);
        assert(named[m] != named[n]);
    }
}

} // verus!
