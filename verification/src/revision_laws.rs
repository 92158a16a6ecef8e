//! What a revision must be, what it makes of a plan, and what a forked session takes over.

use vstd::prelude::*;

use crate::intent::{
    IntentAcceptanceKind, IntentApplicationState, IntentOperationKind, IntentPlanV1View,
    IntentSourceV1View,
};
use crate::intent_admission::{plan_refs, successor_events, IntentPlanAdmissionV1View};
use crate::intent_contract::ref_verdict;
use crate::intent_layer_contract::preview_verdict;
use crate::intent_impact::{
    impact_preview_verdict, revision_criterion_verdicts, revision_dependency_verdicts,
    revision_digest_of, revision_preview, revision_verdict, runtime_text_verdict,
    transition_verdicts,
};
use crate::intent_operation::{authority_holds, authority_of, runtime_identity_verdict};
use crate::intent_revision::{
    adopted_needed, adopted_plan, adoption, adoption_verdict, optional_binding, revision_acceptance,
    revision_admission, revision_authority, successor_admission_append, successor_append,
    successor_needed, IntentAdoptionAuthorityV1View, IntentRevisionAuthorityV1View,
};
use crate::intent_stack::{
    accepted_version, latest_accepted, session_stack, stack_of, IntentStackProjectionV1View,
};
use crate::intent_state::{IntentImpactPreviewV1View, IntentRevisionProposalV1View};
use crate::records::{
    ControlEntryView, SessionStreamRecordView, SessionView, TaskPlanEntryView, TaskPlanStatus,
};
use crate::stack_laws::{comes_next, is_admitted, is_bare};
use crate::text::{byte_len, is_white_space};
use crate::value::{find_item, lemma_all_pass, lemma_find_item, repeats};

verus! {

// Texts of the running host.

/// A text that is not blank, has few enough bytes, and prints throughout.
pub open spec fn is_printed(s: Seq<char>, max: nat) -> bool {
    &&& exists|i: int| 0 <= i < s.len() && !is_white_space(#[trigger] s[i])
    &&& byte_len(s) <= max
    &&& forall|i: int|
        0 <= i < s.len() ==> (#[trigger] s[i]) >= ' ' && !('\u{7f}' <= s[i] && s[i] <= '\u{9f}')
}

proof fn lemma_printed(s: Seq<char>, max: nat, label: Seq<char>)
    ensures
        runtime_text_verdict(label, s, max) is Ok == is_printed(s, max),
        runtime_identity_verdict(label, s) is Ok == is_printed(s, 256),
{
    assert forall|i: int| 0 <= i < s.len() implies ((#[trigger] s[i]) >= ' ' && !('\u{7f}' <= s[i]
        && s[i] <= '\u{9f}')) == crate::text::in_class(crate::text::CharClass::Printable, s[i]) by {}
    if crate::text::is_blank(s) {
        assert forall|i: int| 0 <= i < s.len() implies is_white_space(#[trigger] s[i]) by {
            assert(crate::text::in_class(crate::text::CharClass::White, s[i]));
        }
    } else {
        let i = choose|i: int|
            0 <= i < s.len() && !crate::text::in_class(crate::text::CharClass::White, #[trigger] s[i]);
        assert(!is_white_space(s[i]));
    }
}

/// An authority is made if and only if its identity is printed text of at most 256 bytes and its
/// end, where it has one, is not zero; it has what it was made of. It holds up to its end, and for
/// ever without one.
pub proof fn law_authorities_are_exact(
    permission_policy_digest: Seq<char>,
    approval_authority_id: Seq<char>,
    expires_at_ms: Option<u64>,
    now_ms: u64,
)
    ensures
        ({
            let r = authority_of(permission_policy_digest, approval_authority_id, expires_at_ms);
            &&& r is Ok <==> is_printed(approval_authority_id, 256) && expires_at_ms != Some(0u64)
            &&& r matches Ok(a) ==> {
                &&& a.permission_policy_digest == permission_policy_digest
                &&& a.approval_authority_id == approval_authority_id
                &&& a.expires_at_ms == expires_at_ms
                &&& authority_holds(a, now_ms) <==> (expires_at_ms is None || now_ms
                    <= expires_at_ms->0)
            }
        }),
{
    lemma_printed(approval_authority_id, 256, "intent approval authority"@);
}

// Proposals.

/// A proposal of a revision is good if and only if it has the first schema, printed identities and
/// texts within their bounds, a good target, from one to 64 criteria with different printed
/// aliases, at most 64 different dependencies none of which is the target itself, and its own
/// digest.
pub proof fn law_revisions_are_exact(p: IntentRevisionProposalV1View)
    ensures
        revision_verdict(p) is Ok <==> {
            let c = p.acceptance_criteria;
            &&& p.schema_version == 1
            &&& is_printed(p.proposal_id, 256)
            &&& is_printed(p.source_turn_id, 256)
            &&& ref_verdict(p.target_intent_ref) is Ok
            &&& is_printed(p.title, 256)
            &&& is_printed(p.statement, 4096)
            &&& 1 <= c.len() <= 64
            &&& p.depends_on.len() <= 64
            &&& forall|i: int|
                0 <= i < c.len() ==> is_printed((#[trigger] c[i]).criterion_alias, 256) && is_printed(
                    c[i].statement,
                    4096,
                )
            &&& forall|i: int, j: int|
                0 <= i < j < c.len() ==> (#[trigger] c[i]).criterion_alias != (
                #[trigger] c[j]).criterion_alias
            &&& forall|i: int|
                0 <= i < p.depends_on.len() ==> #[trigger] p.depends_on[i]
                    != p.target_intent_ref.intent_id
            &&& forall|i: int, j: int|
                0 <= i < j < p.depends_on.len() ==> #[trigger] p.depends_on[i]
                    != #[trigger] p.depends_on[j]
            &&& p.proposal_digest == revision_digest_of(p)
        },
{
    let c = p.acceptance_criteria;
    lemma_printed(p.proposal_id, 256, "intent revision proposal id"@);
    lemma_printed(p.source_turn_id, 256, "intent revision source turn id"@);
    lemma_printed(p.title, 256, "intent revision title"@);
    lemma_printed(p.statement, 4096, "intent revision statement"@);
    let a = revision_criterion_verdicts(c);
    lemma_all_pass(a);
    let ids = crate::intent_contract::criterion_aliases(c);
    assert forall|i: int| 0 <= i < c.len() implies (#[trigger] a[i]) is Ok == (is_printed(
        c[i].criterion_alias,
        256,
    ) && is_printed(c[i].statement, 4096) && !repeats(ids, i)) by {
        lemma_printed(c[i].criterion_alias, 256, "intent revision criterion alias"@);
        lemma_printed(c[i].statement, 4096, "intent revision criterion"@);
    }
    if forall|i: int| 0 <= i < a.len() ==> (#[trigger] a[i]) is Ok {
        assert forall|i: int| 0 <= i < c.len() implies is_printed((#[trigger] c[i]).criterion_alias, 256)
            && is_printed(c[i].statement, 4096) by {
            assert(a[i] is Ok);
        }
        assert forall|i: int, j: int| 0 <= i < j < c.len() implies (#[trigger] c[i]).criterion_alias != (
        #[trigger] c[j]).criterion_alias by {
            assert(a[j] is Ok);
            assert(!repeats(ids, j));
            assert(ids[i] != ids[j]);
        }
    }
    if (forall|i: int|
        0 <= i < c.len() ==> is_printed((#[trigger] c[i]).criterion_alias, 256) && is_printed(
            c[i].statement,
            4096,
        )) && (forall|i: int, j: int|
        0 <= i < j < c.len() ==> (#[trigger] c[i]).criterion_alias != (#[trigger] c[j]).criterion_alias) {
        assert forall|i: int| 0 <= i < a.len() implies (#[trigger] a[i]) is Ok by {
            assert(is_printed(c[i].criterion_alias, 256));
            if repeats(ids, i) {
                let j = choose|j: int| 0 <= j < i && #[trigger] ids[j] == ids[i];
                assert(c[j].criterion_alias == c[i].criterion_alias);
            }
        }
    }
    let d = p.depends_on;
    let b = revision_dependency_verdicts(p.target_intent_ref.intent_id, d);
    lemma_all_pass(b);
    if forall|i: int| 0 <= i < b.len() ==> (#[trigger] b[i]) is Ok {
        assert forall|i: int| 0 <= i < d.len() implies #[trigger] d[i]
            != p.target_intent_ref.intent_id by {
            assert(b[i] is Ok);
        }
        assert forall|i: int, j: int| 0 <= i < j < d.len() implies #[trigger] d[i] != #[trigger] d[j] by {
            assert(b[j] is Ok);
            assert(!repeats(d, j));
        }
    }
    if (forall|i: int| 0 <= i < d.len() ==> #[trigger] d[i] != p.target_intent_ref.intent_id) && (forall|
        i: int,
        j: int,
    |
        0 <= i < j < d.len() ==> #[trigger] d[i] != #[trigger] d[j]) {
        assert forall|i: int| 0 <= i < b.len() implies (#[trigger] b[i]) is Ok by {
            assert(d[i] != p.target_intent_ref.intent_id);
            if repeats(d, i) {
                let j = choose|j: int| 0 <= j < i && #[trigger] d[j] == d[i];
                assert(d[j] == d[i]);
            }
        }
    }
}

/// A preview of an impact is good if and only if it is a good preview of a revision or a
/// replacement that changes no file, and says of each of its targets, in order, that it is to be
/// reviewed or rebuilt.
pub proof fn law_impact_previews_are_exact(p: IntentImpactPreviewV1View)
    ensures
        impact_preview_verdict(p) is Ok <==> {
            &&& preview_verdict(p.operation) is Ok
            &&& p.operation.operation_kind == IntentOperationKind::ReviseImpactPreview
                || p.operation.operation_kind == IntentOperationKind::ReplaceImpactPreview
            &&& p.operation.file_effects.len() == 0
            &&& p.application_impacts.len() == p.operation.target_intents.len()
            &&& forall|i: int|
                0 <= i < p.application_impacts.len() ==> {
                    let x = #[trigger] p.application_impacts[i];
                    &&& x.intent_ref == p.operation.target_intents[i]
                    &&& x.application_state == IntentApplicationState::NeedsReview
                        || x.application_state == IntentApplicationState::NeedsRebuild
                }
        },
{
    let all = transition_verdicts(p);
    lemma_all_pass(all);
    if forall|i: int| 0 <= i < all.len() ==> (#[trigger] all[i]) is Ok {
        assert forall|i: int| 0 <= i < p.application_impacts.len() implies {
            let x = #[trigger] p.application_impacts[i];
            &&& x.intent_ref == p.operation.target_intents[i]
            &&& x.application_state == IntentApplicationState::NeedsReview || x.application_state
                == IntentApplicationState::NeedsRebuild
        } by {
            assert(all[i] is Ok);
        }
    }
}

/// The authority for a revision is bound to one good proposal and one good preview of a revision.
pub proof fn law_revision_authorities_are_bound(
    proposal: IntentRevisionProposalV1View,
    preview: IntentImpactPreviewV1View,
    authority_event_id: Seq<char>,
)
    ensures
        ({
            let r = revision_authority(proposal, preview, authority_event_id);
            &&& r is Ok <==> revision_verdict(proposal) is Ok && impact_preview_verdict(preview) is Ok
                && preview.operation.operation_kind == IntentOperationKind::ReviseImpactPreview
                && is_printed(authority_event_id, 256)
            &&& r matches Ok(a) ==> a.source_turn_id == proposal.source_turn_id
                && a.authority_event_id == authority_event_id && a.proposal_digest
                == proposal.proposal_digest && a.preview_digest == preview.operation.preview_digest
        }),
{
    lemma_printed(authority_event_id, 256, "intent revision acceptance authority id"@);
}

// What a revision makes.

/// A revision makes the next version of a plan: same stack, workspace, session, kind and intents in
/// their places, but for the target, which becomes the next version of itself with the words, the
/// criteria and the dependencies of the proposal, names what it supersedes, and comes from the turn
/// of the proposal in the manner of its predecessor. What comes from a trusted source is not
/// revised.
pub proof fn law_revisions_make_the_next_plan(
    plan: IntentPlanV1View,
    proposal: IntentRevisionProposalV1View,
    authority: IntentRevisionAuthorityV1View,
)
    ensures
        revision_admission(plan, proposal, authority) matches Ok(a) ==> exists|k: int|
            0 <= k < plan.intents.len() && {
                let before = #[trigger] plan.intents[k];
                let d = a.plan.intents[k];
                &&& before.intent_ref == proposal.target_intent_ref
                &&& a.plan.intents.len() == plan.intents.len()
                &&& forall|j: int|
                    0 <= j < plan.intents.len() && j != k ==> #[trigger] a.plan.intents[j]
                        == plan.intents[j]
                &&& d.intent_ref.intent_id == proposal.target_intent_ref.intent_id
                &&& d.intent_ref.version == proposal.target_intent_ref.version + 1
                &&& d.supersedes == Some(proposal.target_intent_ref)
                &&& d.title == proposal.title
                &&& d.statement == proposal.statement
                &&& d.depends_on == proposal.depends_on
                &&& d.acceptance_criteria.len() == proposal.acceptance_criteria.len()
                &&& forall|j: int|
                    0 <= j < d.acceptance_criteria.len() ==> (
                    #[trigger] d.acceptance_criteria[j]).statement
                        == proposal.acceptance_criteria[j].statement
                        && d.acceptance_criteria[j].required
                        == proposal.acceptance_criteria[j].required
                &&& !(before.source is TrustedSource)
                &&& before.source is UserTurn ==> d.source == (IntentSourceV1View::UserTurn {
                    source_turn_id: proposal.source_turn_id,
                })
                &&& before.source is AcceptedSuggestion ==> d.source
                    == (IntentSourceV1View::AcceptedSuggestion {
                    source_turn_id: proposal.source_turn_id,
                    proposal_digest: proposal.proposal_digest,
                })
                &&& a.plan.stack_id == plan.stack_id
                &&& comes_next(plan.stack_version, a.plan.stack_version)
                &&& a.plan.workspace_id == plan.workspace_id
                &&& a.plan.source_session_id == plan.source_session_id
                &&& a.plan.kind == plan.kind
                &&& a.plan.schema_version == 1
                &&& a.acceptance_kind == IntentAcceptanceKind::ExplicitUserConfirmation
                &&& a.source_turn_id == proposal.source_turn_id
                &&& a.acceptance_authority_id == authority.authority_event_id
                &&& a.resolved_aliases.len() == 0
            },
        (forall|k: int|
            0 <= k < plan.intents.len() ==> (#[trigger] plan.intents[k]).intent_ref
                != proposal.target_intent_ref) ==> revision_admission(plan, proposal, authority) is Err,
{
    let refs = plan_refs(plan);
    lemma_find_item(refs, proposal.target_intent_ref);
    match find_item(refs, proposal.target_intent_ref) {
        Some(k) => {
            assert(plan.intents[k].intent_ref == proposal.target_intent_ref);
        },
        None => {},
    }
}

/// A later plan is appended if and only if no acceptance waits, a plan was accepted before, and its
/// version comes next both among the recorded and among the accepted plans.
pub proof fn law_successors_come_next(p: IntentStackProjectionV1View, a: IntentPlanAdmissionV1View)
    ensures
        successor_append(p, a) is Ok <==> {
            &&& p.pending_task_acceptance is None
            &&& p.accepted_plans.len() > 0
            &&& comes_next(
                p.accepted_plans[p.accepted_plans.len() - 1].plan.stack_version,
                a.plan.stack_version,
            )
            &&& p.recorded_plans.len() == 0 ==> a.plan.stack_version == 1
            &&& p.recorded_plans.len() > 0 ==> comes_next(
                p.recorded_plans[p.recorded_plans.len() - 1].stack_version,
                a.plan.stack_version,
            )
        },
        successor_append(p, a) matches Ok(needed) ==> needed,
{
}

/// An accepted revision is one whose proposal and preview are good and are those of the authority,
/// whose plan is the one of the preview, and whose preview is still what the session would show
/// now, unless exactly this revision was accepted before.
pub proof fn law_accepted_revisions_are_current(
    session: SessionView,
    workspace_id: Seq<char>,
    workspace_revision: Option<u64>,
    proposal: IntentRevisionProposalV1View,
    preview: IntentImpactPreviewV1View,
    authority: IntentRevisionAuthorityV1View,
    task_plan: Option<TaskPlanEntryView>,
)
    ensures
        revision_acceptance(
            session,
            workspace_id,
            workspace_revision,
            proposal,
            preview,
            authority,
            task_plan,
        ) matches Ok(r) ==> {
            &&& revision_verdict(proposal) is Ok
            &&& impact_preview_verdict(preview) is Ok
            &&& authority.source_turn_id == proposal.source_turn_id
            &&& authority.proposal_digest == proposal.proposal_digest
            &&& authority.preview_digest == preview.operation.preview_digest
            &&& session.durable_records matches Some(records)
            &&& stack_of(records) matches Ok(p)
            &&& accepted_version(p, preview.operation.stack_version) matches Some(accepted)
            &&& accepted.plan.stack_id == preview.operation.stack_id
            &&& revision_admission(accepted.plan, proposal, authority) matches Ok(a)
            &&& revision_preview(session, workspace_id, workspace_revision, proposal) == Ok::<
                _,
                Seq<char>,
            >(preview) || {
                &&& p.accepted_plans.len() > 0
                &&& p.accepted_plans[p.accepted_plans.len() - 1].plan == a.plan
                &&& p.accepted_plans[p.accepted_plans.len() - 1].acceptance_kind == a.acceptance_kind
                &&& p.accepted_plans[p.accepted_plans.len() - 1].source_turn_id == a.source_turn_id
                &&& p.accepted_plans[p.accepted_plans.len() - 1].acceptance_authority_id
                    == a.acceptance_authority_id
            }
            &&& successor_admission_append(session, a, task_plan) == Ok::<_, Seq<char>>(r)
        },
{
}

/// A later plan is written whole, with its task plan where it has one, or nothing is written.
pub proof fn law_successors_are_written_whole(
    session: SessionView,
    a: IntentPlanAdmissionV1View,
    task_plan: Option<TaskPlanEntryView>,
)
    ensures
        successor_admission_append(session, a, task_plan) matches Ok(r) ==> {
            &&& a.plan.source_session_id == session.session_scope_id
            &&& task_plan matches Some(t) ==> t.status == TaskPlanStatus::Accepted
                && t.graph_validation_error is None
            &&& r.outcome.stack_id == a.plan.stack_id
            &&& r.outcome.stack_version == a.plan.stack_version
            &&& r.outcome.plan_digest == a.plan.plan_digest
            &&& session.durable_records matches Some(records)
            &&& successor_needed(records, a, task_plan) == Ok::<bool, Seq<char>>(r.outcome.appended)
            &&& r.outcome.appended ==> r.events == successor_events(a, optional_binding(task_plan))
                && r.entries == (if task_plan is Some {
                seq![ControlEntryView::TaskPlan(task_plan->0)]
            } else {
                Seq::empty()
            })
            &&& !r.outcome.appended ==> r.events.len() == 0 && r.entries.len() == 0
        },
{
}

// What a forked session takes over.

/// A plan that is taken over is the first of a new stack, in the workspace and the session that
/// take it over; its intents are those of the plan, without their history.
pub proof fn law_adopted_plans_are_copies(
    plan: IntentPlanV1View,
    new_stack_id: Seq<char>,
    workspace_id: Seq<char>,
    session_id: Seq<char>,
)
    ensures
        ({
            let p = adopted_plan(plan, new_stack_id, workspace_id, session_id);
            &&& p.schema_version == 1
            &&& p.stack_id == new_stack_id
            &&& p.stack_version == 1
            &&& p.workspace_id == workspace_id
            &&& p.source_session_id == session_id
            &&& p.kind == plan.kind
            &&& p.intents.len() == plan.intents.len()
            &&& forall|i: int|
                0 <= i < p.intents.len() ==> {
                    let a = plan.intents[i];
                    let b = #[trigger] p.intents[i];
                    &&& b.supersedes is None
                    &&& b.intent_ref == a.intent_ref
                    &&& b.title == a.title
                    &&& b.statement == a.statement
                    &&& b.acceptance_criteria == a.acceptance_criteria
                    &&& b.depends_on == a.depends_on
                    &&& b.source == a.source
                }
        }),
{
}

/// An adoption still holds if and only if the fork, the plan, both workspaces, both snapshots and
/// both branches are those that its authority names.
pub proof fn law_adoptions_hold_exactly(
    authority: IntentAdoptionAuthorityV1View,
    plan: IntentPlanV1View,
    fork_source: Option<Seq<char>>,
    source_workspace_id: Seq<char>,
    destination_workspace_id: Seq<char>,
    source_snapshot_id: Seq<char>,
    destination_snapshot_id: Seq<char>,
    source_branch: Seq<char>,
    destination_branch: Seq<char>,
)
    ensures
        adoption_verdict(
            authority,
            plan,
            fork_source,
            source_workspace_id,
            destination_workspace_id,
            source_snapshot_id,
            destination_snapshot_id,
            source_branch,
            destination_branch,
        ) is Ok <==> {
            &&& fork_source == Some(authority.source_session_id)
            &&& plan.plan_digest == authority.source_plan_digest
            &&& is_printed(source_branch, 256)
            &&& is_printed(destination_branch, 256)
            &&& source_workspace_id == authority.source_workspace_id
            &&& destination_workspace_id == authority.destination_workspace_id
            &&& source_snapshot_id == authority.source_snapshot_id
            &&& destination_snapshot_id == authority.destination_snapshot_id
            &&& source_branch == authority.branch_lineage_digest
            &&& destination_branch == authority.branch_lineage_digest
        },
{
    lemma_printed(source_branch, 256, "current source Intent branch lineage digest"@);
    lemma_printed(destination_branch, 256, "current destination Intent branch lineage digest"@);
}

/// An adopted plan is appended if and only if the session is still a fork of the other, nothing of
/// a stack is in its stream, and the version of the plan is one; where exactly this plan was
/// adopted, nothing is appended.
pub proof fn law_adoptions_are_appended_exactly(
    records: Seq<SessionStreamRecordView>,
    a: IntentPlanAdmissionV1View,
    source_session_id: Seq<char>,
    p: IntentStackProjectionV1View,
)
    requires
        stack_of(records) == Ok::<_, Seq<char>>(p),
    ensures
        adopted_needed(records, a, source_session_id) == Ok::<bool, Seq<char>>(true)
            <==> p.fork_source_session_id == Some(source_session_id) && is_bare(p)
            && a.plan.stack_version == 1,
        adopted_needed(records, a, source_session_id) == Ok::<bool, Seq<char>>(false)
            <==> p.fork_source_session_id == Some(source_session_id) && is_admitted(p, a, None),
{
}

/// Taking over a plan is between the two sessions of its authority, of the last accepted plan of
/// the one, into the other while it is still a fork of it and holds no other accepted plan.
pub proof fn law_adoptions_are_between_their_sessions(
    source: SessionView,
    destination: SessionView,
    source_workspace_id: Seq<char>,
    destination_workspace_id: Seq<char>,
    source_snapshot_id: Seq<char>,
    destination_snapshot_id: Seq<char>,
    source_branch: Seq<char>,
    destination_branch: Seq<char>,
    authority: IntentAdoptionAuthorityV1View,
)
    ensures
        adoption(
            source,
            destination,
            source_workspace_id,
            destination_workspace_id,
            source_snapshot_id,
            destination_snapshot_id,
            source_branch,
            destination_branch,
            authority,
        ) matches Ok(r) ==> {
            &&& authority.source_session_id == source.session_scope_id
            &&& authority.destination_session_id == destination.session_scope_id
            &&& session_stack(source) matches Ok(s)
            &&& session_stack(destination) matches Ok(d)
            &&& s.accepted_plans.len() > 0
            &&& adoption_verdict(
                authority,
                s.accepted_plans[s.accepted_plans.len() - 1].plan,
                d.fork_source_session_id,
                source_workspace_id,
                destination_workspace_id,
                source_snapshot_id,
                destination_snapshot_id,
                source_branch,
                destination_branch,
            ) is Ok
            &&& r.outcome.stack_id == authority.new_stack_id
            &&& r.outcome.stack_version == 1
            &&& r.entries.len() == 0
            &&& r.outcome.appended ==> d.accepted_plans.len() == 0
        },
{
    if let Ok(r) = adoption(
        source,
        destination,
        source_workspace_id,
        destination_workspace_id,
        source_snapshot_id,
        destination_snapshot_id,
        source_branch,
        destination_branch,
        authority,
    ) {
        let d = session_stack(destination)->Ok_0;
        let s = session_stack(source)->Ok_0;
        assert(latest_accepted(s) == Some(s.accepted_plans[s.accepted_plans.len() - 1]));
        assert(destination.durable_records is Some);
        assert(stack_of(destination.durable_records->0) == Ok::<_, Seq<char>>(d));
    }
}

} // verus!
