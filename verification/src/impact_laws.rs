//! What a preview of a revision or a replacement tells: which intents it touches, what becomes of
//! them, and which receipts no longer count.

use vstd::prelude::*;

use crate::intent::{
    IntentApplicationState, IntentDefinitionV1View, IntentOperationKind, IntentPlanV1View,
    IntentVerificationImpact, IntentVersionRefView,
};
use crate::intent_admission::plan_refs;
use crate::intent_impact::{
    impact_in_plan, impact_preview, in_closure, is_spared, is_touched, lemma_selected_members,
    reaches, revised_ref, revision_preview, touched_receipts,
};
use crate::intent_lineage::{current_receipts, lineage_of, IntentLineageProjectionV1View};
use crate::intent_stack::{latest_accepted, stack_of, IntentStackProjectionV1View};
use crate::intent_state::{
    AcceptedIntentPlanProjectionV1View, IntentImpactPreviewV1View, IntentRevisionProposalV1View,
};
use crate::lineage_laws::lemma_ascending_members;
use crate::records::{SessionStreamRecordView, SessionView};
use crate::text::ascending_of;

verus! {

/// An intent of a plan is touched by a change of a target: every set of identities that holds the
/// target and, with whatever it holds, all intents of the plan that depend on it, holds the intent.
pub open spec fn is_downstream(
    intents: Seq<IntentDefinitionV1View>,
    target: Seq<char>,
    id: Seq<char>,
) -> bool {
    forall|s: Set<Seq<char>>|
        #![trigger s.contains(id)]
        s.contains(target) && (forall|i: int, k: int|
            0 <= i < intents.len() && 0 <= k < (#[trigger] intents[i]).depends_on.len() && s.contains(
                #[trigger] intents[i].depends_on[k],
            ) ==> s.contains(intents[i].intent_ref.intent_id)) ==> s.contains(id)
}

proof fn lemma_reached_is_held(
    intents: Seq<IntentDefinitionV1View>,
    target: Seq<char>,
    id: Seq<char>,
    n: nat,
    s: Set<Seq<char>>,
)
    requires
        reaches(intents, target, id, n),
        s.contains(target),
        forall|i: int, k: int|
            0 <= i < intents.len() && 0 <= k < (#[trigger] intents[i]).depends_on.len() && s.contains(
                #[trigger] intents[i].depends_on[k],
            ) ==> s.contains(intents[i].intent_ref.intent_id),
    ensures
        s.contains(id),
    decreases n,
{
    if n > 0 {
        if reaches(intents, target, id, (n - 1) as nat) {
            lemma_reached_is_held(intents, target, id, (n - 1) as nat, s);
        } else {
            let (i, k) = choose|i: int, k: int|
                0 <= i < intents.len() && (#[trigger] intents[i]).intent_ref.intent_id == id && 0 <= k
                    < intents[i].depends_on.len() && reaches(
                    intents,
                    target,
                    #[trigger] intents[i].depends_on[k],
                    (n - 1) as nat,
                );
            lemma_reached_is_held(
                intents,
                target,
                intents[i].depends_on[k],
                (n - 1) as nat,
                s,
            );
        }
    }
}

proof fn lemma_downstream(intents: Seq<IntentDefinitionV1View>, target: Seq<char>, id: Seq<char>)
    ensures
        in_closure(intents, target, id) == is_downstream(intents, target, id),
{
    if in_closure(intents, target, id) {
        let n = choose|n: nat| #[trigger] reaches(intents, target, id, n);
        assert forall|s: Set<Seq<char>>|
            #![trigger s.contains(id)]
            s.contains(target) && (forall|i: int, k: int|
                0 <= i < intents.len() && 0 <= k < (#[trigger] intents[i]).depends_on.len()
                    && s.contains(#[trigger] intents[i].depends_on[k]) ==> s.contains(
                    intents[i].intent_ref.intent_id,
                )) implies s.contains(id) by {
            lemma_reached_is_held(intents, target, id, n, s);
        }
    }
    if is_downstream(intents, target, id) {
        let s = Set::<Seq<char>>::new(|x: Seq<char>| in_closure(intents, target, x));
        assert(reaches(intents, target, target, 0));
        assert(s.contains(target));
        assert forall|i: int, k: int|
            0 <= i < intents.len() && 0 <= k < (#[trigger] intents[i]).depends_on.len() && s.contains(
                #[trigger] intents[i].depends_on[k],
            ) implies s.contains(intents[i].intent_ref.intent_id) by {
            let n = choose|n: nat| #[trigger] reaches(intents, target, intents[i].depends_on[k], n);
            assert(reaches(intents, target, intents[i].intent_ref.intent_id, (n + 1) as nat));
        }
        assert(s.contains(id));
    }
}

/// A preview says of an intent what becomes of it.
pub open spec fn has_impact(
    p: IntentImpactPreviewV1View,
    x: IntentVersionRefView,
    state: IntentApplicationState,
) -> bool {
    exists|i: int|
        0 <= i < p.application_impacts.len() && (#[trigger] p.application_impacts[i]).intent_ref == x
            && p.application_impacts[i].application_state == state
}

/// What a preview of an impact touches is the target and all that depends on it, directly or over
/// others. The targets of the preview, and what it says of applications, are on exactly those
/// intents of the plan; all others are retained. The preview changes no file and has no conflict.
/// The receipts that become stale are those that count for a touched intent.
pub open spec fn is_impact_on(
    p: IntentImpactPreviewV1View,
    plan: IntentPlanV1View,
    lineage: IntentLineageProjectionV1View,
    intent_ref: IntentVersionRefView,
) -> bool {
    let op = p.operation;
    &&& forall|x: IntentVersionRefView| #[trigger]
        op.target_intents.contains(x) <==> plan_refs(plan).contains(x) && is_downstream(
            plan.intents,
            intent_ref.intent_id,
            x.intent_id,
        )
    &&& forall|x: IntentVersionRefView| #[trigger]
        op.retained_intents.contains(x) <==> plan_refs(plan).contains(x) && !is_downstream(
            plan.intents,
            intent_ref.intent_id,
            x.intent_id,
        )
    &&& op.target_is_leaf <==> op.target_intents.len() == 1
    &&& op.stack_id == plan.stack_id
    &&& op.stack_version == plan.stack_version
    &&& op.file_effects.len() == 0
    &&& op.conflicts.len() == 0
    &&& p.application_impacts.len() == op.target_intents.len()
    &&& forall|i: int|
        0 <= i < p.application_impacts.len() ==> (#[trigger] p.application_impacts[i]).intent_ref
            == op.target_intents[i]
    &&& forall|i: int|
        0 <= i < op.verification_impacts.len() ==> (#[trigger] op.verification_impacts[i]).impact
            == IntentVerificationImpact::BecomesStale
    &&& forall|receipt: Seq<char>|
        #![trigger makes_stale(p, receipt)]
        makes_stale(p, receipt) <==> exists|x: IntentVersionRefView| #[trigger]
            op.target_intents.contains(x) && current_receipts(lineage, x).contains(receipt)
}

/// A preview says that a receipt becomes stale.
pub open spec fn makes_stale(p: IntentImpactPreviewV1View, receipt: Seq<char>) -> bool {
    exists|i: int|
        0 <= i < p.operation.verification_impacts.len() && (
        #[trigger] p.operation.verification_impacts[i]).receipt_id == receipt
}

proof fn lemma_touched_receipts(
    lineage: IntentLineageProjectionV1View,
    targets: Seq<IntentVersionRefView>,
    receipt: Seq<char>,
)
    ensures
        touched_receipts(lineage, targets).contains(receipt) == (exists|x: IntentVersionRefView|
            #[trigger] targets.contains(x) && current_receipts(lineage, x).contains(receipt)),
    decreases targets.len(),
{
    if targets.len() > 0 {
        let rest = targets.drop_last();
        let last = targets.last();
        lemma_touched_receipts(lineage, rest, receipt);
        let a = touched_receipts(lineage, rest);
        let b = current_receipts(lineage, last);
        let all = a + b;
        assert(targets =~= rest.push(last));
        assert forall|x: IntentVersionRefView| #[trigger] targets.contains(x) == (rest.contains(x) || x
            == last) by {
            crate::intent_impact::lemma_pushed_members(rest, last, x);
        }
        assert(all.contains(receipt) == (a.contains(receipt) || b.contains(receipt))) by {
            if a.contains(receipt) {
                let i = choose|i: int| 0 <= i < a.len() && a[i] == receipt;
                assert(all[i] == receipt);
            }
            if b.contains(receipt) {
                let i = choose|i: int| 0 <= i < b.len() && b[i] == receipt;
                assert(all[a.len() + i] == receipt);
            }
            if all.contains(receipt) {
                let i = choose|i: int| 0 <= i < all.len() && all[i] == receipt;
                if i < a.len() {
                    assert(a[i] == receipt);
                } else {
                    assert(b[i - a.len()] == receipt);
                }
            }
        }
        if a.contains(receipt) {
            let x = choose|x: IntentVersionRefView| #[trigger]
                rest.contains(x) && current_receipts(lineage, x).contains(receipt);
            assert(targets.contains(x));
        }
        if b.contains(receipt) {
            assert(targets.contains(last));
        }
    }
}

proof fn lemma_impact_in_plan(
    plan: IntentPlanV1View,
    lineage: IntentLineageProjectionV1View,
    workspace_revision: u64,
    frontier: u64,
    intent_ref: IntentVersionRefView,
    kind: IntentOperationKind,
    proposal_digest: Option<Seq<char>>,
    p: IntentImpactPreviewV1View,
)
    requires
        p == impact_in_plan(
            plan,
            lineage,
            workspace_revision,
            frontier,
            intent_ref,
            kind,
            proposal_digest,
        ),
    ensures
        is_impact_on(p, plan, lineage, intent_ref),
        p.operation.operation_kind == kind,
        p.operation.workspace_revision == workspace_revision,
{
    let refs = plan_refs(plan);
    let id = intent_ref.intent_id;
    let op = p.operation;
    assert forall|x: IntentVersionRefView| #[trigger] op.target_intents.contains(x) <==> refs.contains(
        x,
    ) && is_downstream(plan.intents, id, x.intent_id) by {
        lemma_selected_members(refs, is_touched(plan.intents, id), x);
        lemma_downstream(plan.intents, id, x.intent_id);
    }
    assert forall|x: IntentVersionRefView| #[trigger]
        op.retained_intents.contains(x) <==> refs.contains(x) && !is_downstream(
            plan.intents,
            id,
            x.intent_id,
        ) by {
        lemma_selected_members(refs, is_spared(plan.intents, id), x);
        lemma_downstream(plan.intents, id, x.intent_id);
    }
    let receipts = touched_receipts(lineage, op.target_intents);
    lemma_ascending_members(receipts);
    assert forall|receipt: Seq<char>|
        #![trigger makes_stale(p, receipt)]
        makes_stale(p, receipt) <==> exists|x: IntentVersionRefView| #[trigger]
            op.target_intents.contains(x) && current_receipts(lineage, x).contains(receipt) by {
        lemma_touched_receipts(lineage, op.target_intents, receipt);
        let sorted = ascending_of(receipts);
        assert(sorted.contains(receipt) == receipts.contains(receipt));
        if makes_stale(p, receipt) {
            let i = choose|i: int|
                0 <= i < op.verification_impacts.len() && (
                #[trigger] op.verification_impacts[i]).receipt_id == receipt;
            assert(sorted[i] == receipt);
        }
        if sorted.contains(receipt) {
            let i = choose|i: int| 0 <= i < sorted.len() && sorted[i] == receipt;
            assert(op.verification_impacts[i].receipt_id == receipt);
        }
    }
}

/// Replacing an intent means that it and all that depends on it must be rebuilt: the preview says
/// so of every one of them, and nothing else of any.
pub proof fn law_replacements_rebuild_all_that_depends(
    session: SessionView,
    workspace_id: Seq<char>,
    workspace_revision: Option<u64>,
    intent_ref: IntentVersionRefView,
    records: Seq<SessionStreamRecordView>,
    admission: IntentStackProjectionV1View,
    accepted: AcceptedIntentPlanProjectionV1View,
    lineage: IntentLineageProjectionV1View,
    p: IntentImpactPreviewV1View,
)
    requires
        session.durable_records == Some(records),
        stack_of(records) == Ok::<_, Seq<char>>(admission),
        latest_accepted(admission) == Some(accepted),
        lineage_of(records, admission, session.tasks) == Ok::<_, Seq<char>>(lineage),
        impact_preview(
            session,
            workspace_id,
            workspace_revision,
            intent_ref,
            IntentOperationKind::ReplaceImpactPreview,
            None,
        ) == Ok::<_, Seq<char>>(p),
    ensures
        p.operation.operation_kind == IntentOperationKind::ReplaceImpactPreview,
        is_impact_on(p, accepted.plan, lineage, intent_ref),
        forall|x: IntentVersionRefView, state: IntentApplicationState| #[trigger]
            has_impact(p, x, state) <==> p.operation.target_intents.contains(x) && state
                == IntentApplicationState::NeedsRebuild,
        workspace_id == accepted.plan.workspace_id,
        plan_refs(accepted.plan).contains(intent_ref),
{
    lemma_impact_in_plan(
        accepted.plan,
        lineage,
        workspace_revision->0,
        crate::intent_drop::frontier_of(records),
        intent_ref,
        IntentOperationKind::ReplaceImpactPreview,
        None,
        p,
    );
    let targets = p.operation.target_intents;
    assert forall|x: IntentVersionRefView, state: IntentApplicationState| #[trigger]
        has_impact(p, x, state) <==> targets.contains(x) && state
            == IntentApplicationState::NeedsRebuild by {
        if has_impact(p, x, state) {
            let i = choose|i: int|
                0 <= i < p.application_impacts.len() && (
                #[trigger] p.application_impacts[i]).intent_ref == x
                    && p.application_impacts[i].application_state == state;
            assert(targets[i] == x);
        }
        if targets.contains(x) {
            let i = choose|i: int| 0 <= i < targets.len() && targets[i] == x;
            assert(p.application_impacts[i].intent_ref == x);
        }
    }
}

/// Revising an intent means that it must be rebuilt, and that all that depends on it must be
/// reviewed: the preview says so of every one of them, and nothing else of any.
pub proof fn law_revisions_review_all_that_depends(
    session: SessionView,
    workspace_id: Seq<char>,
    workspace_revision: Option<u64>,
    proposal: IntentRevisionProposalV1View,
    records: Seq<SessionStreamRecordView>,
    admission: IntentStackProjectionV1View,
    accepted: AcceptedIntentPlanProjectionV1View,
    lineage: IntentLineageProjectionV1View,
    p: IntentImpactPreviewV1View,
)
    requires
        session.durable_records == Some(records),
        stack_of(records) == Ok::<_, Seq<char>>(admission),
        latest_accepted(admission) == Some(accepted),
        lineage_of(records, admission, session.tasks) == Ok::<_, Seq<char>>(lineage),
        revision_preview(session, workspace_id, workspace_revision, proposal) == Ok::<_, Seq<char>>(p),
    ensures
        p.operation.operation_kind == IntentOperationKind::ReviseImpactPreview,
        is_impact_on(p, accepted.plan, lineage, proposal.target_intent_ref),
        forall|x: IntentVersionRefView, state: IntentApplicationState| #[trigger]
            has_impact(p, x, state) <==> p.operation.target_intents.contains(x) && state == (if x
                == proposal.target_intent_ref {
                IntentApplicationState::NeedsRebuild
            } else {
                IntentApplicationState::NeedsReview
            }),
        workspace_id == accepted.plan.workspace_id,
        plan_refs(accepted.plan).contains(proposal.target_intent_ref),
{
    lemma_impact_in_plan(
        accepted.plan,
        lineage,
        workspace_revision->0,
        crate::intent_drop::frontier_of(records),
        proposal.target_intent_ref,
        IntentOperationKind::ReviseImpactPreview,
        Some(proposal.proposal_digest),
        p,
    );
    let targets = p.operation.target_intents;
    assert forall|x: IntentVersionRefView, state: IntentApplicationState| #[trigger]
        has_impact(p, x, state) <==> targets.contains(x) && state == (if x
            == proposal.target_intent_ref {
            IntentApplicationState::NeedsRebuild
        } else {
            IntentApplicationState::NeedsReview
        }) by {
        if has_impact(p, x, state) {
            let i = choose|i: int|
                0 <= i < p.application_impacts.len() && (
                #[trigger] p.application_impacts[i]).intent_ref == x
                    && p.application_impacts[i].application_state == state;
            assert(targets[i] == x);
        }
        if targets.contains(x) {
            let i = choose|i: int| 0 <= i < targets.len() && targets[i] == x;
            assert(p.application_impacts[i].intent_ref == x);
        }
    }
}

/// The next version of an intent has its identity and the number behind its number, where there is
/// one.
pub proof fn law_revisions_count_on(target: IntentVersionRefView)
    ensures
        revised_ref(target) is Ok <==> target.version < u64::MAX,
        revised_ref(target) matches Ok(r) ==> r.intent_id == target.intent_id && r.version
            == target.version + 1,
{
}

} // verus!
