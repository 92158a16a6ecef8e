//! What the log of integration tells of plans, lanes and promotions, which paths a proposal may
//! name, and what the stream proves of a batch.

use vstd::prelude::*;

use crate::batch_evidence::{
    batch_end_verdict, batch_fact_verdict, batch_result, batch_start_verdict, commit_verdict,
    ends_batch, file_path_in, latest_snapshot, named_snapshot, prepare_verdict, prepares_operation,
    reconcile_verdict, starts_batch, subject_paths, was_applied, was_conflicted, was_not_applied,
};
use crate::integration::{
    IntegrationLaneChanged, IntegrationLaneChangedView, IntegrationLaneSpec, IntegrationPlanState,
    IntegrationPlanStateView, IntegrationPromotionRecordedView, IntegrationPromotionStatus,
    IntegrationProjectionView,
};
use crate::integration_plan::{
    after_control, effect_fits, fresh_state, lane_id_order, latest_plan, plan_id_order,
    proposal_path, with_lane,
};
use crate::intent_state::{BatchOutcomeView, OperationRecordView, PreparedOperationView};
use crate::order::lemma_put_place;
use crate::records::{
    ControlEntryView, MutationBatchFinishedView, MutationBatchStartedView, MutationBatchStatus,
    MutationObservedState, MutationReconciledView, MutationResolution, MutationSubjectView,
    RecordBodyView, SessionStreamRecordView,
};
use crate::search::{first_where, lemma_first_where};
use crate::text::{byte_len, split};
use crate::value::{find_key, lemma_find_key, lemma_find_key_is, Keyed};

verus! {

// The log of integration.

/// The effect of a promotion fits if and only if there is one exactly where it was promoted, and it
/// is of the kind of its target.
pub proof fn law_effects_fit_their_targets(e: IntegrationPromotionRecordedView)
    ensures
        effect_fits(e) <==> (e.effect is Some <==> e.status == IntegrationPromotionStatus::Promoted)
            && (e.effect matches Some(effect) ==> {
            ||| e.target is WorkspaceApply && effect is WorkspaceApplied
            ||| e.target is GitRefAdvance && effect is GitRefAdvanced
        }),
{
}

/// No plan of the log has an identity.
pub open spec fn is_unknown(p: IntegrationProjectionView, id: Seq<char>) -> bool {
    forall|i: int| 0 <= i < p.plans.len() ==> (#[trigger] p.plans[i]).recorded.plan.plan_id != id
}

/// The first plan of the log with an identity.
pub open spec fn is_known_at(p: IntegrationProjectionView, id: Seq<char>, i: int) -> bool {
    &&& 0 <= i < p.plans.len()
    &&& p.plans[i].recorded.plan.plan_id == id
    &&& forall|j: int| 0 <= j < i ==> (#[trigger] p.plans[j]).recorded.plan.plan_id != id
}

proof fn lemma_known(p: IntegrationProjectionView, id: Seq<char>, i: int)
    ensures
        is_known_at(p, id, i) ==> find_key::<IntegrationPlanState>(p.plans, id) == Some(i),
        is_unknown(p, id) ==> find_key::<IntegrationPlanState>(p.plans, id) is None,
{
    lemma_find_key::<IntegrationPlanState>(p.plans, id);
    if is_known_at(p, id, i) {
        lemma_find_key_is::<IntegrationPlanState>(p.plans, id, i);
    }
    if is_unknown(p, id) {
        if let Some(k) = find_key::<IntegrationPlanState>(p.plans, id) {
            assert(p.plans[k].recorded.plan.plan_id == id);
        }
    }
}

/// A plan that is recorded for the first time is the latest, has no lanes and no promotions yet,
/// and is consistent; every other plan stays as it is. A plan that is recorded again stays as it
/// was recorded, and is inconsistent from then on if it is not the same.
pub proof fn law_plans_are_recorded_once(
    p: IntegrationProjectionView,
    c: ControlEntryView,
    i: int,
    j: int,
)
    requires
        c is IntegrationPlanRecorded,
    ensures
        ({
            let entry = c->IntegrationPlanRecorded_0;
            let id = entry.plan.plan_id;
            let after = after_control(p, c);
            &&& after.latest_plan_id == Some(id)
            &&& is_unknown(p, id) ==> after.plans.len() == p.plans.len() + 1 && (latest_plan(
                after,
            ) matches Some(s) && s.recorded == entry && s.lanes.len() == 0 && s.promotions.len()
                == 0 && !s.inconsistent)
            &&& is_unknown(p, id) && 0 <= j < p.plans.len() ==> after.plans.contains(p.plans[j])
            &&& is_known_at(p, id, i) ==> {
                &&& after.plans.len() == p.plans.len()
                &&& 0 <= j < p.plans.len() && j != i ==> after.plans[j] == p.plans[j]
                &&& after.plans[i].recorded == p.plans[i].recorded
                &&& after.plans[i].lanes == p.plans[i].lanes
                &&& after.plans[i].promotions == p.plans[i].promotions
                &&& after.plans[i].inconsistent <==> p.plans[i].inconsistent || entry
                    != p.plans[i].recorded
            }
        }),
{
    let entry = c->IntegrationPlanRecorded_0;
    let id = entry.plan.plan_id;
    lemma_known(p, id, i);
    if is_unknown(p, id) {
        let state = fresh_state(entry);
        let k = lemma_put_place(p.plans, state, plan_id_order());
        let after = after_control(p, c);
        assert(after.plans == p.plans.insert(k, state));
        assert forall|n: int| 0 <= n < k implies IntegrationPlanState::key(#[trigger] after.plans[n])
            != id by {
            assert(after.plans[n] == p.plans[n]);
        }
        lemma_find_key_is::<IntegrationPlanState>(after.plans, id, k);
        if 0 <= j < p.plans.len() {
            if j < k {
                assert(after.plans[j] == p.plans[j]);
            } else {
                assert(after.plans[j + 1] == p.plans[j]);
            }
        }
    }
}

/// An entry on a lane or a promotion of an unknown plan changes nothing, nor does an entry on
/// anything else.
pub proof fn law_other_entries_change_nothing(p: IntegrationProjectionView, c: ControlEntryView)
    ensures
        c matches ControlEntryView::IntegrationLaneChanged(e) ==> (is_unknown(p, e.plan_id)
            ==> after_control(p, c) == p),
        c matches ControlEntryView::IntegrationPromotionRecorded(e) ==> (is_unknown(p, e.plan_id)
            ==> after_control(p, c) == p),
        !(c is IntegrationPlanRecorded || c is IntegrationLaneChanged
            || c is IntegrationPromotionRecorded) ==> after_control(p, c) == p,
{
    if let ControlEntryView::IntegrationLaneChanged(e) = c {
        lemma_known(p, e.plan_id, 0);
    }
    if let ControlEntryView::IntegrationPromotionRecorded(e) = c {
        lemma_known(p, e.plan_id, 0);
    }
}

/// A plan has a lane with an identity.
pub open spec fn has_lane(s: IntegrationPlanStateView, id: Seq<char>) -> bool {
    exists|k: int| 0 <= k < s.recorded.plan.lanes.len() && (
    #[trigger] s.recorded.plan.lanes[k]).lane_id == id
}

/// What a state tells last of a lane.
pub open spec fn tells_of_lane(s: IntegrationPlanStateView, e: IntegrationLaneChangedView) -> bool {
    exists|k: int| 0 <= k < s.lanes.len() && #[trigger] s.lanes[k] == e
}

/// An entry on a lane of a known plan touches that plan alone. Where the plan has the lane, the
/// state tells of it what the entry says, and of every other lane what it told before; where it has
/// not, the plan is inconsistent and tells nothing new.
pub proof fn law_lanes_are_told_last(
    p: IntegrationProjectionView,
    e: IntegrationLaneChangedView,
    i: int,
    j: int,
    k: int,
)
    requires
        is_known_at(p, e.plan_id, i),
    ensures
        ({
            let after = after_control(p, ControlEntryView::IntegrationLaneChanged(e));
            let old_state = p.plans[i];
            let s = after.plans[i];
            &&& after.latest_plan_id == p.latest_plan_id
            &&& after.plans.len() == p.plans.len()
            &&& 0 <= j < p.plans.len() && j != i ==> after.plans[j] == p.plans[j]
            &&& s.recorded == old_state.recorded
            &&& s.promotions == old_state.promotions
            &&& s.inconsistent <==> old_state.inconsistent || !has_lane(old_state, e.lane_id)
            &&& has_lane(old_state, e.lane_id) ==> tells_of_lane(s, e)
            &&& has_lane(old_state, e.lane_id) && 0 <= k < old_state.lanes.len()
                && old_state.lanes[k].lane_id != e.lane_id ==> tells_of_lane(s, old_state.lanes[k])
            &&& has_lane(old_state, e.lane_id) && (exists|n: int|
                0 <= n < old_state.lanes.len() && (#[trigger] old_state.lanes[n]).lane_id
                    == e.lane_id) ==> s.lanes.len() == old_state.lanes.len()
            &&& !has_lane(old_state, e.lane_id) ==> s.lanes == old_state.lanes
        }),
{
    lemma_known(p, e.plan_id, i);
    let s = p.plans[i];
    let plan_lanes = s.recorded.plan.lanes;
    lemma_find_key::<IntegrationLaneSpec>(plan_lanes, e.lane_id);
    match find_key::<IntegrationLaneSpec>(plan_lanes, e.lane_id) {
        Some(n) => {
            assert(plan_lanes[n].lane_id == e.lane_id);
            let t = with_lane(s, e);
            lemma_find_key::<IntegrationLaneChanged>(s.lanes, e.lane_id);
            match find_key::<IntegrationLaneChanged>(s.lanes, e.lane_id) {
                Some(m) => {
                    assert(t.lanes[m] == e);
                    if 0 <= k < s.lanes.len() && s.lanes[k].lane_id != e.lane_id {
                        assert(t.lanes[k] == s.lanes[k]);
                    }
                },
                None => {
                    let m = lemma_put_place(s.lanes, e, lane_id_order());
                    assert(t.lanes[m] == e);
                    if 0 <= k < s.lanes.len() {
                        if k < m {
                            assert(t.lanes[k] == s.lanes[k]);
                        } else {
                            assert(t.lanes[k + 1] == s.lanes[k]);
                        }
                    }
                },
            }
        },
        None => {},
    }
}

/// An entry on the promotion of a known plan is told behind all before it, of that plan alone. The
/// plan is inconsistent from then on if the entry has no digest of its preview or its effect does
/// not fit.
pub proof fn law_promotions_are_told_in_order(
    p: IntegrationProjectionView,
    e: IntegrationPromotionRecordedView,
    i: int,
    j: int,
)
    requires
        is_known_at(p, e.plan_id, i),
    ensures
        ({
            let after = after_control(p, ControlEntryView::IntegrationPromotionRecorded(e));
            let s = after.plans[i];
            let n = p.plans[i].promotions.len() as int;
            &&& after.latest_plan_id == p.latest_plan_id
            &&& after.plans.len() == p.plans.len()
            &&& 0 <= j < p.plans.len() && j != i ==> after.plans[j] == p.plans[j]
            &&& s.recorded == p.plans[i].recorded
            &&& s.lanes == p.plans[i].lanes
            &&& s.promotions.len() == n + 1
            &&& s.promotions[n] == e
            &&& 0 <= j < n ==> s.promotions[j] == p.plans[i].promotions[j]
            &&& e.preview_digest.len() == 0 ==> s.inconsistent
            &&& e.preview_digest.len() > 0 && !crate::text::is_white_space(e.preview_digest[0]) ==> (
            s.inconsistent <==> p.plans[i].inconsistent || !effect_fits(e))
        }),
{
    lemma_known(p, e.plan_id, i);
    if e.preview_digest.len() > 0 {
        assert(crate::text::in_class(crate::text::CharClass::White, e.preview_digest[0])
            == crate::text::is_white_space(e.preview_digest[0]));
    }
}

/// The latest plan is the one that was recorded last, where the log has it.
pub proof fn law_latest_plans_are_known(p: IntegrationProjectionView, i: int)
    ensures
        p.latest_plan_id is None ==> latest_plan(p) is None,
        p.latest_plan_id matches Some(id) ==> (is_known_at(p, id, i) ==> latest_plan(p) == Some(
            p.plans[i],
        )),
        p.latest_plan_id matches Some(id) ==> (is_unknown(p, id) ==> latest_plan(p) is None),
{
    if let Some(id) = p.latest_plan_id {
        lemma_known(p, id, i);
    }
}

/// The path that a proposal keeps is the path as it was named, with slashes in place of
/// backslashes: not blank, relative, not begun with `.`, without `..` in it, and of 4096 bytes at
/// most.
pub proof fn law_proposal_paths_are_exact(s: Seq<char>)
    ensures
        proposal_path(s) is Ok ==> {
            let kept = proposal_path(s)->Ok_0;
            &&& s.len() > 0
            &&& exists|i: int| 0 <= i < s.len() && !crate::text::is_white_space(#[trigger] s[i])
            &&& s[0] != '/'
            &&& split(s, '/')[0] != "."@
            &&& !split(s, '/').contains(".."@)
            &&& byte_len(kept) <= 4096
            &&& kept.len() == s.len()
            &&& forall|i: int|
                0 <= i < s.len() ==> #[trigger] kept[i] == if s[i] == '\\' {
                    '/'
                } else {
                    s[i]
                }
        },
        proposal_path(s) is Err ==> s.len() == 0 || (forall|i: int|
            0 <= i < s.len() ==> crate::text::is_white_space(#[trigger] s[i])) || s[0] == '/'
            || split(s, '/')[0] == "."@ || split(s, '/').contains(".."@) || byte_len(
            crate::integration_plan::slashed(s),
        ) > 4096,
{
    if crate::text::is_blank(s) {
        assert forall|i: int| 0 <= i < s.len() implies crate::text::is_white_space(#[trigger] s[i]) by {
            assert(crate::text::in_class(crate::text::CharClass::White, s[i]));
        }
    } else {
        let i = choose|i: int|
            0 <= i < s.len() && !crate::text::in_class(
                crate::text::CharClass::White,
                #[trigger] s[i],
            );
        assert(!crate::text::is_white_space(s[i]));
    }
    let parts = split(s, '/');
    if parts.contains(".."@) {
        let i = choose|i: int| 0 <= i < parts.len() && parts[i] == ".."@;
        assert(!(parts[i] != ".."@));
    }
}

// The evidence of batches.

/// A mutation that was reconciled was applied, is in conflict or left nothing behind by what was
/// seen of it and what was made of it; no mutation is two of these.
pub proof fn law_reconciled_mutations_are_one_of_three(c: MutationReconciledView)
    ensures
        was_applied(c) <==> c.observed_state == MutationObservedState::AppliedAsIntended
            && c.resolution == MutationResolution::MarkCommitted,
        was_not_applied(c) <==> c.observed_state == MutationObservedState::NotApplied && c.resolution
            == MutationResolution::MarkNotApplied,
        was_conflicted(c) <==> (c.observed_state == MutationObservedState::AppliedDifferently
            && c.resolution == MutationResolution::MarkConflict) || (c.observed_state
            == MutationObservedState::Unknown && c.resolution
            == MutationResolution::MarkUnknownDirty),
        !(was_applied(c) && was_conflicted(c)),
        !(was_applied(c) && was_not_applied(c)),
        !(was_conflicted(c) && was_not_applied(c)),
{
}

/// A record of a batch passes if and only if no record before it begins the batch too, or ends it
/// too.
pub proof fn law_batches_begin_and_end_once(records: Seq<SessionStreamRecordView>, i: int)
    requires
        0 <= i < records.len(),
    ensures
        records[i].body matches RecordBodyView::MutationBatchStarted(b) ==> (batch_fact_verdict(
            records,
            i,
        ) is Ok <==> forall|j: int|
            0 <= j < i ==> !((#[trigger] records[j]).body matches RecordBodyView::MutationBatchStarted(
                a,
            ) && a.batch_id == b.batch_id)),
        records[i].body matches RecordBodyView::MutationBatchFinished(b) ==> (batch_fact_verdict(
            records,
            i,
        ) is Ok <==> forall|j: int|
            0 <= j < i ==> !((#[trigger] records[j]).body matches RecordBodyView::MutationBatchFinished(
                a,
            ) && a.batch_id == b.batch_id)),
{
    match records[i].body {
        RecordBodyView::MutationBatchStarted(b) => {
            let f = starts_batch(b.batch_id);
            lemma_first_where(records, f);
            assert(f(records[i]));
            let k = first_where(records, f)->0;
            assert(f(records[k]));
            if k == i {
                assert forall|j: int| 0 <= j < i implies !(
                (#[trigger] records[j]).body matches RecordBodyView::MutationBatchStarted(a)
                    && a.batch_id == b.batch_id) by {
                    assert(!f(records[j]));
                }
            }
        },
        RecordBodyView::MutationBatchFinished(b) => {
            let f = ends_batch(b.batch_id);
            lemma_first_where(records, f);
            assert(f(records[i]));
            let k = first_where(records, f)->0;
            assert(f(records[k]));
            if k == i {
                assert forall|j: int| 0 <= j < i implies !(
                (#[trigger] records[j]).body matches RecordBodyView::MutationBatchFinished(a)
                    && a.batch_id == b.batch_id) by {
                    assert(!f(records[j]));
                }
            }
        },
        _ => {},
    }
}

/// A batch is begun under the authority of an operation if and only if that was prepared before,
/// the batch names the operation, its preview, who approved it and under what policy, and it
/// expects the files of the operation and no others.
pub proof fn law_batches_begin_with_authority(
    record: SessionStreamRecordView,
    b: MutationBatchStartedView,
    op: OperationRecordView,
    prepared: PreparedOperationView,
    paths: Seq<Seq<char>>,
)
    ensures
        batch_start_verdict(record, b, op, prepared, paths) is Ok <==> {
            &&& op.prepared_sequence matches Some(s)
            &&& s < record.stream_sequence
            &&& b.operation_id == op.preview.operation_id
            &&& b.prepared_digest == Some(prepared.preview_digest)
            &&& b.approval_identity == Some(prepared.approval_authority_id)
            &&& b.policy_fingerprint == Some(prepared.permission_policy_digest)
            &&& b.expected_subjects.len() == paths.len()
            &&& forall|i: int|
                0 <= i < paths.len() ==> expects(b.expected_subjects, #[trigger] paths[i])
            &&& forall|i: int|
                0 <= i < b.expected_subjects.len() ==> (
                #[trigger] b.expected_subjects[i] matches MutationSubjectView::File { path, .. }
                    ==> paths.contains(path))
        },
{
    let told = subject_paths(b.expected_subjects);
    assert forall|path: Seq<char>| #[trigger] told.contains(path) == expects(
        b.expected_subjects,
        path,
    ) by {
        lemma_expects(b.expected_subjects, path);
    }
    if forall|i: int| 0 <= i < told.len() ==> paths.contains(#[trigger] told[i]) {
        assert forall|i: int| 0 <= i < b.expected_subjects.len() implies (
        #[trigger] b.expected_subjects[i] matches MutationSubjectView::File { path, .. }
            ==> paths.contains(path)) by {
            if let MutationSubjectView::File { path, .. } = b.expected_subjects[i] {
                assert(expects(b.expected_subjects, path));
                assert(told.contains(path));
                let k = choose|k: int| 0 <= k < told.len() && told[k] == path;
                assert(paths.contains(told[k]));
            }
        }
    } else {
        let i = choose|i: int| 0 <= i < told.len() && !paths.contains(#[trigger] told[i]);
        assert(told.contains(told[i]));
        assert(expects(b.expected_subjects, told[i]));
        let k = choose|k: int|
            0 <= k < b.expected_subjects.len() && is_file_at(
                #[trigger] b.expected_subjects[k],
                told[i],
            );
        assert(is_file_at(b.expected_subjects[k], told[i]));
    }
}

/// The subject is a file at a path.
pub open spec fn is_file_at(s: MutationSubjectView, p: Seq<char>) -> bool {
    s matches MutationSubjectView::File { path, .. } && path == p
}

/// Subjects hold a file at a path.
pub open spec fn expects(subjects: Seq<MutationSubjectView>, path: Seq<char>) -> bool {
    exists|i: int| 0 <= i < subjects.len() && is_file_at(#[trigger] subjects[i], path)
}

proof fn lemma_expects(subjects: Seq<MutationSubjectView>, path: Seq<char>)
    ensures
        subject_paths(subjects).contains(path) == expects(subjects, path),
    decreases subjects.len(),
{
    if subjects.len() > 0 {
        let rest = subjects.drop_last();
        let last = subjects[subjects.len() - 1];
        lemma_expects(rest, path);
        if let Some(own) = file_path_in(last) {
            crate::intent_impact::lemma_pushed_members(subject_paths(rest), own, path);
        }
        assert(is_file_at(last, path) == (file_path_in(last) == Some(path)));
        if expects(rest, path) {
            let i = choose|i: int| 0 <= i < rest.len() && is_file_at(#[trigger] rest[i], path);
            assert(is_file_at(subjects[i], path));
        }
        if expects(subjects, path) {
            let i = choose|i: int| 0 <= i < subjects.len() && is_file_at(#[trigger] subjects[i], path);
            if i < rest.len() {
                assert(is_file_at(rest[i], path));
            }
        }
    }
}

/// A mutation is prepared within a batch if and only if it is of a file that the operation is to
/// change, comes behind the begin of the batch, names the operation, and none before it has its
/// identity.
pub proof fn law_prepared_mutations_are_exact(
    prepares: Seq<SessionStreamRecordView>,
    i: int,
    started: u64,
    operation_id: Seq<char>,
    paths: Seq<Seq<char>>,
)
    requires
        0 <= i < prepares.len(),
        prepares[i].body is MutationPrepared,
    ensures
        ({
            let m = prepares[i].body->MutationPrepared_0;
            prepare_verdict(prepares, i, started, operation_id, paths) is Ok <==> {
                &&& m.subject matches MutationSubjectView::File { path, .. }
                &&& paths.contains(path)
                &&& started < prepares[i].stream_sequence
                &&& m.tool_call_id == Some(operation_id)
                &&& forall|j: int|
                    0 <= j < i ==> !((
                    #[trigger] prepares[j]).body matches RecordBodyView::MutationPrepared(a)
                        && a.operation_id == m.operation_id)
            }
        }),
{
    let m = prepares[i].body->MutationPrepared_0;
    let f = prepares_operation(m.operation_id);
    lemma_first_where(prepares, f);
    assert(f(prepares[i]));
    let k = first_where(prepares, f)->0;
    assert(f(prepares[k]));
    if k == i {
        assert forall|j: int| 0 <= j < i implies !((
        #[trigger] prepares[j]).body matches RecordBodyView::MutationPrepared(a) && a.operation_id
            == m.operation_id) by {
            assert(!f(prepares[j]));
        }
    }
}

/// The record at `k` is the first that prepares a mutation.
pub open spec fn is_prepared_at(prepares: Seq<SessionStreamRecordView>, id: Seq<char>, k: int) -> bool {
    crate::source_laws::is_first(
        prepares,
        |r: SessionStreamRecordView|
            r.body matches RecordBodyView::MutationPrepared(a) && a.operation_id == id,
        k,
    )
}

proof fn lemma_prepared_at(prepares: Seq<SessionStreamRecordView>, id: Seq<char>, k: int)
    ensures
        is_prepared_at(prepares, id, k) ==> first_where(prepares, prepares_operation(id)) == Some(k),
{
    let f = prepares_operation(id);
    let g = |r: SessionStreamRecordView|
        r.body matches RecordBodyView::MutationPrepared(a) && a.operation_id == id;
    assert forall|j: int| 0 <= j < prepares.len() implies f(#[trigger] prepares[j]) == g(
        prepares[j],
    ) by {}
    lemma_first_where(prepares, f);
    if is_prepared_at(prepares, id, k) {
        assert(g(prepares[k]));
        assert(f(prepares[k]));
        let n = first_where(prepares, f)->0;
        assert(f(prepares[n]));
        assert(g(prepares[n]));
    }
}

/// A mutation is committed, or reconciled, behind what prepared it. What it committed is the file
/// that it was prepared for, and what it was reconciled to is one of the three ends.
pub proof fn law_settled_mutations_follow_their_prepare(
    prepares: Seq<SessionStreamRecordView>,
    r: SessionStreamRecordView,
    k: int,
)
    ensures
        r.body matches RecordBodyView::MutationCommitted(c) ==> (is_prepared_at(
            prepares,
            c.operation_id,
            k,
        ) ==> (commit_verdict(prepares)(r) is Ok <==> prepares[k].stream_sequence < r.stream_sequence
            && (c.committed_subject matches MutationSubjectView::File { path, .. } && is_file_at(
            prepares[k].body->MutationPrepared_0.subject,
            path,
        )))),
        r.body matches RecordBodyView::MutationReconciled(c) ==> (is_prepared_at(
            prepares,
            c.operation_id,
            k,
        ) ==> (reconcile_verdict(prepares)(r) is Ok <==> prepares[k].stream_sequence
            < r.stream_sequence && (was_applied(c) || was_conflicted(c) || was_not_applied(c)))),
{
    match r.body {
        RecordBodyView::MutationCommitted(c) => {
            lemma_prepared_at(prepares, c.operation_id, k);
        },
        RecordBodyView::MutationReconciled(c) => {
            lemma_prepared_at(prepares, c.operation_id, k);
        },
        _ => {},
    }
}

/// A mutation that nothing prepared is neither committed nor reconciled.
pub proof fn law_unprepared_mutations_are_refused(
    prepares: Seq<SessionStreamRecordView>,
    r: SessionStreamRecordView,
    id: Seq<char>,
)
    requires
        forall|j: int|
            0 <= j < prepares.len() ==> !((
            #[trigger] prepares[j]).body matches RecordBodyView::MutationPrepared(a)
                && a.operation_id == id),
    ensures
        r.body matches RecordBodyView::MutationCommitted(c) ==> (c.operation_id == id
            ==> commit_verdict(prepares)(r) is Err),
        r.body matches RecordBodyView::MutationReconciled(c) ==> (c.operation_id == id
            ==> reconcile_verdict(prepares)(r) is Err),
{
    let f = prepares_operation(id);
    lemma_first_where(prepares, f);
    if let Some(k) = first_where(prepares, f) {
        assert(f(prepares[k]));
        assert(prepares[k].body is MutationPrepared);
    }
}

/// A batch has ended under its authority if and only if it ends behind its begin, names the
/// preview, who approved it and under what policy, and claims no mutation that was not applied.
pub proof fn law_batches_end_with_authority(
    record: SessionStreamRecordView,
    b: MutationBatchFinishedView,
    started: u64,
    prepared: PreparedOperationView,
    applied: Seq<Seq<char>>,
)
    ensures
        batch_end_verdict(record, b, started, prepared, applied) is Ok <==> {
            &&& started < record.stream_sequence
            &&& b.prepared_digest == Some(prepared.preview_digest)
            &&& b.approval_identity == Some(prepared.approval_authority_id)
            &&& b.policy_fingerprint == Some(prepared.permission_policy_digest)
            &&& forall|i: int|
                0 <= i < b.committed_operations.len() ==> applied.contains(
                    #[trigger] b.committed_operations[i],
                )
        },
{
}

/// What came of a batch: applied as a whole only where nothing is in conflict, every file was
/// prepared and applied, a snapshot is told, and the end says so; in conflict where anything is,
/// and nothing is said of the whole; otherwise applied in part, or, where nothing was applied,
/// interrupted.
pub proof fn law_results_of_batches_are_exact(
    prepares: nat,
    applied: Seq<Seq<char>>,
    conflicted: bool,
    snapshot: Option<Seq<char>>,
    end: Option<MutationBatchFinishedView>,
    files: nat,
)
    ensures
        ({
            let r = batch_result(prepares, applied, conflicted, snapshot, end, files);
            let whole = prepares == files && applied.len() == files;
            let told = end matches Some(b) && b.status == MutationBatchStatus::Applied
                && b.committed_operations.len() == files && b.failed_operations.len() == 0;
            &&& conflicted ==> r == Ok::<_, Seq<char>>(
                BatchOutcomeView::Conflicted { applied, result_snapshot_id: snapshot },
            )
            &&& !conflicted && whole && snapshot is None ==> r is Err
            &&& !conflicted && whole && snapshot is Some && end is None ==> r == Ok::<_, Seq<char>>(
                BatchOutcomeView::FullyAppliedUnfinished {
                    operation_ids: applied,
                    result_snapshot_id: snapshot->0,
                },
            )
            &&& !conflicted && whole && snapshot is Some && told ==> r == Ok::<_, Seq<char>>(
                BatchOutcomeView::Applied {
                    operation_ids: applied,
                    result_snapshot_id: snapshot->0,
                },
            )
            &&& !conflicted && (!whole || (snapshot is Some && end is Some && !told))
                && applied.len() == 0 ==> r == Ok::<_, Seq<char>>(
                BatchOutcomeView::Interrupted { result_snapshot_id: snapshot },
            )
            &&& !conflicted && (!whole || (snapshot is Some && end is Some && !told))
                && applied.len() > 0 ==> r == Ok::<_, Seq<char>>(
                BatchOutcomeView::Partial { applied, result_snapshot_id: snapshot },
            )
        }),
{
}

/// A record names a snapshot if and only if it commits a mutation, or reconciles one that was
/// applied and names it.
pub proof fn law_applied_mutations_name_snapshots(r: SessionStreamRecordView, id: Seq<char>)
    ensures
        named_snapshot(r) == Some(id) <==> {
            ||| r.body matches RecordBodyView::MutationCommitted(c) && c.workspace_snapshot_id == id
            ||| r.body matches RecordBodyView::MutationReconciled(c) && c.observed_state
                == MutationObservedState::AppliedAsIntended && c.resolution
                == MutationResolution::MarkCommitted && c.workspace_snapshot_id == Some(id)
        },
{
}

/// The snapshot after a batch is the latest that any of its records names: none stands behind it in
/// the stream.
pub proof fn law_snapshots_of_batches_are_the_latest(
    records: Seq<SessionStreamRecordView>,
    found: Option<(u64, Seq<char>)>,
    i: int,
)
    ensures
        found is None && (forall|j: int|
            0 <= j < records.len() ==> named_snapshot(#[trigger] records[j]) is None)
            ==> latest_snapshot(records, found) is None,
        0 <= i < records.len() && named_snapshot(records[i]) is Some ==> (latest_snapshot(
            records,
            found,
        ) matches Some(s) && records[i].stream_sequence <= place_of(s)),
        found matches Some(f) ==> (latest_snapshot(records, found) matches Some(s) && place_of(f)
            <= place_of(s)),
        latest_snapshot(records, found) matches Some(s) ==> found == Some(s) || exists|j: int|
            0 <= j < records.len() && tells_snapshot(#[trigger] records[j], s),
    decreases records.len(),
{
    if records.len() > 0 {
        let rest = records.drop_last();
        let n = records.len() - 1;
        law_snapshots_of_batches_are_the_latest(rest, found, i);
        assert forall|j: int| 0 <= j < rest.len() implies rest[j] == #[trigger] records[j] by {}
        let before = latest_snapshot(rest, found);
        let now = latest_snapshot(records, found);
        if now is Some && now != found {
            if now == before {
                let j = choose|j: int| 0 <= j < rest.len() && tells_snapshot(#[trigger] rest[j], now->0);
                assert(tells_snapshot(records[j], now->0));
            } else {
                assert(tells_snapshot(records[n], now->0));
            }
        }
        if found is None && (forall|j: int|
            0 <= j < records.len() ==> named_snapshot(#[trigger] records[j]) is None) {
            assert forall|j: int| 0 <= j < rest.len() implies named_snapshot(
                #[trigger] rest[j],
            ) is None by {
                assert(named_snapshot(records[j]) is None);
            }
            assert(named_snapshot(records[n]) is None);
        }
    }
}

/// The place of a snapshot in the stream.
pub open spec fn place_of(s: (u64, Seq<char>)) -> u64 {
    let (place, _) = s;
    place
}

/// A record tells a snapshot at its place.
pub open spec fn tells_snapshot(r: SessionStreamRecordView, s: (u64, Seq<char>)) -> bool {
    let (place, id) = s;
    named_snapshot(r) == Some(id) && r.stream_sequence == place
}

} // verus!
