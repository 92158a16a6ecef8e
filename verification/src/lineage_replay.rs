//! What is written of lineage is read back: records of intents tell no other facts, so a replay that
//! goes on with one of them finds everything else as it was.

use vstd::prelude::*;

use crate::integration::IntegrationPromotionEffectView;
use crate::intent::{
    IntentCriterionEvidenceLevel, IntentCriterionEvidenceV1View, IntentEventV1View,
    IntentExecutionBindingV1View, IntentExecutionOriginV1View, IntentVersionRefView,
};
use crate::intent_lineage::{
    after_lineage_record, bound_execution, executes, execution_with, has_criterion,
    is_lineage_event, latest_execution, law_replayed_lineages_are_sound, lineage_after, lineage_of,
    linked_verdict, plan_kept, resolved_lineage, settled, system_verdict, with_new, with_parent,
    with_parents, workspace_of, IntentLineageProjectionV1View,
};
use crate::intent_operation::lemma_with_new_members;
use crate::intent_stack::{
    accepted_for_intent, accepted_version, after_intent_event, cursor_at, latest_accepted,
    law_replayed_stacks_are_sound, lemma_latest_version, stack_of, IntentStackProjectionV1View,
};
use crate::intent_state::{
    AcceptedIntentPlanProjectionV1View, IntentExecutionLineageV1, IntentExecutionLineageV1View,
    IntentLineageReadOnlyReasonV1,
};
use crate::lineage_append::{
    append_binding, append_changesets, append_evidence, bound_event, changesets_event,
    evidence_event, fresh_evidence_verdict, law_appended_evidence_is_accepted,
};
use crate::lineage_facts::{
    applies_in_batch, basic_evidence_verdict, batch_applies, batch_applies_file, batch_applies_set,
    begins_batch, change_result, chat_file_lineage, commits_in_batch, commits_in_window, commits_to,
    current_snapshot, detects_in, ends_applying_batch, execution_source_verdict, fact_verdict,
    fact_verdicts, facts_verdict, integration_after, integration_of, is_accepted_plan,
    is_agent_event, is_attempt_event, is_parent_event, is_plan_for, is_policy, is_receipt_event,
    latest_where, parent_event, prepares_in_window, promoted_lineage, promotes, proposal, proposed,
    proposes, receipt_from, settles, system_evidence_verdict, task_parent_lineage, window_end,
};
use crate::records::{
    ChangeSetFileView, ControlEntryView, MutationBatchFinishedView, MutationBatchStartedView,
    RecordBodyView, SessionStreamRecordView, SessionView, TaskStateProjectionView,
};
use crate::search::{
    any_where, check_each, first_where, last_where, lemma_first_where, lemma_last_where,
};
use crate::stream::{
    batch_end_in, batch_start_in, integration_plan_in, intent_event_in, prepared_in, promotion_in,
};
use crate::value::{find_key, lemma_all_pass, lemma_find_key, Verdict};

verus! {

pub(crate) proof fn lemma_push_first<A>(s: Seq<A>, x: A, p: spec_fn(A) -> bool, q: spec_fn(A) -> bool)
    requires
        !q(x),
        forall|i: int| 0 <= i < s.len() ==> p(#[trigger] s[i]) == q(s[i]),
    ensures
        first_where(s.push(x), q) == first_where(s, p),
        first_where(s, p) matches Some(i) ==> 0 <= i < s.len() && s.push(x)[i] == s[i],
        any_where(s.push(x), q) == any_where(s, p),
{
    let all = s.push(x);
    lemma_first_where(s, p);
    lemma_first_where(all, q);
    assert forall|i: int| 0 <= i < s.len() implies #[trigger] all[i] == s[i] by {}
    if let Some(i) = first_where(s, p) {
        assert(q(all[i]));
    }
    if let Some(i) = first_where(all, q) {
        assert(p(s[i]));
    }
}

pub(crate) proof fn lemma_push_last<A>(s: Seq<A>, x: A, p: spec_fn(A) -> bool, q: spec_fn(A) -> bool)
    requires
        !q(x),
        forall|i: int| 0 <= i < s.len() ==> p(#[trigger] s[i]) == q(s[i]),
    ensures
        last_where(s.push(x), q) == last_where(s, p),
        last_where(s, p) matches Some(i) ==> 0 <= i < s.len() && s.push(x)[i] == s[i],
{
    let all = s.push(x);
    lemma_last_where(s, p);
    lemma_last_where(all, q);
    assert forall|i: int| 0 <= i < s.len() implies #[trigger] all[i] == s[i] by {}
    if let Some(i) = last_where(s, p) {
        assert(q(all[i]));
    }
    if let Some(i) = last_where(all, q) {
        assert(p(s[i]));
    }
}

/// The same checks have the same result.
pub(crate) proof fn lemma_same_checks<A>(s: Seq<A>, v: spec_fn(A) -> Verdict, w: spec_fn(A) -> Verdict)
    requires
        forall|i: int| 0 <= i < s.len() ==> v(#[trigger] s[i]) == w(s[i]),
    ensures
        check_each(s, v) == check_each(s, w),
{
    assert(s.map_values(v) =~= s.map_values(w));
}

// Facts.

pub(crate) proof fn lemma_proposals_stay(
    records: Seq<SessionStreamRecordView>,
    r: SessionStreamRecordView,
    id: Seq<char>,
)
    requires
        r.body is Intent,
    ensures
        first_where(records.push(r), proposes(id)) == first_where(records, proposes(id)),
        first_where(records.push(r), settles(id)) == first_where(records, settles(id)),
        proposal(records.push(r), id) == proposal(records, id),
        change_result(records.push(r), id) == change_result(records, id),
{
    lemma_push_first(records, r, proposes(id), proposes(id));
    lemma_push_first(records, r, settles(id), settles(id));
}

proof fn lemma_facts_stay(records: Seq<SessionStreamRecordView>, r: SessionStreamRecordView)
    requires
        r.body is Intent,
    ensures
        (facts_verdict(records.push(r)) is Ok) == (facts_verdict(records) is Ok),
{
    let all = records.push(r);
    let old_facts = fact_verdicts(records);
    let facts = fact_verdicts(all);
    lemma_all_pass(old_facts);
    lemma_all_pass(facts);
    let n = records.len() as int;
    assert forall|i: int| 0 <= i < n implies #[trigger] facts[i] == old_facts[i] by {
        assert(all[i] == records[i]);
        match records[i].body {
            RecordBodyView::Control(ControlEntryView::ChangeSetProposed(c)) => {
                lemma_proposals_stay(records, r, c.id);
            },
            RecordBodyView::Control(ControlEntryView::ChangeSetApplied(c)) => {
                lemma_proposals_stay(records, r, c.id);
            },
            _ => {},
        }
    }
    assert(facts[n] == fact_verdict(all, n));
    assert(facts[n] is Ok);
    if facts_verdict(all) is Ok {
        assert forall|i: int| 0 <= i < n implies (#[trigger] old_facts[i]) is Ok by {
            assert(facts[i] is Ok);
        }
    }
}

proof fn lemma_sources_stay(
    records: Seq<SessionStreamRecordView>,
    r: SessionStreamRecordView,
    tasks: TaskStateProjectionView,
    binding: IntentExecutionBindingV1View,
    accepted: AcceptedIntentPlanProjectionV1View,
)
    requires
        r.body is Intent,
    ensures
        execution_source_verdict(records.push(r), tasks, binding, accepted)
            == execution_source_verdict(records, tasks, binding, accepted),
{
    let id = binding.source_event_id;
    lemma_push_first(records, r, is_attempt_event(id), is_attempt_event(id));
    lemma_push_first(records, r, is_agent_event(id), is_agent_event(id));
    if let IntentExecutionOriginV1View::Task { task_id, task_plan_version, .. } = binding.origin {
        let p = is_accepted_plan(task_id, task_plan_version);
        lemma_push_last(records, r, p, p);
    }
}

proof fn lemma_receipts_stay(
    records: Seq<SessionStreamRecordView>,
    r: SessionStreamRecordView,
    id: Seq<char>,
    receipt_id: Seq<char>,
)
    requires
        r.body is Intent,
    ensures
        parent_event(records.push(r), id) == parent_event(records, id),
        receipt_from(records.push(r), id, receipt_id) == receipt_from(records, id, receipt_id),
{
    lemma_push_first(records, r, is_receipt_event(id), is_receipt_event(id));
    lemma_push_first(records, r, is_parent_event(id), is_parent_event(id));
}

proof fn lemma_integration_goes_on(
    records: Seq<SessionStreamRecordView>,
    r: SessionStreamRecordView,
    n: int,
)
    requires
        0 <= n <= records.len(),
    ensures
        integration_after(records.push(r), n) == integration_after(records, n),
    decreases n,
{
    if n > 0 {
        lemma_integration_goes_on(records, r, n - 1);
        assert(records.push(r)[n - 1] == records[n - 1]);
    }
}

proof fn lemma_integration_stays(records: Seq<SessionStreamRecordView>, r: SessionStreamRecordView)
    requires
        r.body is Intent,
    ensures
        integration_of(records.push(r)) == integration_of(records),
{
    let n = records.len() as int;
    lemma_integration_goes_on(records, r, n);
    assert(records.push(r)[n] == r);
}

pub(crate) proof fn lemma_system_evidence_stays(
    records: Seq<SessionStreamRecordView>,
    r: SessionStreamRecordView,
    e: IntentCriterionEvidenceV1View,
    x: IntentExecutionLineageV1View,
)
    requires
        r.body is Intent,
    ensures
        system_evidence_verdict(records.push(r), e, x) == system_evidence_verdict(records, e, x),
        basic_evidence_verdict(records.push(r), e) == basic_evidence_verdict(records, e),
{
    lemma_receipts_stay(records, r, e.source_event_id, e.receipt_id);
    lemma_integration_stays(records, r);
    let p = is_policy(e.verification_policy_digest);
    lemma_push_last(records, r, p, p);
}

// The parent workspace.

proof fn lemma_batch_files_stay(
    records: Seq<SessionStreamRecordView>,
    r: SessionStreamRecordView,
    start: MutationBatchStartedView,
    start_sequence: u64,
    end: MutationBatchFinishedView,
    end_sequence: u64,
    workspace_id: Seq<char>,
    file: ChangeSetFileView,
)
    requires
        r.body is Intent,
    ensures
        batch_applies_file(records.push(r), start, start_sequence, end, end_sequence, workspace_id)(
            file,
        ) == batch_applies_file(records, start, start_sequence, end, end_sequence, workspace_id)(file),
{
    let all = records.push(r);
    let p = applies_in_batch(
        records,
        start,
        start_sequence,
        end,
        end_sequence,
        workspace_id,
        file,
    );
    let q = applies_in_batch(all, start, start_sequence, end, end_sequence, workspace_id, file);
    assert forall|i: int| 0 <= i < records.len() implies p(#[trigger] records[i]) == q(
        records[i],
    ) by {
        if let Some(m) = prepared_in(records[i]) {
            let c = commits_in_batch(
                m,
                records[i].stream_sequence,
                end_sequence,
                workspace_id,
                file,
            );
            lemma_push_first(records, r, c, c);
        }
    }
    lemma_push_first(records, r, p, q);
}

proof fn lemma_batch_sets_stay(
    records: Seq<SessionStreamRecordView>,
    r: SessionStreamRecordView,
    start: MutationBatchStartedView,
    start_sequence: u64,
    end: MutationBatchFinishedView,
    end_sequence: u64,
    workspace_id: Seq<char>,
    id: Seq<char>,
)
    requires
        r.body is Intent,
    ensures
        batch_applies_set(records.push(r), start, start_sequence, end, end_sequence, workspace_id)(id)
            == batch_applies_set(records, start, start_sequence, end, end_sequence, workspace_id)(id),
{
    let all = records.push(r);
    lemma_proposals_stay(records, r, id);
    if let Some(c) = proposal(records, id) {
        let p = batch_applies_file(records, start, start_sequence, end, end_sequence, workspace_id);
        let q = batch_applies_file(all, start, start_sequence, end, end_sequence, workspace_id);
        assert forall|i: int| 0 <= i < c.files.len() implies p(#[trigger] c.files[i]) == q(
            c.files[i],
        ) by {
            lemma_batch_files_stay(
                records,
                r,
                start,
                start_sequence,
                end,
                end_sequence,
                workspace_id,
                c.files[i],
            );
        }
    }
}

proof fn lemma_batches_stay(
    records: Seq<SessionStreamRecordView>,
    r: SessionStreamRecordView,
    end: MutationBatchFinishedView,
    end_sequence: u64,
    ids: Seq<Seq<char>>,
    workspace_id: Seq<char>,
)
    requires
        r.body is Intent,
    ensures
        batch_applies(records.push(r), end, end_sequence, ids, workspace_id) == batch_applies(
            records,
            end,
            end_sequence,
            ids,
            workspace_id,
        ),
{
    let all = records.push(r);
    let b = begins_batch(end.batch_id);
    lemma_push_last(records, r, b, b);
    if let Some(k) = last_where(records, b) {
        if let Some(start) = batch_start_in(records[k]) {
            let at = records[k].stream_sequence;
            let p = batch_applies_set(records, start, at, end, end_sequence, workspace_id);
            let q = batch_applies_set(all, start, at, end, end_sequence, workspace_id);
            assert forall|i: int| 0 <= i < ids.len() implies p(#[trigger] ids[i]) == q(ids[i]) by {
                lemma_batch_sets_stay(
                    records,
                    r,
                    start,
                    at,
                    end,
                    end_sequence,
                    workspace_id,
                    ids[i],
                );
            }
        }
    }
}

proof fn lemma_promotions_stay(
    records: Seq<SessionStreamRecordView>,
    r: SessionStreamRecordView,
    before: u64,
    ids: Seq<Seq<char>>,
    workspace_id: Seq<char>,
    snapshot_id: Seq<char>,
)
    requires
        r.body is Intent,
    ensures
        promoted_lineage(records.push(r), before, ids, workspace_id, snapshot_id)
            == promoted_lineage(records, before, ids, workspace_id, snapshot_id),
{
    let all = records.push(r);
    let p = ends_applying_batch(records, before, ids, workspace_id);
    let q = ends_applying_batch(all, before, ids, workspace_id);
    assert forall|i: int| 0 <= i < records.len() implies p(#[trigger] records[i]) == q(
        records[i],
    ) by {
        if let Some(b) = batch_end_in(records[i]) {
            lemma_batches_stay(records, r, b, records[i].stream_sequence, ids, workspace_id);
        }
    }
    lemma_push_last(records, r, p, q);
}

proof fn lemma_task_parent_stays(
    records: Seq<SessionStreamRecordView>,
    r: SessionStreamRecordView,
    task_id: Seq<char>,
    version: u32,
    step_id: Seq<char>,
    ids: Seq<Seq<char>>,
    workspace_id: Seq<char>,
)
    requires
        r.body is Intent,
    ensures
        task_parent_lineage(records.push(r), task_id, version, step_id, ids, workspace_id)
            == task_parent_lineage(records, task_id, version, step_id, ids, workspace_id),
{
    let p = is_plan_for(task_id, version, step_id, ids);
    lemma_push_last(records, r, p, p);
    lemma_integration_stays(records, r);
    if let Some(i) = last_where(records, p) {
        if let Some(plan) = integration_plan_in(records[i]) {
            let q = promotes(plan.plan.plan_id);
            lemma_push_last(records, r, q, q);
            if let Some(k) = last_where(records, q) {
                if let Some(promotion) = promotion_in(records[k]) {
                    if let Some(
                        IntegrationPromotionEffectView::WorkspaceApplied {
                            promoted_snapshot_id,
                            ..
                        },
                    ) = promotion.effect {
                        lemma_promotions_stay(
                            records,
                            r,
                            records[k].stream_sequence,
                            ids,
                            workspace_id,
                            promoted_snapshot_id,
                        );
                    }
                }
            }
        }
    }
}

proof fn lemma_windows_stay(
    records: Seq<SessionStreamRecordView>,
    r: SessionStreamRecordView,
    binding: IntentExecutionBindingV1View,
)
    requires
        r.body is Intent,
    ensures
        window_end(records.push(r), binding) == window_end(records, binding),
{
    let p = is_agent_event(binding.source_event_id);
    lemma_push_first(records, r, p, p);
    assert(records.push(r).drop_last() =~= records);
}

proof fn lemma_chat_files_stay(
    records: Seq<SessionStreamRecordView>,
    r: SessionStreamRecordView,
    start: u64,
    end: Option<u64>,
    workspace_id: Seq<char>,
    file: ChangeSetFileView,
)
    requires
        r.body is Intent,
    ensures
        chat_file_lineage(records.push(r), start, end, workspace_id, file) == chat_file_lineage(
            records,
            start,
            end,
            workspace_id,
            file,
        ),
{
    let all = records.push(r);
    let p = prepares_in_window(records, start, end, workspace_id, file);
    let q = prepares_in_window(all, start, end, workspace_id, file);
    assert forall|i: int| 0 <= i < records.len() implies p(#[trigger] records[i]) == q(
        records[i],
    ) by {
        if let Some(m) = prepared_in(records[i]) {
            let c = commits_in_window(m, end, workspace_id, file);
            lemma_push_first(records, r, c, c);
        }
    }
    lemma_push_first(records, r, p, q);
    if let Some(i) = first_where(records, p) {
        if let Some(m) = prepared_in(records[i]) {
            let c = commits_in_window(m, end, workspace_id, file);
            lemma_push_first(records, r, c, c);
        }
    }
}

proof fn lemma_parents_stay(
    records: Seq<SessionStreamRecordView>,
    r: SessionStreamRecordView,
    x: IntentExecutionLineageV1View,
    workspace_id: Seq<char>,
)
    requires
        r.body is Intent,
    ensures
        with_parent(records.push(r), x, workspace_id) == with_parent(records, x, workspace_id),
{
    match x.binding.origin {
        IntentExecutionOriginV1View::Task { task_id, task_plan_version, step_id, .. } => {
            lemma_task_parent_stays(
                records,
                r,
                task_id,
                task_plan_version,
                step_id,
                x.changeset_ids,
                workspace_id,
            );
        },
        IntentExecutionOriginV1View::Chat { .. } => {
            let id = x.changeset_ids[0];
            lemma_proposals_stay(records, r, id);
            lemma_windows_stay(records, r, x.binding);
            if let Some(c) = proposal(records, id) {
                lemma_chat_files_stay(
                    records,
                    r,
                    x.binding_stream_sequence,
                    window_end(records, x.binding),
                    workspace_id,
                    c.files[0],
                );
            }
        },
    }
}

proof fn lemma_latest_stays(
    records: Seq<SessionStreamRecordView>,
    r: SessionStreamRecordView,
    p: spec_fn(SessionStreamRecordView) -> bool,
)
    requires
        !p(r),
    ensures
        latest_where(records.push(r), p) == latest_where(records, p),
        latest_where(records, p) matches Some(i) ==> 0 <= i < records.len(),
    decreases records.len(),
{
    assert(records.push(r).drop_last() =~= records);
    if records.len() > 0 {
        lemma_latest_stays(records.drop_last(), r, p);
    }
}

proof fn lemma_snapshot_stays(
    records: Seq<SessionStreamRecordView>,
    r: SessionStreamRecordView,
    workspace_id: Seq<char>,
)
    requires
        r.body is Intent,
    ensures
        current_snapshot(records.push(r), workspace_id) == current_snapshot(records, workspace_id),
{
    lemma_latest_stays(records, r, commits_to(workspace_id));
    lemma_latest_stays(records, r, detects_in(workspace_id));
}

// Replay.

/// Two admissions accept the same plans.
pub open spec fn same_plans(a: IntentStackProjectionV1View, b: IntentStackProjectionV1View) -> bool {
    a.accepted_plans == b.accepted_plans
}

proof fn lemma_step_stays(
    records: Seq<SessionStreamRecordView>,
    r: SessionStreamRecordView,
    admission: IntentStackProjectionV1View,
    after: IntentStackProjectionV1View,
    tasks: TaskStateProjectionView,
    p: IntentLineageProjectionV1View,
    record: SessionStreamRecordView,
)
    requires
        r.body is Intent,
        same_plans(admission, after),
    ensures
        after_lineage_record(records.push(r), after, tasks, p, record) == after_lineage_record(
            records,
            admission,
            tasks,
            p,
            record,
        ),
{
    let all = records.push(r);
    match intent_event_in(record) {
        Some(IntentEventV1View::ExecutionBound { stack_version, binding, .. }) => {
            if let Some(accepted) = accepted_version(admission, stack_version) {
                lemma_sources_stay(records, r, tasks, binding, accepted);
            }
        },
        Some(IntentEventV1View::ChangeSetBound { changeset_ids, .. }) => {
            assert forall|i: int| 0 <= i < changeset_ids.len() implies proposed(all)(
                #[trigger] changeset_ids[i],
            ) == proposed(records)(changeset_ids[i]) by {
                lemma_proposals_stay(records, r, changeset_ids[i]);
            }
            lemma_same_checks(changeset_ids, proposed(all), proposed(records));
        },
        Some(IntentEventV1View::VerificationLinked { evidence, .. }) => {
            let v = linked_verdict(all, after, record.stream_sequence);
            let w = linked_verdict(records, admission, record.stream_sequence);
            assert forall|i: int| 0 <= i < evidence.len() implies v(#[trigger] evidence[i]) == w(
                evidence[i],
            ) by {
                lemma_receipts_stay(
                    records,
                    r,
                    evidence[i].source_event_id,
                    evidence[i].receipt_id,
                );
            }
            lemma_same_checks(evidence, v, w);
        },
        _ => {},
    }
}

proof fn lemma_lineage_stays(
    records: Seq<SessionStreamRecordView>,
    r: SessionStreamRecordView,
    admission: IntentStackProjectionV1View,
    after: IntentStackProjectionV1View,
    tasks: TaskStateProjectionView,
    workspace_id: Seq<char>,
    n: int,
)
    requires
        r.body is Intent,
        same_plans(admission, after),
        0 <= n <= records.len(),
    ensures
        lineage_after(records.push(r), after, tasks, workspace_id, n) == lineage_after(
            records,
            admission,
            tasks,
            workspace_id,
            n,
        ),
    decreases n,
{
    if n > 0 {
        lemma_lineage_stays(records, r, admission, after, tasks, workspace_id, n - 1);
        assert(records.push(r)[n - 1] == records[n - 1]);
        if let Ok(p) = lineage_after(records, admission, tasks, workspace_id, n - 1) {
            lemma_step_stays(records, r, admission, after, tasks, p, records[n - 1]);
        }
    } else {
        lemma_snapshot_stays(records, r, workspace_id);
    }
}

/// A replay that goes on with a record of an intent goes on from where it was.
pub(crate) proof fn lemma_lineage_goes_on(
    records: Seq<SessionStreamRecordView>,
    r: SessionStreamRecordView,
    admission: IntentStackProjectionV1View,
    after: IntentStackProjectionV1View,
    tasks: TaskStateProjectionView,
    accepted: AcceptedIntentPlanProjectionV1View,
    p: IntentLineageProjectionV1View,
    q: IntentLineageProjectionV1View,
)
    requires
        r.body is Intent,
        same_plans(admission, after),
        latest_accepted(admission) == Some(accepted),
        facts_verdict(records) is Ok,
        lineage_after(
            records,
            admission,
            tasks,
            accepted.plan.workspace_id,
            records.len() as int,
        ) == Ok::<_, Seq<char>>(p),
        after_lineage_record(records, admission, tasks, p, r) == Ok::<_, Seq<char>>(q),
    ensures
        lineage_of(records.push(r), after, tasks) == resolved_lineage(records.push(r), after, q),
{
    let n = records.len() as int;
    lemma_facts_stay(records, r);
    lemma_lineage_stays(records, r, admission, after, tasks, accepted.plan.workspace_id, n);
    lemma_step_stays(records, r, admission, after, tasks, p, r);
    assert(records.push(r)[n] == r);
}

/// The executions of a replay with their parents, after a record of an intent.
pub(crate) proof fn lemma_resolved_stays(
    records: Seq<SessionStreamRecordView>,
    r: SessionStreamRecordView,
    admission: IntentStackProjectionV1View,
    after: IntentStackProjectionV1View,
    executions: Seq<IntentExecutionLineageV1View>,
)
    requires
        r.body is Intent,
        same_plans(admission, after),
    ensures
        with_parents(records.push(r), after, executions) == with_parents(
            records,
            admission,
            executions,
        ),
{
    let now = with_parents(records.push(r), after, executions);
    let was = with_parents(records, admission, executions);
    assert forall|i: int| 0 <= i < executions.len() implies #[trigger] now[i] == was[i] by {
        lemma_parents_stay(records, r, executions[i], workspace_of(admission, executions[i])->0);
    }
    assert(now =~= was);
}

/// The admission after a record that accepts nothing: only its place in the stream is another.
pub(crate) proof fn lemma_admission_goes_on(
    records: Seq<SessionStreamRecordView>,
    r: SessionStreamRecordView,
    admission: IntentStackProjectionV1View,
    e: IntentEventV1View,
)
    requires
        stack_of(records) == Ok::<_, Seq<char>>(admission),
        follows(admission, r),
        r.body == RecordBodyView::Intent(e),
        after_intent_event(admission, r, e) == Ok::<_, Seq<char>>(admission),
    ensures
        stack_of(records.push(r)) == Ok::<_, Seq<char>>(
            IntentStackProjectionV1View { cursor: Some(cursor_at(r)), ..admission },
        ),
{
    assert(records.push(r).drop_last() =~= records);
}

// Laws.

/// The record can stand next in a stream with an admission: it comes later than what was read, and no
/// acceptance waits for its task plan.
pub open spec fn follows(
    admission: IntentStackProjectionV1View,
    r: SessionStreamRecordView,
) -> bool {
    &&& admission.cursor matches Some(c) ==> c.stream_sequence < r.stream_sequence
    &&& admission.pending_task_acceptance is None
}

/// The evidence is one of the system for an intent.
pub open spec fn proves(intent_ref: IntentVersionRefView) -> spec_fn(
    IntentCriterionEvidenceV1View,
) -> bool {
    |e: IntentCriterionEvidenceV1View|
        e.intent_ref == intent_ref && e.level == IntentCriterionEvidenceLevel::SystemVerified
}

/// The lineage of a stream, before parents are resolved.
pub(crate) proof fn lemma_lineage_parts(
    records: Seq<SessionStreamRecordView>,
    admission: IntentStackProjectionV1View,
    tasks: TaskStateProjectionView,
    accepted: AcceptedIntentPlanProjectionV1View,
    p: IntentLineageProjectionV1View,
) -> (before: IntentLineageProjectionV1View)
    requires
        latest_accepted(admission) == Some(accepted),
        lineage_of(records, admission, tasks) == Ok::<_, Seq<char>>(p),
    ensures
        facts_verdict(records) is Ok,
        lineage_after(
            records,
            admission,
            tasks,
            accepted.plan.workspace_id,
            records.len() as int,
        ) == Ok::<_, Seq<char>>(before),
        p.executions == with_parents(records, admission, before.executions),
        p.evidence == before.evidence,
        p.current_parent_snapshot_id == before.current_parent_snapshot_id,
        resolved_lineage(records, admission, before) == Ok::<_, Seq<char>>(p),
        forall|i: int|
            0 <= i < before.executions.len() ==> {
                &&& workspace_of(admission, #[trigger] before.executions[i]) is Some
                &&& p.executions[i].binding == before.executions[i].binding
                &&& p.executions[i].changeset_ids == before.executions[i].changeset_ids
            },
        forall|id: Seq<char>|
            #![trigger find_key::<IntentExecutionLineageV1>(before.executions, id)]
            find_key::<IntentExecutionLineageV1>(before.executions, id) == find_key::<
                IntentExecutionLineageV1,
            >(p.executions, id),
{
    let before = lineage_after(
        records,
        admission,
        tasks,
        accepted.plan.workspace_id,
        records.len() as int,
    )->Ok_0;
    let kept = before.executions.map_values(plan_kept(admission));
    lemma_all_pass(kept);
    assert forall|i: int| 0 <= i < before.executions.len() implies workspace_of(
        admission,
        #[trigger] before.executions[i],
    ) is Some by {
        assert(kept[i] == plan_kept(admission)(before.executions[i]));
        assert(kept[i] is Ok);
    }
    assert forall|id: Seq<char>|
        #![trigger find_key::<IntentExecutionLineageV1>(before.executions, id)]
        find_key::<IntentExecutionLineageV1>(before.executions, id) == find_key::<
            IntentExecutionLineageV1,
        >(p.executions, id) by {
        lemma_same_keys(before.executions, p.executions, id);
    }
    before
}

proof fn lemma_same_keys(
    a: Seq<IntentExecutionLineageV1View>,
    b: Seq<IntentExecutionLineageV1View>,
    id: Seq<char>,
)
    requires
        a.len() == b.len(),
        forall|i: int| 0 <= i < a.len() ==> (#[trigger] b[i]).binding == a[i].binding,
    ensures
        find_key::<IntentExecutionLineageV1>(a, id) == find_key::<IntentExecutionLineageV1>(b, id),
    decreases a.len(),
{
    if a.len() > 0 {
        assert forall|i: int| 0 <= i < a.drop_last().len() implies (#[trigger] b.drop_last()[i]).binding
            == a.drop_last()[i].binding by {
            assert(b[i].binding == a[i].binding);
        }
        lemma_same_keys(a.drop_last(), b.drop_last(), id);
        assert(b[b.len() - 1].binding == a[a.len() - 1].binding);
    }
}

/// A record of an intent that tells nothing of lineage leaves the lineage as it was.
pub(crate) proof fn lemma_lineage_unchanged(
    records: Seq<SessionStreamRecordView>,
    r: SessionStreamRecordView,
    admission: IntentStackProjectionV1View,
    after: IntentStackProjectionV1View,
    tasks: TaskStateProjectionView,
    accepted: AcceptedIntentPlanProjectionV1View,
    p: IntentLineageProjectionV1View,
)
    requires
        r.body is Intent,
        !is_lineage_event()(r),
        same_plans(admission, after),
        latest_accepted(admission) == Some(accepted),
        lineage_of(records, admission, tasks) == Ok::<_, Seq<char>>(p),
    ensures
        lineage_of(records.push(r), after, tasks) == Ok::<_, Seq<char>>(p),
{
    let all = records.push(r);
    let before = lemma_lineage_parts(records, admission, tasks, accepted, p);
    lemma_lineage_goes_on(records, r, admission, after, tasks, accepted, before, before);
    lemma_resolved_stays(records, r, admission, after, before.executions);
    lemma_same_checks(before.executions, plan_kept(after), plan_kept(admission));
    let v = system_verdict(all, p);
    let w = system_verdict(records, p);
    assert forall|i: int| 0 <= i < p.evidence.len() implies v(#[trigger] p.evidence[i]) == w(
        p.evidence[i],
    ) by {
        let e = p.evidence[i];
        if let Some(found) = latest_execution(p, e.intent_ref) {
            lemma_system_evidence_stays(records, r, e, found);
        }
    }
    lemma_same_checks(p.evidence, v, w);
}

/// An execution that is bound is read back: a replay of the stream with the record of its binding shows
/// it as the newest execution, which has no change sets yet, and everything else as it was. It must not
/// be the second execution of an intent that evidence of the system speaks for, for that evidence speaks
/// for the execution before.
pub proof fn law_bound_executions_are_read_back(
    records: Seq<SessionStreamRecordView>,
    r: SessionStreamRecordView,
    admission: IntentStackProjectionV1View,
    tasks: TaskStateProjectionView,
    accepted: AcceptedIntentPlanProjectionV1View,
    p: IntentLineageProjectionV1View,
    binding: IntentExecutionBindingV1View,
)
    requires
        records.len() < u64::MAX,
        stack_of(records) == Ok::<_, Seq<char>>(admission),
        latest_accepted(admission) == Some(accepted),
        lineage_of(records, admission, tasks) == Ok::<_, Seq<char>>(p),
        append_binding(records, tasks, admission, binding) matches Ok(a) && a.outcome.appended,
        r.body == RecordBodyView::Intent(bound_event(accepted, binding)),
        follows(admission, r),
        accepted.accepted_stream_sequence < r.stream_sequence,
        !any_where(p.evidence, proves(binding.intent_ref)),
    ensures
        stack_of(records.push(r)) matches Ok(after) && lineage_of(records.push(r), after, tasks)
            == Ok::<_, Seq<char>>(
            IntentLineageProjectionV1View {
                executions: p.executions.push(
                    IntentExecutionLineageV1View {
                        read_only_reason: Some(IntentLineageReadOnlyReasonV1::MissingChangeSet),
                        ..bound_execution(accepted.plan.stack_version, binding, r)
                    },
                ),
                ..p
            },
        ),
{
    let all = records.push(r);
    lemma_admission_goes_on(records, r, admission, bound_event(accepted, binding));
    let after = stack_of(all)->Ok_0;
    let before = lemma_lineage_parts(records, admission, tasks, accepted, p);
    law_replayed_stacks_are_sound(records);
    lemma_latest_version(admission);
    assert(find_key::<IntentExecutionLineageV1>(before.executions, binding.execution_id) is None);
    let x = bound_execution(accepted.plan.stack_version, binding, r);
    let q = IntentLineageProjectionV1View { executions: before.executions.push(x), ..before };
    assert(after_lineage_record(records, admission, tasks, before, r) == Ok::<_, Seq<char>>(q));
    lemma_lineage_goes_on(records, r, admission, after, tasks, accepted, before, q);
    let executions = with_parents(all, after, q.executions);
    lemma_resolved_stays(records, r, admission, after, before.executions);
    let y = with_parent(all, x, workspace_of(after, x)->0);
    assert(executions =~= p.executions.push(y)) by {
        let same = with_parents(all, after, before.executions);
        assert forall|i: int| 0 <= i < before.executions.len() implies #[trigger] executions[i]
            == same[i] by {
            assert(q.executions[i] == before.executions[i]);
        }
    }
    let kept = q.executions.map_values(plan_kept(after));
    assert forall|i: int| 0 <= i < kept.len() implies #[trigger] kept[i] is Ok by {
        assert(kept[i] == plan_kept(after)(q.executions[i]));
        if i < before.executions.len() {
            assert(q.executions[i] == before.executions[i]);
            assert(workspace_of(admission, before.executions[i]) is Some);
        }
    }
    lemma_all_pass(kept);
    let shown = IntentLineageProjectionV1View { executions, ..q };
    let v = system_verdict(all, shown);
    let w = system_verdict(records, p);
    assert forall|i: int| 0 <= i < p.evidence.len() implies v(#[trigger] p.evidence[i]) == w(
        p.evidence[i],
    ) by {
        let e = p.evidence[i];
        if e.level == IntentCriterionEvidenceLevel::SystemVerified {
            assert(!proves(binding.intent_ref)(p.evidence[i]));
            let s = executes(e.intent_ref);
            assert(y.binding == binding);
            lemma_push_last(p.executions, y, s, s);
            if let Some(found) = latest_execution(p, e.intent_ref) {
                lemma_system_evidence_stays(records, r, e, found);
            }
        }
    }
    lemma_same_checks(p.evidence, v, w);
}

/// Change sets that are bound are read back: a replay of the stream with the record of their binding
/// shows them at their execution.
pub proof fn law_bound_change_sets_are_read_back(
    session: SessionView,
    records: Seq<SessionStreamRecordView>,
    r: SessionStreamRecordView,
    admission: IntentStackProjectionV1View,
    accepted: AcceptedIntentPlanProjectionV1View,
    p: IntentLineageProjectionV1View,
    execution_id: Seq<char>,
    ids: Seq<Seq<char>>,
)
    requires
        session.durable_records == Some(records),
        stack_of(records) == Ok::<_, Seq<char>>(admission),
        latest_accepted(admission) == Some(accepted),
        lineage_of(records, admission, session.tasks) == Ok::<_, Seq<char>>(p),
        append_changesets(session, execution_id, ids) matches Ok(a) && a.outcome.appended && r.body
            == RecordBodyView::Intent(a.events[0]),
        follows(admission, r),
    ensures
        stack_of(records.push(r)) matches Ok(after) && (lineage_of(
            records.push(r),
            after,
            session.tasks,
        ) matches Ok(q) && q.executions.len() == p.executions.len() && q.evidence == p.evidence
            && q.current_parent_snapshot_id == p.current_parent_snapshot_id && (execution_with(
            q,
            execution_id,
        ) matches Some(x) && x.changeset_ids == ids && x.binding == execution_with(
            p,
            execution_id,
        )->0.binding)),
{
    let all = records.push(r);
    let tasks = session.tasks;
    let own = execution_with(p, execution_id)->0;
    let event = changesets_event(own.binding.intent_ref, execution_id, ids);
    lemma_admission_goes_on(records, r, admission, event);
    let after = stack_of(all)->Ok_0;
    let before = lemma_lineage_parts(records, admission, tasks, accepted, p);
    lemma_find_key::<IntentExecutionLineageV1>(before.executions, execution_id);
    let k = find_key::<IntentExecutionLineageV1>(before.executions, execution_id)->0;
    assert(p.executions[k] == own);
    let x = IntentExecutionLineageV1View { changeset_ids: ids, ..before.executions[k] };
    let q = IntentLineageProjectionV1View {
        executions: before.executions.update(k, x),
        ..before
    };
    assert(after_lineage_record(records, admission, tasks, before, r) == Ok::<_, Seq<char>>(q));
    lemma_lineage_goes_on(records, r, admission, after, tasks, accepted, before, q);
    lemma_resolved_stays(records, r, admission, after, before.executions);
    let executions = with_parents(all, after, q.executions);
    let y = with_parent(all, x, workspace_of(after, x)->0);
    assert(executions =~= p.executions.update(k, y)) by {
        let same = with_parents(all, after, before.executions);
        assert forall|i: int| 0 <= i < before.executions.len() && i != k implies
            #[trigger] executions[i] == same[i] by {
            assert(q.executions[i] == before.executions[i]);
        }
    }
    let kept = q.executions.map_values(plan_kept(after));
    assert forall|i: int| 0 <= i < kept.len() implies #[trigger] kept[i] is Ok by {
        assert(kept[i] == plan_kept(after)(q.executions[i]));
        assert(workspace_of(admission, before.executions[i]) is Some);
    }
    lemma_all_pass(kept);
    let shown = IntentLineageProjectionV1View { executions, ..q };
    let v = system_verdict(all, shown);
    let w = system_verdict(records, p);
    let old_checks = p.evidence.map_values(w);
    lemma_all_pass(old_checks);
    assert(y.binding == own.binding);
    assert forall|i: int| 0 <= i < p.evidence.len() implies v(#[trigger] p.evidence[i]) == w(
        p.evidence[i],
    ) by {
        let e = p.evidence[i];
        if e.level == IntentCriterionEvidenceLevel::SystemVerified {
            assert(old_checks[i] == w(p.evidence[i]));
            assert(old_checks[i] is Ok);
            let s = executes(e.intent_ref);
            lemma_last_where(p.executions, s);
            lemma_last_where(executions, s);
            let at = last_where(p.executions, s)->0;
            assert forall|j: int| 0 <= j < executions.len() implies s(#[trigger] executions[j])
                == s(p.executions[j]) by {}
            assert(s(executions[at]));
            assert(last_where(executions, s) == Some(at));
            assert(at != k) by {
                law_replayed_lineages_are_sound(records, admission, tasks);
                assert(settled(p.executions[k]));
                assert(p.executions[k].parent_snapshot_id is None);
            }
            lemma_system_evidence_stays(records, r, e, p.executions[at]);
        }
    }
    lemma_same_checks(p.evidence, v, w);
    lemma_find_key::<IntentExecutionLineageV1>(executions, execution_id);
    assert forall|j: int| 0 <= j < k implies (#[trigger] executions[j]).binding.execution_id
        != execution_id by {
        assert(executions[j].binding == before.executions[j].binding);
    }
    assert(executions[k].binding.execution_id == execution_id);
}

/// Evidence that is linked is read back: a replay of the stream with the record of its link shows it,
/// where its criteria are ones of accepted intents.
pub proof fn law_linked_evidence_is_read_back(
    session: SessionView,
    records: Seq<SessionStreamRecordView>,
    r: SessionStreamRecordView,
    admission: IntentStackProjectionV1View,
    accepted: AcceptedIntentPlanProjectionV1View,
    p: IntentLineageProjectionV1View,
    evidence: Seq<IntentCriterionEvidenceV1View>,
)
    requires
        session.durable_records == Some(records),
        stack_of(records) == Ok::<_, Seq<char>>(admission),
        latest_accepted(admission) == Some(accepted),
        lineage_of(records, admission, session.tasks) == Ok::<_, Seq<char>>(p),
        append_evidence(session, evidence) matches Ok(a) && a.outcome.appended && r.body
            == RecordBodyView::Intent(a.events[0]),
        follows(admission, r),
        forall|i: int|
            0 <= i < evidence.len() ==> (accepted_for_intent(
                admission,
                (#[trigger] evidence[i]).intent_ref,
                r.stream_sequence,
            ) matches Some(a) && any_where(a.plan.intents, has_criterion(evidence[i]))),
    ensures
        stack_of(records.push(r)) matches Ok(after) && lineage_of(
            records.push(r),
            after,
            session.tasks,
        ) == Ok::<_, Seq<char>>(
            IntentLineageProjectionV1View { evidence: with_new(p.evidence, evidence), ..p },
        ),
{
    let all = records.push(r);
    let tasks = session.tasks;
    lemma_admission_goes_on(records, r, admission, evidence_event(evidence));
    let after = stack_of(all)->Ok_0;
    let before = lemma_lineage_parts(records, admission, tasks, accepted, p);
    law_appended_evidence_is_accepted(session, records, admission, p, evidence, r);
    let q = IntentLineageProjectionV1View {
        evidence: with_new(before.evidence, evidence),
        ..before
    };
    assert(after_lineage_record(records, admission, tasks, before, r) == Ok::<_, Seq<char>>(q));
    lemma_lineage_goes_on(records, r, admission, after, tasks, accepted, before, q);
    lemma_resolved_stays(records, r, admission, after, before.executions);
    let shown = IntentLineageProjectionV1View { executions: p.executions, ..q };
    let kept = q.executions.map_values(plan_kept(after));
    assert forall|i: int| 0 <= i < kept.len() implies #[trigger] kept[i] is Ok by {
        assert(kept[i] == plan_kept(after)(q.executions[i]));
        assert(workspace_of(admission, before.executions[i]) is Some);
    }
    lemma_all_pass(kept);
    let v = system_verdict(all, shown);
    let w = system_verdict(records, p);
    let old_checks = p.evidence.map_values(w);
    lemma_all_pass(old_checks);
    let fresh = evidence.map_values(fresh_evidence_verdict(records, p));
    lemma_all_pass(fresh);
    let checks = q.evidence.map_values(v);
    assert forall|i: int| 0 <= i < checks.len() implies #[trigger] checks[i] is Ok by {
        let e = q.evidence[i];
        assert(q.evidence.contains(e));
        lemma_with_new_members(p.evidence, evidence, e);
        assert(checks[i] == v(e));
        if e.level == IntentCriterionEvidenceLevel::SystemVerified {
            if let Some(found) = latest_execution(p, e.intent_ref) {
                lemma_system_evidence_stays(records, r, e, found);
            }
            if p.evidence.contains(e) {
                let k = choose|k: int| 0 <= k < p.evidence.len() && p.evidence[k] == e;
                assert(old_checks[k] == w(e));
                assert(old_checks[k] is Ok);
            } else {
                let k = choose|k: int| 0 <= k < evidence.len() && evidence[k] == e;
                assert(fresh[k] == fresh_evidence_verdict(records, p)(e));
                assert(fresh[k] is Ok);
            }
        }
    }
    lemma_all_pass(checks);
}

} // verus!
