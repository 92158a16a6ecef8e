//! The lineage of an intent: its executions, the change sets they made, the parent workspace that the
//! change sets reached, and the evidence for its criteria.

use vstd::prelude::*;

use crate::intent::{
    IntentAcceptanceCriterionV1, IntentAcceptanceCriterionV1View, IntentApplicationState,
    IntentCriterionEvidenceLevel, IntentCriterionEvidenceV1, IntentCriterionEvidenceV1View,
    IntentCriterionId, IntentDefinitionV1, IntentDefinitionV1View, IntentEventV1, IntentEventV1View,
    IntentExecutionBindingV1View, IntentExecutionId, IntentExecutionOriginV1,
    IntentExecutionOriginV1View, IntentVersionRef, IntentVersionRefView,
};
use crate::intent_admission::plan_refs;
use crate::intent_stack::{
    accepted_for_intent, accepted_version, latest_accepted, plan_holds, unapplied_summary,
    IntentStackProjectionV1, IntentStackProjectionV1View,
};
use crate::intent_state::{
    AcceptedIntentPlanProjectionV1, IntentExecutionLineageV1, IntentExecutionLineageV1View,
    IntentLineageReadOnlyReasonV1, IntentLineageSummaryV1, IntentLineageSummaryV1View,
    IntentLineageWriteOutcomeV1, IntentLineageWriteOutcomeV1View, ParentLineage, ParentLineageView,
};
use crate::lineage_facts::{
    basic_evidence_verdict, chat_parent_lineage, current_parent_snapshot, current_snapshot,
    execution_source_verdict, facts_verdict, proposed, resolve_chat_parent, resolve_task_parent,
    same_texts, system_evidence_verdict, task_parent_lineage, validate_basic_evidence,
    validate_changesets, validate_execution_source, validate_facts, validate_system_evidence,
};
use crate::records::{
    ControlEntry, ControlEntryView, SessionStreamRecord, SessionStreamRecordView,
    TaskStateProjection, TaskStateProjectionView,
};
use crate::search::{
    any_where, check_each, find_last, has_any, last_where, same_items, validate_each,
};
use crate::stream::{intent_event_in, intent_event_of};
use crate::text::{ascending, ascending_texts};
use crate::value::{
    chain, check, distinct, find_key, first_failure, holds, lemma_failures_begin,
    lemma_failures_end, lemma_failures_step, lemma_find_key, lemma_push_view, lemma_update_view,
    outcome, position_by_key, reject, verdict, yields, KernelError, Value, Verdict,
};

verus! {

/// Version of the schema of the lineage projection.
pub const INTENT_LINEAGE_PROJECTION_SCHEMA_VERSION: u16 = 1;

/// What the durable stream says of executions, in the order in which they were bound, and of the
/// evidence for criteria.
#[derive(Debug, Clone, PartialEq, Eq)]
pub struct IntentLineageProjectionV1 {
    pub executions: Vec<IntentExecutionLineageV1>,
    evidence: Vec<IntentCriterionEvidenceV1>,
    current_parent_snapshot_id: Option<String>,
}

/// What a [`IntentLineageProjectionV1`] holds.
#[verifier::ext_equal]
pub struct IntentLineageProjectionV1View {
    pub executions: Seq<IntentExecutionLineageV1View>,
    pub evidence: Seq<IntentCriterionEvidenceV1View>,
    pub current_parent_snapshot_id: Option<Seq<char>>,
}

impl DeepView for IntentLineageProjectionV1 {
    type V = IntentLineageProjectionV1View;

    closed spec fn deep_view(&self) -> IntentLineageProjectionV1View {
        IntentLineageProjectionV1View {
            executions: self.executions.deep_view(),
            evidence: self.evidence.deep_view(),
            current_parent_snapshot_id: self.current_parent_snapshot_id.deep_view(),
        }
    }
}

impl Default for IntentLineageProjectionV1 {
    fn default() -> (r: Self)
        ensures
            r.deep_view() == empty_lineage(),
    {
        let r = IntentLineageProjectionV1 {
            executions: Vec::new(),
            evidence: Vec::new(),
            current_parent_snapshot_id: None,
        };
        assert(r.deep_view().executions =~= Seq::empty());
        assert(r.deep_view().evidence =~= Seq::empty());
        r
    }
}

impl Value for IntentLineageProjectionV1 {
    fn same(&self, other: &Self) -> (r: bool) {
        self.executions.same(&other.executions)
            && self.evidence.same(&other.evidence)
            && self.current_parent_snapshot_id.same(&other.current_parent_snapshot_id)
    }

    fn duplicate(&self) -> (r: Self) {
        IntentLineageProjectionV1 {
            executions: self.executions.duplicate(),
            evidence: self.evidence.duplicate(),
            current_parent_snapshot_id: self.current_parent_snapshot_id.duplicate(),
        }
    }
}

/// What is to be appended to a durable stream in one batch, and what the writer then reports. The
/// entries are taken into the live session too.
#[derive(Debug, Clone, PartialEq, Eq)]
pub struct IntentLineageAppendV1 {
    pub events: Vec<IntentEventV1>,
    pub entries: Vec<ControlEntry>,
    pub outcome: IntentLineageWriteOutcomeV1,
}

/// What a [`IntentLineageAppendV1`] holds.
#[verifier::ext_equal]
pub struct IntentLineageAppendV1View {
    pub events: Seq<IntentEventV1View>,
    pub entries: Seq<ControlEntryView>,
    pub outcome: IntentLineageWriteOutcomeV1View,
}

impl DeepView for IntentLineageAppendV1 {
    type V = IntentLineageAppendV1View;

    open spec fn deep_view(&self) -> IntentLineageAppendV1View {
        IntentLineageAppendV1View {
            events: self.events.deep_view(),
            entries: self.entries.deep_view(),
            outcome: self.outcome.deep_view(),
        }
    }
}

impl Value for IntentLineageAppendV1 {
    fn same(&self, other: &Self) -> (r: bool) {
        self.events.same(&other.events)
            && self.entries.same(&other.entries)
            && self.outcome.same(&other.outcome)
    }

    fn duplicate(&self) -> (r: Self) {
        IntentLineageAppendV1 {
            events: self.events.duplicate(),
            entries: self.entries.duplicate(),
            outcome: self.outcome.duplicate(),
        }
    }
}

/// The projection without executions.
pub open spec fn empty_lineage() -> IntentLineageProjectionV1View {
    IntentLineageProjectionV1View {
        executions: Seq::empty(),
        evidence: Seq::empty(),
        current_parent_snapshot_id: None,
    }
}

/// The record carries an event of the lineage.
pub open spec fn is_lineage_event() -> spec_fn(SessionStreamRecordView) -> bool {
    |r: SessionStreamRecordView|
        match intent_event_in(r) {
            Some(IntentEventV1View::ExecutionBound { .. }) => true,
            Some(IntentEventV1View::ChangeSetBound { .. }) => true,
            Some(IntentEventV1View::VerificationLinked { .. }) => true,
            _ => false,
        }
}

fn has_lineage_event(records: &Vec<SessionStreamRecord>) -> (r: bool)
    ensures
        r == any_where(records.deep_view(), is_lineage_event()),
{
    has_any(
        records,
        |r: &SessionStreamRecord| -> (b: bool)
            ensures
                b == is_lineage_event()(r.deep_view())
            {
                match intent_event_of(r) {
                    Some(IntentEventV1::ExecutionBound { .. }) => true,
                    Some(IntentEventV1::ChangeSetBound { .. }) => true,
                    Some(IntentEventV1::VerificationLinked { .. }) => true,
                    _ => false,
                }
            },
        Ghost(is_lineage_event()),
    )
}

/// An execution that was just bound.
pub open spec fn bound_execution(
    stack_version: u64,
    binding: IntentExecutionBindingV1View,
    record: SessionStreamRecordView,
) -> IntentExecutionLineageV1View {
    IntentExecutionLineageV1View {
        stack_version,
        binding,
        binding_event_id: record.event_id,
        binding_stream_sequence: record.stream_sequence,
        changeset_ids: Seq::empty(),
        parent_mutation_event_id: None,
        parent_snapshot_id: None,
        read_only_reason: None,
    }
}

/// The check of a binding of an execution.
pub open spec fn bound_verdict(
    records: Seq<SessionStreamRecordView>,
    admission: IntentStackProjectionV1View,
    tasks: TaskStateProjectionView,
    executions: Seq<IntentExecutionLineageV1View>,
    record: SessionStreamRecordView,
    stack_id: Seq<char>,
    stack_version: u64,
    binding: IntentExecutionBindingV1View,
) -> Verdict {
    match accepted_version(admission, stack_version) {
        None => Err("Intent execution binding references an unaccepted plan version"@),
        Some(accepted) => chain(
            check(
                stack_id == accepted.plan.stack_id && accepted.accepted_stream_sequence
                    < record.stream_sequence && plan_refs(accepted.plan).contains(
                    binding.intent_ref,
                ),
                "Intent execution binding references an unaccepted stack or intent"@,
            ),
            chain(
                execution_source_verdict(records, tasks, binding, accepted),
                check(
                    find_key::<IntentExecutionLineageV1>(executions, binding.execution_id) is None,
                    "Intent execution id was bound more than once"@,
                ),
            ),
        ),
    }
}

/// The executions after their change sets have been bound.
pub open spec fn after_changesets(
    records: Seq<SessionStreamRecordView>,
    executions: Seq<IntentExecutionLineageV1View>,
    intent_ref: IntentVersionRefView,
    execution_id: Seq<char>,
    ids: Seq<Seq<char>>,
) -> Result<Seq<IntentExecutionLineageV1View>, Seq<char>> {
    match find_key::<IntentExecutionLineageV1>(executions, execution_id) {
        None => Err("Intent ChangeSet binding precedes its execution binding"@),
        Some(i) => yields(
            chain(
                check(
                    executions[i].binding.intent_ref == intent_ref,
                    "Intent ChangeSet binding references another intent"@,
                ),
                chain(
                    check(
                        executions[i].changeset_ids.len() == 0,
                        "Intent execution was bound to ChangeSets more than once"@,
                    ),
                    check_each(ids, proposed(records)),
                ),
            ),
            executions.update(
                i,
                IntentExecutionLineageV1View { changeset_ids: ids, ..executions[i] },
            ),
        ),
    }
}

/// The definition is one of an intent with a criterion.
pub open spec fn has_criterion(e: IntentCriterionEvidenceV1View) -> spec_fn(
    IntentDefinitionV1View,
) -> bool {
    |d: IntentDefinitionV1View|
        d.intent_ref == e.intent_ref && any_where(d.acceptance_criteria, is_criterion(e.criterion_id))
}

/// The criterion has an identity.
pub open spec fn is_criterion(id: Seq<char>) -> spec_fn(IntentAcceptanceCriterionV1View) -> bool {
    |c: IntentAcceptanceCriterionV1View| c.criterion_id == id
}

/// The check of a piece of evidence that is linked by a record.
pub open spec fn linked_verdict(
    records: Seq<SessionStreamRecordView>,
    admission: IntentStackProjectionV1View,
    stream_sequence: u64,
) -> spec_fn(IntentCriterionEvidenceV1View) -> Verdict {
    |e: IntentCriterionEvidenceV1View|
        match accepted_for_intent(admission, e.intent_ref, stream_sequence) {
            None => Err("Intent verification evidence references an unaccepted intent"@),
            Some(accepted) => chain(
                check(
                    any_where(accepted.plan.intents, has_criterion(e)),
                    "Intent verification evidence references an unaccepted criterion"@,
                ),
                basic_evidence_verdict(records, e),
            ),
        }
}

/// A list with the items of another that it does not hold yet, in their order.
pub open spec fn with_new<A>(have: Seq<A>, items: Seq<A>) -> Seq<A>
    decreases items.len(),
{
    if items.len() == 0 {
        have
    } else {
        let before = with_new(have, items.drop_last());
        if before.contains(items.last()) {
            before
        } else {
            before.push(items.last())
        }
    }
}

/// The projection after one more record.
pub open spec fn after_lineage_record(
    records: Seq<SessionStreamRecordView>,
    admission: IntentStackProjectionV1View,
    tasks: TaskStateProjectionView,
    p: IntentLineageProjectionV1View,
    record: SessionStreamRecordView,
) -> Result<IntentLineageProjectionV1View, Seq<char>> {
    match intent_event_in(record) {
        Some(IntentEventV1View::ExecutionBound { stack_id, stack_version, binding, .. }) => yields(
            bound_verdict(
                records,
                admission,
                tasks,
                p.executions,
                record,
                stack_id,
                stack_version,
                binding,
            ),
            IntentLineageProjectionV1View {
                executions: p.executions.push(bound_execution(stack_version, binding, record)),
                ..p
            },
        ),
        Some(IntentEventV1View::ChangeSetBound { intent_ref, execution_id, changeset_ids, .. }) => {
            match after_changesets(records, p.executions, intent_ref, execution_id, changeset_ids) {
                Err(m) => Err(m),
                Ok(executions) => Ok(IntentLineageProjectionV1View { executions, ..p }),
            }
        },
        Some(IntentEventV1View::VerificationLinked { evidence, .. }) => yields(
            check_each(evidence, linked_verdict(records, admission, record.stream_sequence)),
            IntentLineageProjectionV1View { evidence: with_new(p.evidence, evidence), ..p },
        ),
        _ => Ok(p),
    }
}

/// The projection after the first `n` records, before parents are resolved.
pub open spec fn lineage_after(
    records: Seq<SessionStreamRecordView>,
    admission: IntentStackProjectionV1View,
    tasks: TaskStateProjectionView,
    workspace_id: Seq<char>,
    n: int,
) -> Result<IntentLineageProjectionV1View, Seq<char>>
    decreases n,
{
    if n <= 0 {
        Ok(
            IntentLineageProjectionV1View {
                current_parent_snapshot_id: current_snapshot(records, workspace_id),
                ..empty_lineage()
            },
        )
    } else {
        match lineage_after(records, admission, tasks, workspace_id, n - 1) {
            Err(m) => Err(m),
            Ok(p) => after_lineage_record(records, admission, tasks, p, records[n - 1]),
        }
    }
}

proof fn lemma_lineage_fails(
    records: Seq<SessionStreamRecordView>,
    admission: IntentStackProjectionV1View,
    tasks: TaskStateProjectionView,
    workspace_id: Seq<char>,
    n: int,
    end: int,
)
    requires
        0 <= n <= end,
        lineage_after(records, admission, tasks, workspace_id, n) is Err,
    ensures
        lineage_after(records, admission, tasks, workspace_id, end) == lineage_after(
            records,
            admission,
            tasks,
            workspace_id,
            n,
        ),
    decreases end - n,
{
    if n < end {
        lemma_lineage_fails(records, admission, tasks, workspace_id, n, end - 1);
    }
}

/// What the stream tells of the parent workspace of an execution.
pub open spec fn parent_lineage(
    records: Seq<SessionStreamRecordView>,
    e: IntentExecutionLineageV1View,
    workspace_id: Seq<char>,
) -> ParentLineageView {
    match e.binding.origin {
        IntentExecutionOriginV1View::Task { task_id, task_plan_version, step_id, .. } => {
            task_parent_lineage(
                records,
                task_id,
                task_plan_version,
                step_id,
                e.changeset_ids,
                workspace_id,
            )
        },
        IntentExecutionOriginV1View::Chat { .. } => chat_parent_lineage(
            records,
            e,
            e.changeset_ids,
            workspace_id,
        ),
    }
}

/// An execution with what is known of its parent workspace.
pub open spec fn with_parent(
    records: Seq<SessionStreamRecordView>,
    e: IntentExecutionLineageV1View,
    workspace_id: Seq<char>,
) -> IntentExecutionLineageV1View {
    if e.changeset_ids.len() == 0 {
        IntentExecutionLineageV1View {
            read_only_reason: Some(IntentLineageReadOnlyReasonV1::MissingChangeSet),
            ..e
        }
    } else {
        match parent_lineage(records, e, workspace_id) {
            ParentLineageView::Applied { mutation_event_id, snapshot_id } => {
                IntentExecutionLineageV1View {
                    parent_mutation_event_id: Some(mutation_event_id),
                    parent_snapshot_id: Some(snapshot_id),
                    ..e
                }
            },
            ParentLineageView::ReadOnly(reason) => IntentExecutionLineageV1View {
                read_only_reason: Some(reason),
                ..e
            },
        }
    }
}

/// The workspace of the plan that an execution belongs to.
pub open spec fn workspace_of(
    admission: IntentStackProjectionV1View,
    e: IntentExecutionLineageV1View,
) -> Option<Seq<char>> {
    match accepted_version(admission, e.stack_version) {
        Some(accepted) => Some(accepted.plan.workspace_id),
        None => None,
    }
}

/// The check that an execution still has its plan.
pub open spec fn plan_kept(admission: IntentStackProjectionV1View) -> spec_fn(
    IntentExecutionLineageV1View,
) -> Verdict {
    |e: IntentExecutionLineageV1View|
        check(
            workspace_of(admission, e) is Some,
            "Intent execution lineage lost its accepted plan version"@,
        )
}

/// All executions with what is known of their parent workspaces.
pub open spec fn with_parents(
    records: Seq<SessionStreamRecordView>,
    admission: IntentStackProjectionV1View,
    executions: Seq<IntentExecutionLineageV1View>,
) -> Seq<IntentExecutionLineageV1View> {
    Seq::new(
        executions.len(),
        |i: int| with_parent(records, executions[i], workspace_of(admission, executions[i])->0),
    )
}

/// The execution is one of an intent.
pub open spec fn executes(intent_ref: IntentVersionRefView) -> spec_fn(
    IntentExecutionLineageV1View,
) -> bool {
    |e: IntentExecutionLineageV1View| e.binding.intent_ref == intent_ref
}

/// The execution of an intent that was bound last.
pub open spec fn latest_execution(
    p: IntentLineageProjectionV1View,
    intent_ref: IntentVersionRefView,
) -> Option<IntentExecutionLineageV1View> {
    match last_where(p.executions, executes(intent_ref)) {
        Some(i) => Some(p.executions[i]),
        None => None,
    }
}

/// The check that evidence of the system has its execution behind it.
pub open spec fn system_verdict(
    records: Seq<SessionStreamRecordView>,
    p: IntentLineageProjectionV1View,
) -> spec_fn(IntentCriterionEvidenceV1View) -> Verdict {
    |e: IntentCriterionEvidenceV1View|
        if e.level != IntentCriterionEvidenceLevel::SystemVerified {
            Ok(())
        } else {
            match latest_execution(p, e.intent_ref) {
                None => Err("system-verified criterion has no execution lineage"@),
                Some(x) => system_evidence_verdict(records, e, x),
            }
        }
}

/// The projection with all parents resolved and the evidence of the system checked.
pub open spec fn resolved_lineage(
    records: Seq<SessionStreamRecordView>,
    admission: IntentStackProjectionV1View,
    p: IntentLineageProjectionV1View,
) -> Result<IntentLineageProjectionV1View, Seq<char>> {
    let q = IntentLineageProjectionV1View {
        executions: with_parents(records, admission, p.executions),
        ..p
    };
    yields(
        chain(
            check_each(p.executions, plan_kept(admission)),
            check_each(p.evidence, system_verdict(records, q)),
        ),
        q,
    )
}

/// The lineage that a stream tells.
pub open spec fn lineage_of(
    records: Seq<SessionStreamRecordView>,
    admission: IntentStackProjectionV1View,
    tasks: TaskStateProjectionView,
) -> Result<IntentLineageProjectionV1View, Seq<char>> {
    match facts_verdict(records) {
        Err(m) => Err(m),
        Ok(_) => match latest_accepted(admission) {
            None => yields(
                check(
                    !any_where(records, is_lineage_event()),
                    "Intent lineage events exist without an accepted IntentPlan"@,
                ),
                empty_lineage(),
            ),
            Some(accepted) => match lineage_after(
                records,
                admission,
                tasks,
                accepted.plan.workspace_id,
                records.len() as int,
            ) {
                Err(m) => Err(m),
                Ok(p) => resolved_lineage(records, admission, p),
            },
        },
    }
}

// What is said of an intent.

/// How many different items a list holds.
pub open spec fn count_different<A>(s: Seq<A>) -> nat
    decreases s.len(),
{
    if s.len() == 0 {
        0
    } else {
        count_different(s.drop_last()) + if s.drop_last().contains(s.last()) {
            0nat
        } else {
            1nat
        }
    }
}

/// The number, or the greatest number there is room for.
pub open spec fn clamped(n: nat) -> u32 {
    if n <= u32::MAX {
        n as u32
    } else {
        u32::MAX
    }
}

/// The criteria that pieces of evidence of a sort speak of.
pub open spec fn criteria_where(
    evidence: Seq<IntentCriterionEvidenceV1View>,
    p: spec_fn(IntentCriterionEvidenceV1View) -> bool,
) -> Seq<Seq<char>>
    decreases evidence.len(),
{
    if evidence.len() == 0 {
        Seq::empty()
    } else {
        let before = criteria_where(evidence.drop_last(), p);
        if p(evidence.last()) {
            before.push(evidence.last().criterion_id)
        } else {
            before
        }
    }
}

/// The receipts that pieces of evidence of a sort name.
pub open spec fn receipts_where(
    evidence: Seq<IntentCriterionEvidenceV1View>,
    p: spec_fn(IntentCriterionEvidenceV1View) -> bool,
) -> Seq<Seq<char>>
    decreases evidence.len(),
{
    if evidence.len() == 0 {
        Seq::empty()
    } else {
        let before = receipts_where(evidence.drop_last(), p);
        if p(evidence.last()) {
            before.push(evidence.last().receipt_id)
        } else {
            before
        }
    }
}

/// The evidence is advice on an intent.
pub open spec fn is_advice(intent_ref: IntentVersionRefView) -> spec_fn(
    IntentCriterionEvidenceV1View,
) -> bool {
    |e: IntentCriterionEvidenceV1View|
        e.intent_ref == intent_ref && e.level == IntentCriterionEvidenceLevel::Advisory
}

/// Evidence binds the snapshot that the workspace has now and that the execution left, and exactly the
/// change sets of the execution.
pub open spec fn is_current(
    p: IntentLineageProjectionV1View,
    x: IntentExecutionLineageV1View,
    e: IntentCriterionEvidenceV1View,
) -> bool {
    x.parent_snapshot_id == Some(e.parent_snapshot_id) && p.current_parent_snapshot_id == Some(
        e.parent_snapshot_id,
    ) && same_items(e.changeset_ids, x.changeset_ids)
}

/// The evidence is current evidence of the system on an intent.
pub open spec fn is_system_proof(
    p: IntentLineageProjectionV1View,
    x: IntentExecutionLineageV1View,
    intent_ref: IntentVersionRefView,
) -> spec_fn(IntentCriterionEvidenceV1View) -> bool {
    |e: IntentCriterionEvidenceV1View|
        e.intent_ref == intent_ref && e.level == IntentCriterionEvidenceLevel::SystemVerified
            && is_current(p, x, e)
}

/// The evidence is evidence of the system on an intent that is no longer current.
pub open spec fn is_stale_proof(
    p: IntentLineageProjectionV1View,
    x: IntentExecutionLineageV1View,
    intent_ref: IntentVersionRefView,
) -> spec_fn(IntentCriterionEvidenceV1View) -> bool {
    |e: IntentCriterionEvidenceV1View|
        e.intent_ref == intent_ref && e.level == IntentCriterionEvidenceLevel::SystemVerified
            && !is_current(p, x, e)
}

/// The execution has change sets, reached the parent workspace, and nothing keeps it read-only.
pub open spec fn reached_parent(x: IntentExecutionLineageV1View) -> bool {
    x.changeset_ids.len() > 0 && x.parent_mutation_event_id is Some && x.read_only_reason is None
}

/// What is said of the executions of an intent. Lineage alone never makes an intent applied.
pub open spec fn lineage_summary(
    p: IntentLineageProjectionV1View,
    intent_ref: IntentVersionRefView,
) -> IntentLineageSummaryV1View {
    match latest_execution(p, intent_ref) {
        None => unapplied_summary(),
        Some(x) => {
            let stale = any_where(p.evidence, is_stale_proof(p, x, intent_ref));
            IntentLineageSummaryV1View {
                application_state: Some(
                    if stale || !reached_parent(x) {
                        IntentApplicationState::ReadOnly
                    } else {
                        IntentApplicationState::NeedsReview
                    },
                ),
                advisory_criterion_count: clamped(
                    count_different(criteria_where(p.evidence, is_advice(intent_ref))),
                ),
                system_verified_criterion_count: clamped(
                    count_different(
                        criteria_where(p.evidence, is_system_proof(p, x, intent_ref)),
                    ),
                ),
                read_only_reason: if stale {
                    Some(IntentLineageReadOnlyReasonV1::StaleParentSnapshot)
                } else {
                    x.read_only_reason
                },
            }
        },
    }
}

/// The receipts of the current evidence of the system on an intent.
pub open spec fn current_receipts(
    p: IntentLineageProjectionV1View,
    intent_ref: IntentVersionRefView,
) -> Seq<Seq<char>> {
    match latest_execution(p, intent_ref) {
        None => Seq::empty(),
        Some(x) => receipts_where(p.evidence, is_system_proof(p, x, intent_ref)),
    }
}

fn same_as(a: &Option<String>, b: &String) -> (r: bool)
    ensures
        r == (a.deep_view() == Some(b@)),
{
    match a {
        Some(x) => *x == *b,
        None => false,
    }
}

fn clamp(n: usize) -> (r: u32)
    ensures
        r == clamped(n as nat),
{
    if n <= u32::MAX as usize {
        n as u32
    } else {
        u32::MAX
    }
}

/// Counts the different criteria that pieces of evidence of a sort speak of.
fn count_criteria<F: Fn(&IntentCriterionEvidenceV1) -> bool>(
    evidence: &Vec<IntentCriterionEvidenceV1>,
    test: F,
    Ghost(p): Ghost<spec_fn(IntentCriterionEvidenceV1View) -> bool>,
) -> (r: u32)
    requires
        forall|x: &IntentCriterionEvidenceV1| #[trigger] test.requires((x,)),
        forall|x: &IntentCriterionEvidenceV1, b: bool| #[trigger]
            test.ensures((x,), b) ==> b == p(x.deep_view()),
    ensures
        r == clamped(count_different(criteria_where(evidence.deep_view(), p))),
{
    let ghost v = evidence.deep_view();
    let mut seen: Vec<IntentCriterionId> = Vec::new();
    let mut i: usize = 0;
    assert(v.take(0) =~= Seq::empty());
    while i < evidence.len()
        invariant
            i <= evidence.len(),
            v == evidence.deep_view(),
            forall|x: &IntentCriterionEvidenceV1| #[trigger] test.requires((x,)),
            forall|x: &IntentCriterionEvidenceV1, b: bool| #[trigger]
                test.ensures((x,), b) ==> b == p(x.deep_view()),
            seen.len() == count_different(criteria_where(v.take(i as int), p)),
            forall|t: Seq<char>| #[trigger]
                seen.deep_view().contains(t) == criteria_where(v.take(i as int), p).contains(t),
        decreases evidence.len() - i,
    {
        let ghost before = criteria_where(v.take(i as int), p);
        let ghost after = criteria_where(v.take(i + 1), p);
        assert(v.take(i + 1).drop_last() =~= v.take(i as int));
        assert(v.take(i + 1).last() == evidence@[i as int].deep_view());
        if test(&evidence[i]) {
            let id = evidence[i].criterion_id.duplicate();
            let ghost t0 = id.deep_view();
            assert(after == before.push(t0));
            assert(after.drop_last() =~= before);
            assert(after.last() == t0);
            let known = holds(&seen, &id);
            let ghost had = seen;
            if !known {
                seen.push(id);
                proof {
                    lemma_push_view(had, id, seen);
                }
            }
            assert forall|t: Seq<char>| #[trigger] seen.deep_view().contains(t) == after.contains(
                t,
            ) by {
                assert(had.deep_view().contains(t) == before.contains(t));
                if before.contains(t) {
                    let k = choose|k: int| 0 <= k < before.len() && before[k] == t;
                    assert(after[k] == t);
                }
                if after.contains(t) {
                    let k = choose|k: int| 0 <= k < after.len() && after[k] == t;
                    if k < before.len() {
                        assert(before[k] == t);
                    }
                }
                if t == t0 {
                    assert(after[before.len() as int] == t);
                    if !known {
                        assert(seen.deep_view()[had.len() as int] == t);
                    }
                }
                if had.deep_view().contains(t) {
                    let k = choose|k: int| 0 <= k < had.len() && had.deep_view()[k] == t;
                    assert(seen.deep_view()[k] == t);
                }
                if seen.deep_view().contains(t) && !had.deep_view().contains(t) {
                    let k = choose|k: int| 0 <= k < seen.len() && seen.deep_view()[k] == t;
                    if k < had.len() {
                        assert(had.deep_view()[k] == t);
                    }
                }
            }
        }
        i = i + 1;
    }
    assert(v.take(i as int) =~= v);
    clamp(seen.len())
}

fn collect_receipts<F: Fn(&IntentCriterionEvidenceV1) -> bool>(
    evidence: &Vec<IntentCriterionEvidenceV1>,
    test: F,
    Ghost(p): Ghost<spec_fn(IntentCriterionEvidenceV1View) -> bool>,
) -> (r: Vec<String>)
    requires
        forall|x: &IntentCriterionEvidenceV1| #[trigger] test.requires((x,)),
        forall|x: &IntentCriterionEvidenceV1, b: bool| #[trigger]
            test.ensures((x,), b) ==> b == p(x.deep_view()),
    ensures
        r.deep_view() == receipts_where(evidence.deep_view(), p),
{
    let ghost v = evidence.deep_view();
    let mut r: Vec<String> = Vec::new();
    let mut i: usize = 0;
    assert(v.take(0) =~= Seq::empty());
    assert(r.deep_view() =~= Seq::empty());
    while i < evidence.len()
        invariant
            i <= evidence.len(),
            v == evidence.deep_view(),
            forall|x: &IntentCriterionEvidenceV1| #[trigger] test.requires((x,)),
            forall|x: &IntentCriterionEvidenceV1, b: bool| #[trigger]
                test.ensures((x,), b) ==> b == p(x.deep_view()),
            r.deep_view() == receipts_where(v.take(i as int), p),
        decreases evidence.len() - i,
    {
        assert(v.take(i + 1).drop_last() =~= v.take(i as int));
        assert(v.take(i + 1).last() == evidence@[i as int].deep_view());
        if test(&evidence[i]) {
            let ghost before = r;
            let id = evidence[i].receipt_id.duplicate();
            r.push(id);
            proof {
                lemma_push_view(before, id, r);
            }
        }
        i = i + 1;
    }
    assert(v.take(i as int) =~= v);
    r
}

fn criterion_is_accepted(accepted: &AcceptedIntentPlanProjectionV1, e: &IntentCriterionEvidenceV1) -> (r:
    bool)
    ensures
        r == any_where(accepted.deep_view().plan.intents, has_criterion(e.deep_view())),
{
    has_any(
        &accepted.plan.intents,
        |d: &IntentDefinitionV1| -> (b: bool)
            ensures
                b == has_criterion(e.deep_view())(d.deep_view())
            {
                d.intent_ref.same(&e.intent_ref) && has_any(
                    &d.acceptance_criteria,
                    |c: &IntentAcceptanceCriterionV1| -> (o: bool)
                        ensures
                            o == is_criterion(e.criterion_id.deep_view())(c.deep_view())
                        { c.criterion_id.same(&e.criterion_id) },
                    Ghost(is_criterion(e.criterion_id.deep_view())),
                )
            },
        Ghost(has_criterion(e.deep_view())),
    )
}

fn validate_linked_evidence(
    records: &Vec<SessionStreamRecord>,
    admission: &IntentStackProjectionV1,
    stream_sequence: u64,
    evidence: &Vec<IntentCriterionEvidenceV1>,
) -> (r: Result<(), KernelError>)
    ensures
        verdict(r) == check_each(
            evidence.deep_view(),
            linked_verdict(records.deep_view(), admission.deep_view(), stream_sequence),
        ),
{
    let ghost v = linked_verdict(records.deep_view(), admission.deep_view(), stream_sequence);
    validate_each(
        evidence,
        |e: &IntentCriterionEvidenceV1| -> (o: Result<(), KernelError>)
            ensures
                verdict(o) == v(e.deep_view())
            {
                match admission.accepted_plan_for_intent_at(&e.intent_ref, stream_sequence) {
                    None => reject(
                        "Intent verification evidence references an unaccepted intent",
                    ),
                    Some(accepted) => {
                        if !criterion_is_accepted(accepted, e) {
                            reject(
                                "Intent verification evidence references an unaccepted criterion",
                            )
                        } else {
                            validate_basic_evidence(records, e)
                        }
                    },
                }
            },
        Ghost(v),
    )
}

fn add_new<T: Value>(have: &mut Vec<T>, items: &Vec<T>)
    ensures
        final(have).deep_view() == with_new(old(have).deep_view(), items.deep_view()),
{
    let ghost v = items.deep_view();
    let ghost start = have.deep_view();
    let mut i: usize = 0;
    assert(v.take(0) =~= Seq::empty());
    while i < items.len()
        invariant
            i <= items.len(),
            v == items.deep_view(),
            have.deep_view() == with_new(start, v.take(i as int)),
        decreases items.len() - i,
    {
        assert(v.take(i + 1).drop_last() =~= v.take(i as int));
        assert(v.take(i + 1).last() == items@[i as int].deep_view());
        if !holds(have, &items[i]) {
            let ghost before = *have;
            let copy = items[i].duplicate();
            have.push(copy);
            proof {
                lemma_push_view(before, copy, *have);
            }
        }
        i = i + 1;
    }
    assert(v.take(i as int) =~= v);
}

fn resolve_execution(
    records: &Vec<SessionStreamRecord>,
    e: &IntentExecutionLineageV1,
    workspace_id: &str,
) -> (r: IntentExecutionLineageV1)
    ensures
        r.deep_view() == with_parent(records.deep_view(), e.deep_view(), workspace_id@),
{
    let mut r = e.duplicate();
    if e.changeset_ids.len() == 0 {
        r.read_only_reason = Some(IntentLineageReadOnlyReasonV1::MissingChangeSet);
        return r;
    }
    let resolved = match &e.binding.origin {
        IntentExecutionOriginV1::Task { task_id, task_plan_version, step_id, .. } => {
            resolve_task_parent(
                records,
                task_id.as_str(),
                *task_plan_version,
                step_id.as_str(),
                &e.changeset_ids,
                workspace_id,
            )
        },
        IntentExecutionOriginV1::Chat { .. } => resolve_chat_parent(
            records,
            e,
            &e.changeset_ids,
            workspace_id,
        ),
    };
    match resolved {
        ParentLineage::Applied { mutation_event_id, snapshot_id } => {
            r.parent_mutation_event_id = Some(mutation_event_id);
            r.parent_snapshot_id = Some(snapshot_id);
        },
        ParentLineage::ReadOnly(reason) => {
            r.read_only_reason = Some(reason);
        },
    }
    r
}

fn resolve_executions(
    records: &Vec<SessionStreamRecord>,
    admission: &IntentStackProjectionV1,
    executions: &Vec<IntentExecutionLineageV1>,
) -> (r: Result<Vec<IntentExecutionLineageV1>, KernelError>)
    ensures
        outcome(r) == yields(
            check_each(executions.deep_view(), plan_kept(admission.deep_view())),
            with_parents(records.deep_view(), admission.deep_view(), executions.deep_view()),
        ),
{
    let ghost v = executions.deep_view();
    let ghost all = v.map_values(plan_kept(admission.deep_view()));
    let ghost done = with_parents(records.deep_view(), admission.deep_view(), v);
    let mut out: Vec<IntentExecutionLineageV1> = Vec::new();
    let mut i: usize = 0;
    proof {
        lemma_failures_begin(all);
    }
    while i < executions.len()
        invariant
            i <= executions.len(),
            v == executions.deep_view(),
            all == v.map_values(plan_kept(admission.deep_view())),
            done == with_parents(records.deep_view(), admission.deep_view(), v),
            first_failure(all) == first_failure(all.skip(i as int)),
            out.deep_view() =~= done.take(i as int),
        decreases executions.len() - i,
    {
        proof {
            lemma_failures_step(all, i as int);
        }
        assert(v[i as int] == executions@[i as int].deep_view());
        match admission.accepted_plan(executions[i].stack_version) {
            None => {
                return Err(
                    KernelError::new("Intent execution lineage lost its accepted plan version"),
                );
            },
            Some(accepted) => {
                let x = resolve_execution(
                    records,
                    &executions[i],
                    accepted.plan.workspace_id.as_str(),
                );
                let ghost before = out;
                out.push(x);
                proof {
                    lemma_push_view(before, x, out);
                }
            },
        }
        i = i + 1;
    }
    proof {
        lemma_failures_end(all);
    }
    assert(out.deep_view() =~= done);
    Ok(out)
}

impl IntentLineageProjectionV1 {
    /// Replays executions, change sets, parent mutations and evidence. An event that cannot be true
    /// fails the replay. Lineage that is missing or out of date stays visible as read-only provenance.
    pub fn from_records(
        records: &Vec<SessionStreamRecord>,
        admission: &IntentStackProjectionV1,
        tasks: &TaskStateProjection,
    ) -> (r: Result<Self, KernelError>)
        ensures
            outcome(r) == lineage_of(
                records.deep_view(),
                admission.deep_view(),
                tasks.deep_view(),
            ),
    {
        validate_facts(records)?;
        let accepted = match admission.latest_accepted_plan() {
            None => {
                if has_lineage_event(records) {
                    return Err(
                        KernelError::new(
                            "Intent lineage events exist without an accepted IntentPlan",
                        ),
                    );
                }
                return Ok(Self::default());
            },
            Some(accepted) => accepted,
        };
        let ghost v = records.deep_view();
        let ghost a = admission.deep_view();
        let ghost t = tasks.deep_view();
        let ghost w = accepted.deep_view().plan.workspace_id;
        let mut p = Self::default();
        p.current_parent_snapshot_id = current_parent_snapshot(
            records,
            accepted.plan.workspace_id.as_str(),
        );
        let mut i: usize = 0;
        while i < records.len()
            invariant
                i <= records.len(),
                v == records.deep_view(),
                a == admission.deep_view(),
                t == tasks.deep_view(),
                facts_verdict(v) is Ok,
                latest_accepted(a) matches Some(x) && x.plan.workspace_id == w,
                lineage_after(v, a, t, w, i as int) == Ok::<
                    IntentLineageProjectionV1View,
                    Seq<char>,
                >(p.deep_view()),
            decreases records.len() - i,
        {
            assert(v[i as int] == records@[i as int].deep_view());
            match p.apply_record(records, admission, tasks, &records[i]) {
                Ok(_) => {},
                Err(e) => {
                    proof {
                        lemma_lineage_fails(v, a, t, w, i + 1, v.len() as int);
                    }
                    return Err(e);
                },
            }
            i = i + 1;
        }
        p.resolve_parent_lineage(records, admission)
    }

    fn apply_record(
        &mut self,
        records: &Vec<SessionStreamRecord>,
        admission: &IntentStackProjectionV1,
        tasks: &TaskStateProjection,
        record: &SessionStreamRecord,
    ) -> (r: Result<(), KernelError>)
        ensures
            match after_lineage_record(
                records.deep_view(),
                admission.deep_view(),
                tasks.deep_view(),
                old(self).deep_view(),
                record.deep_view(),
            ) {
                Ok(p) => r is Ok && final(self).deep_view() == p,
                Err(m) => verdict(r) == Err::<(), Seq<char>>(m),
            },
    {
        match intent_event_of(record) {
            Some(IntentEventV1::ExecutionBound { stack_id, stack_version, binding, .. }) => {
                let accepted = match admission.accepted_plan(*stack_version) {
                    None => {
                        return reject(
                            "Intent execution binding references an unaccepted plan version",
                        );
                    },
                    Some(accepted) => accepted,
                };
                if !stack_id.same(&accepted.plan.stack_id) || accepted.accepted_stream_sequence
                    >= record.stream_sequence || !plan_holds(&accepted.plan, &binding.intent_ref) {
                    return reject(
                        "Intent execution binding references an unaccepted stack or intent",
                    );
                }
                validate_execution_source(records, tasks, binding, accepted)?;
                if position_by_key(&self.executions, binding.execution_id.as_str()).is_some() {
                    return reject("Intent execution id was bound more than once");
                }
                let x = IntentExecutionLineageV1 {
                    stack_version: *stack_version,
                    binding: binding.duplicate(),
                    binding_event_id: record.event_id.duplicate(),
                    binding_stream_sequence: record.stream_sequence,
                    changeset_ids: Vec::new(),
                    parent_mutation_event_id: None,
                    parent_snapshot_id: None,
                    read_only_reason: None,
                };
                assert(x.deep_view().changeset_ids =~= Seq::empty());
                let ghost before = self.executions;
                self.executions.push(x);
                proof {
                    lemma_push_view(before, x, self.executions);
                }
                Ok(())
            },
            Some(IntentEventV1::ChangeSetBound { intent_ref, execution_id, changeset_ids, .. }) => {
                let i = match position_by_key(&self.executions, execution_id.as_str()) {
                    None => {
                        return reject(
                            "Intent ChangeSet binding precedes its execution binding",
                        );
                    },
                    Some(i) => i,
                };
                assert(self.executions.deep_view()[i as int]
                    == self.executions@[i as int].deep_view());
                if !self.executions[i].binding.intent_ref.same(intent_ref) {
                    return reject("Intent ChangeSet binding references another intent");
                }
                if self.executions[i].changeset_ids.len() != 0 {
                    return reject("Intent execution was bound to ChangeSets more than once");
                }
                validate_changesets(records, changeset_ids)?;
                let mut x = self.executions[i].duplicate();
                x.changeset_ids = changeset_ids.duplicate();
                let ghost before = self.executions;
                self.executions.set(i, x);
                proof {
                    lemma_update_view(before, i as int, x, self.executions);
                }
                Ok(())
            },
            Some(IntentEventV1::VerificationLinked { evidence, .. }) => {
                validate_linked_evidence(records, admission, record.stream_sequence, evidence)?;
                add_new(&mut self.evidence, evidence);
                Ok(())
            },
            _ => Ok(()),
        }
    }

    fn resolve_parent_lineage(
        self,
        records: &Vec<SessionStreamRecord>,
        admission: &IntentStackProjectionV1,
    ) -> (r: Result<Self, KernelError>)
        ensures
            outcome(r) == resolved_lineage(
                records.deep_view(),
                admission.deep_view(),
                self.deep_view(),
            ),
    {
        let executions = resolve_executions(records, admission, &self.executions)?;
        let q = IntentLineageProjectionV1 {
            executions,
            evidence: self.evidence,
            current_parent_snapshot_id: self.current_parent_snapshot_id,
        };
        let ghost v = system_verdict(records.deep_view(), q.deep_view());
        validate_each(
            &q.evidence,
            |e: &IntentCriterionEvidenceV1| -> (o: Result<(), KernelError>)
                ensures
                    verdict(o) == v(e.deep_view())
                {
                    if e.level != IntentCriterionEvidenceLevel::SystemVerified {
                        Ok(())
                    } else {
                        match q.latest_execution_for(&e.intent_ref) {
                            None => reject("system-verified criterion has no execution lineage"),
                            Some(x) => validate_system_evidence(records, e, x),
                        }
                    }
                },
            Ghost(v),
        )?;
        Ok(q)
    }

    /// The execution with an identity.
    pub fn execution(&self, execution_id: &IntentExecutionId) -> (r: Option<
        &IntentExecutionLineageV1,
    >)
        ensures
            r.deep_view() == execution_with(self.deep_view(), execution_id.deep_view()),
    {
        match position_by_key(&self.executions, execution_id.as_str()) {
            Some(i) => {
                assert(self.executions.deep_view()[i as int]
                    == self.executions@[i as int].deep_view());
                Some(&self.executions[i])
            },
            None => None,
        }
    }

    /// The execution of an intent that was bound last.
    pub fn latest_execution_for(&self, intent_ref: &IntentVersionRef) -> (r: Option<
        &IntentExecutionLineageV1,
    >)
        ensures
            r.deep_view() == latest_execution(self.deep_view(), intent_ref.deep_view()),
    {
        let ghost p = executes(intent_ref.deep_view());
        let found = find_last(
            &self.executions,
            |e: &IntentExecutionLineageV1| -> (b: bool)
                ensures
                    b == p(e.deep_view())
                { e.binding.intent_ref.same(intent_ref) },
            Ghost(p),
        );
        match found {
            Some(i) => {
                assert(self.executions.deep_view()[i as int]
                    == self.executions@[i as int].deep_view());
                Some(&self.executions[i])
            },
            None => None,
        }
    }

    /// Tells whether a snapshot is the one that the parent workspace has now.
    pub(crate) fn is_current_parent(&self, snapshot_id: &String) -> (r: bool)
        ensures
            r == (self.deep_view().current_parent_snapshot_id == Some(snapshot_id@)),
    {
        same_as(&self.current_parent_snapshot_id, snapshot_id)
    }

    /// Tells whether evidence is known.
    pub(crate) fn knows(&self, evidence: &IntentCriterionEvidenceV1) -> (r: bool)
        ensures
            r == self.deep_view().evidence.contains(evidence.deep_view()),
    {
        holds(&self.evidence, evidence)
    }

    fn binds_current(&self, x: &IntentExecutionLineageV1, e: &IntentCriterionEvidenceV1) -> (r: bool)
        ensures
            r == is_current(self.deep_view(), x.deep_view(), e.deep_view()),
    {
        same_as(&x.parent_snapshot_id, &e.parent_snapshot_id) && same_as(
            &self.current_parent_snapshot_id,
            &e.parent_snapshot_id,
        ) && same_texts(&e.changeset_ids, &x.changeset_ids)
    }

    fn proves(
        &self,
        x: &IntentExecutionLineageV1,
        intent_ref: &IntentVersionRef,
        e: &IntentCriterionEvidenceV1,
    ) -> (r: bool)
        ensures
            r == is_system_proof(self.deep_view(), x.deep_view(), intent_ref.deep_view())(
                e.deep_view(),
            ),
    {
        e.intent_ref.same(intent_ref) && e.level == IntentCriterionEvidenceLevel::SystemVerified
            && self.binds_current(x, e)
    }

    /// The receipts of the current evidence of the system on an intent, each once and in ascending
    /// order. Advice and evidence out of date do not count.
    pub fn current_system_verification_receipt_ids(&self, intent_ref: &IntentVersionRef) -> (r: Vec<
        String,
    >)
        ensures
            ascending(r.deep_view()),
            r.deep_view().to_set() == current_receipts(
                self.deep_view(),
                intent_ref.deep_view(),
            ).to_set(),
    {
        let x = match self.latest_execution_for(intent_ref) {
            None => {
                let r: Vec<String> = Vec::new();
                assert(r.deep_view() =~= Seq::empty());
                return r;
            },
            Some(x) => x,
        };
        let ghost p = is_system_proof(self.deep_view(), x.deep_view(), intent_ref.deep_view());
        let ids = collect_receipts(
            &self.evidence,
            |e: &IntentCriterionEvidenceV1| -> (b: bool)
                ensures
                    b == p(e.deep_view())
                { self.proves(x, intent_ref, e) },
            Ghost(p),
        );
        ascending_texts(&ids)
    }

    /// What is said of the executions of an intent.
    pub fn summary_for(&self, intent_ref: &IntentVersionRef) -> (r: IntentLineageSummaryV1)
        ensures
            r.deep_view() == lineage_summary(self.deep_view(), intent_ref.deep_view()),
    {
        let x = match self.latest_execution_for(intent_ref) {
            None => {
                return IntentLineageSummaryV1 {
                    application_state: Some(IntentApplicationState::Unapplied),
                    advisory_criterion_count: 0,
                    system_verified_criterion_count: 0,
                    read_only_reason: None,
                };
            },
            Some(x) => x,
        };
        let ghost advice = is_advice(intent_ref.deep_view());
        let ghost stale_proof = is_stale_proof(
            self.deep_view(),
            x.deep_view(),
            intent_ref.deep_view(),
        );
        let ghost system_proof = is_system_proof(
            self.deep_view(),
            x.deep_view(),
            intent_ref.deep_view(),
        );
        let stale = has_any(
            &self.evidence,
            |e: &IntentCriterionEvidenceV1| -> (b: bool)
                ensures
                    b == stale_proof(e.deep_view())
                {
                    e.intent_ref.same(intent_ref) && e.level
                        == IntentCriterionEvidenceLevel::SystemVerified && !self.binds_current(x, e)
                },
            Ghost(stale_proof),
        );
        let advisory_criterion_count = count_criteria(
            &self.evidence,
            |e: &IntentCriterionEvidenceV1| -> (b: bool)
                ensures
                    b == advice(e.deep_view())
                {
                    e.intent_ref.same(intent_ref) && e.level
                        == IntentCriterionEvidenceLevel::Advisory
                },
            Ghost(advice),
        );
        let system_verified_criterion_count = count_criteria(
            &self.evidence,
            |e: &IntentCriterionEvidenceV1| -> (b: bool)
                ensures
                    b == system_proof(e.deep_view())
                { self.proves(x, intent_ref, e) },
            Ghost(system_proof),
        );
        let read_only = stale || x.changeset_ids.len() == 0 || x.parent_mutation_event_id.is_none()
            || x.read_only_reason.is_some();
        IntentLineageSummaryV1 {
            application_state: Some(
                if read_only {
                    IntentApplicationState::ReadOnly
                } else {
                    IntentApplicationState::NeedsReview
                },
            ),
            advisory_criterion_count,
            system_verified_criterion_count,
            read_only_reason: if stale {
                Some(IntentLineageReadOnlyReasonV1::StaleParentSnapshot)
            } else {
                x.read_only_reason.duplicate()
            },
        }
    }
}

// Laws.

/// What holds of every replayed lineage: executions have different identities, an execution reached
/// the parent workspace or is read-only, and never both, an execution without change sets is read-only,
/// and no evidence is kept twice.
pub open spec fn sound_lineage(p: IntentLineageProjectionV1View) -> bool {
    &&& different_executions(p.executions)
    &&& distinct(p.evidence)
    &&& forall|i: int| 0 <= i < p.executions.len() ==> settled(#[trigger] p.executions[i])
}

/// The executions have different identities.
pub open spec fn different_executions(executions: Seq<IntentExecutionLineageV1View>) -> bool {
    forall|i: int, j: int|
        0 <= i < j < executions.len() ==> (#[trigger] executions[i]).binding.execution_id != (
        #[trigger] executions[j]).binding.execution_id
}

/// It is settled whether the execution reached the parent workspace.
pub open spec fn settled(x: IntentExecutionLineageV1View) -> bool {
    &&& (x.parent_mutation_event_id is Some) == (x.parent_snapshot_id is Some)
    &&& (x.parent_mutation_event_id is Some) == (x.read_only_reason is None)
    &&& x.changeset_ids.len() == 0 ==> x.read_only_reason == Some(
        IntentLineageReadOnlyReasonV1::MissingChangeSet,
    )
}

/// What holds before parents are resolved.
spec fn sound_before(p: IntentLineageProjectionV1View) -> bool {
    &&& different_executions(p.executions)
    &&& distinct(p.evidence)
    &&& forall|i: int|
        0 <= i < p.executions.len() ==> (#[trigger] p.executions[i]).parent_mutation_event_id is None
            && p.executions[i].parent_snapshot_id is None && p.executions[i].read_only_reason is None
}

proof fn lemma_with_new_distinct<A>(have: Seq<A>, items: Seq<A>)
    requires
        distinct(have),
    ensures
        distinct(with_new(have, items)),
    decreases items.len(),
{
    if items.len() > 0 {
        lemma_with_new_distinct(have, items.drop_last());
    }
}

proof fn lemma_record_keeps_sound(
    records: Seq<SessionStreamRecordView>,
    admission: IntentStackProjectionV1View,
    tasks: TaskStateProjectionView,
    p: IntentLineageProjectionV1View,
    record: SessionStreamRecordView,
)
    requires
        sound_before(p),
    ensures
        after_lineage_record(records, admission, tasks, p, record) matches Ok(q) ==> sound_before(q),
{
    match intent_event_in(record) {
        Some(IntentEventV1View::ExecutionBound { binding, .. }) => {
            lemma_find_key::<IntentExecutionLineageV1>(p.executions, binding.execution_id);
        },
        Some(IntentEventV1View::ChangeSetBound { execution_id, .. }) => {
            lemma_find_key::<IntentExecutionLineageV1>(p.executions, execution_id);
        },
        Some(IntentEventV1View::VerificationLinked { evidence, .. }) => {
            lemma_with_new_distinct(p.evidence, evidence);
        },
        _ => {},
    }
}

proof fn lemma_replay_is_sound(
    records: Seq<SessionStreamRecordView>,
    admission: IntentStackProjectionV1View,
    tasks: TaskStateProjectionView,
    workspace_id: Seq<char>,
    n: int,
)
    ensures
        lineage_after(records, admission, tasks, workspace_id, n) matches Ok(p) ==> sound_before(p),
    decreases n,
{
    if n > 0 {
        lemma_replay_is_sound(records, admission, tasks, workspace_id, n - 1);
        if let Ok(p) = lineage_after(records, admission, tasks, workspace_id, n - 1) {
            lemma_record_keeps_sound(records, admission, tasks, p, records[n - 1]);
        }
    }
}

/// Every replayed lineage is sound.
pub proof fn law_replayed_lineages_are_sound(
    records: Seq<SessionStreamRecordView>,
    admission: IntentStackProjectionV1View,
    tasks: TaskStateProjectionView,
)
    ensures
        lineage_of(records, admission, tasks) matches Ok(p) ==> sound_lineage(p),
{
    if let Some(accepted) = latest_accepted(admission) {
        lemma_replay_is_sound(
            records,
            admission,
            tasks,
            accepted.plan.workspace_id,
            records.len() as int,
        );
    }
}

/// Lineage alone never makes an intent applied, and an intent that is not read-only has an execution
/// with change sets that reached the parent workspace.
pub proof fn law_lineage_is_never_applied(
    p: IntentLineageProjectionV1View,
    intent_ref: IntentVersionRefView,
)
    ensures
        lineage_summary(p, intent_ref).application_state != Some(IntentApplicationState::Applied),
        lineage_summary(p, intent_ref).application_state == Some(
            IntentApplicationState::NeedsReview,
        ) ==> (latest_execution(p, intent_ref) matches Some(x) && reached_parent(x)),
{
}

/// Evidence out of date keeps an intent read-only.
pub proof fn law_stale_evidence_is_read_only(
    p: IntentLineageProjectionV1View,
    intent_ref: IntentVersionRefView,
    x: IntentExecutionLineageV1View,
    i: int,
)
    requires
        latest_execution(p, intent_ref) == Some(x),
        0 <= i < p.evidence.len(),
        p.evidence[i].intent_ref == intent_ref,
        p.evidence[i].level == IntentCriterionEvidenceLevel::SystemVerified,
        p.current_parent_snapshot_id != Some(p.evidence[i].parent_snapshot_id),
    ensures
        lineage_summary(p, intent_ref).application_state == Some(IntentApplicationState::ReadOnly),
        lineage_summary(p, intent_ref).read_only_reason == Some(
            IntentLineageReadOnlyReasonV1::StaleParentSnapshot,
        ),
{
    assert(is_stale_proof(p, x, intent_ref)(p.evidence[i]));
}

/// The execution with an identity.
pub open spec fn execution_with(p: IntentLineageProjectionV1View, id: Seq<char>) -> Option<
    IntentExecutionLineageV1View,
> {
    match find_key::<IntentExecutionLineageV1>(p.executions, id) {
        Some(i) => Some(p.executions[i]),
        None => None,
    }
}

proof fn lemma_with_new_keeps<A>(have: Seq<A>, items: Seq<A>, x: A)
    requires
        have.contains(x) || items.contains(x),
    ensures
        with_new(have, items).contains(x),
    decreases items.len(),
{
    if items.len() > 0 {
        let rest = items.drop_last();
        let before = with_new(have, rest);
        if items.contains(x) && x != items.last() {
            let i = choose|i: int| 0 <= i < items.len() && items[i] == x;
            assert(rest[i] == x);
        }
        if have.contains(x) || rest.contains(x) {
            lemma_with_new_keeps(have, rest, x);
            let i = choose|i: int| 0 <= i < before.len() && before[i] == x;
            assert(before.push(items.last())[i] == x);
        } else {
            assert(before.push(items.last())[before.len() as int] == x);
        }
    }
}

/// The projection holds what an event of the lineage tells.
pub open spec fn tells_lineage(
    p: IntentLineageProjectionV1View,
    record: SessionStreamRecordView,
) -> bool {
    match intent_event_in(record) {
        Some(IntentEventV1View::ExecutionBound { stack_version, binding, .. }) => {
            &&& execution_with(p, binding.execution_id) matches Some(x)
            &&& x.stack_version == stack_version
            &&& x.binding == binding
            &&& x.binding_event_id == record.event_id
            &&& x.binding_stream_sequence == record.stream_sequence
        },
        Some(IntentEventV1View::ChangeSetBound { intent_ref, execution_id, changeset_ids, .. }) => {
            changeset_ids.len() > 0 ==> {
                &&& execution_with(p, execution_id) matches Some(x)
                &&& x.binding.intent_ref == intent_ref
                &&& x.changeset_ids == changeset_ids
            }
        },
        Some(IntentEventV1View::VerificationLinked { evidence, .. }) => forall|k: int|
            0 <= k < evidence.len() ==> p.evidence.contains(#[trigger] evidence[k]),
        _ => true,
    }
}

/// Only what is bound and linked counts for what is told.
proof fn lemma_tells_the_same(
    p: IntentLineageProjectionV1View,
    q: IntentLineageProjectionV1View,
    record: SessionStreamRecordView,
)
    requires
        different_executions(p.executions),
        different_executions(q.executions),
        forall|x| p.evidence.contains(x) ==> q.evidence.contains(x),
        p.executions.len() <= q.executions.len(),
        forall|i: int|
            0 <= i < p.executions.len() ==> {
                &&& (#[trigger] q.executions[i]).binding == p.executions[i].binding
                &&& q.executions[i].stack_version == p.executions[i].stack_version
                &&& q.executions[i].binding_event_id == p.executions[i].binding_event_id
                &&& q.executions[i].binding_stream_sequence
                    == p.executions[i].binding_stream_sequence
                &&& p.executions[i].changeset_ids.len() > 0 ==> q.executions[i].changeset_ids
                    == p.executions[i].changeset_ids
            },
        tells_lineage(p, record),
    ensures
        tells_lineage(q, record),
{
    let id = match intent_event_in(record) {
        Some(IntentEventV1View::ExecutionBound { binding, .. }) => binding.execution_id,
        Some(IntentEventV1View::ChangeSetBound { execution_id, .. }) => execution_id,
        _ => Seq::empty(),
    };
    lemma_find_key::<IntentExecutionLineageV1>(p.executions, id);
    lemma_find_key::<IntentExecutionLineageV1>(q.executions, id);
    if let Some(i) = find_key::<IntentExecutionLineageV1>(p.executions, id) {
        assert(q.executions[i].binding.execution_id == id);
        assert(find_key::<IntentExecutionLineageV1>(q.executions, id) == Some(i));
    }
}

proof fn lemma_record_is_told(
    records: Seq<SessionStreamRecordView>,
    admission: IntentStackProjectionV1View,
    tasks: TaskStateProjectionView,
    p: IntentLineageProjectionV1View,
    record: SessionStreamRecordView,
    q: IntentLineageProjectionV1View,
)
    requires
        sound_before(p),
        after_lineage_record(records, admission, tasks, p, record) == Ok::<_, Seq<char>>(q),
    ensures
        tells_lineage(q, record),
{
    match intent_event_in(record) {
        Some(IntentEventV1View::ExecutionBound { binding, .. }) => {
            let id = binding.execution_id;
            lemma_find_key::<IntentExecutionLineageV1>(p.executions, id);
            lemma_find_key::<IntentExecutionLineageV1>(q.executions, id);
            assert(q.executions[p.executions.len() as int].binding.execution_id == id);
            assert forall|j: int| 0 <= j < p.executions.len() implies q.executions[j]
                == #[trigger] p.executions[j] by {}
        },
        Some(IntentEventV1View::ChangeSetBound { execution_id, .. }) => {
            lemma_find_key::<IntentExecutionLineageV1>(p.executions, execution_id);
            lemma_find_key::<IntentExecutionLineageV1>(q.executions, execution_id);
            let i = find_key::<IntentExecutionLineageV1>(p.executions, execution_id)->0;
            assert(q.executions[i].binding.execution_id == execution_id);
            assert forall|j: int| 0 <= j < i implies q.executions[j]
                == #[trigger] p.executions[j] by {}
        },
        Some(IntentEventV1View::VerificationLinked { evidence, .. }) => {
            assert forall|k: int| 0 <= k < evidence.len() implies q.evidence.contains(
                #[trigger] evidence[k],
            ) by {
                lemma_with_new_keeps(p.evidence, evidence, evidence[k]);
            }
        },
        _ => {},
    }
}

proof fn lemma_record_stays_told(
    records: Seq<SessionStreamRecordView>,
    admission: IntentStackProjectionV1View,
    tasks: TaskStateProjectionView,
    p: IntentLineageProjectionV1View,
    record: SessionStreamRecordView,
    q: IntentLineageProjectionV1View,
    earlier: SessionStreamRecordView,
)
    requires
        sound_before(p),
        after_lineage_record(records, admission, tasks, p, record) == Ok::<_, Seq<char>>(q),
        tells_lineage(p, earlier),
    ensures
        tells_lineage(q, earlier),
{
    lemma_record_keeps_sound(records, admission, tasks, p, record);
    if let Some(IntentEventV1View::ChangeSetBound { execution_id, .. }) = intent_event_in(record) {
        lemma_find_key::<IntentExecutionLineageV1>(p.executions, execution_id);
    }
    assert forall|x| p.evidence.contains(x) implies q.evidence.contains(x) by {
        if let Some(IntentEventV1View::VerificationLinked { evidence, .. }) = intent_event_in(
            record,
        ) {
            lemma_with_new_keeps(p.evidence, evidence, x);
        }
    }
    lemma_tells_the_same(p, q, earlier);
}

proof fn lemma_records_are_told(
    records: Seq<SessionStreamRecordView>,
    admission: IntentStackProjectionV1View,
    tasks: TaskStateProjectionView,
    workspace_id: Seq<char>,
    n: int,
    i: int,
)
    requires
        0 <= i < n <= records.len(),
    ensures
        lineage_after(records, admission, tasks, workspace_id, n) matches Ok(p) ==> tells_lineage(
            p,
            records[i],
        ),
    decreases n,
{
    if let Ok(p) = lineage_after(records, admission, tasks, workspace_id, n - 1) {
        lemma_replay_is_sound(records, admission, tasks, workspace_id, n - 1);
        if let Ok(q) = lineage_after(records, admission, tasks, workspace_id, n) {
            if i < n - 1 {
                lemma_records_are_told(records, admission, tasks, workspace_id, n - 1, i);
                lemma_record_stays_told(
                    records,
                    admission,
                    tasks,
                    p,
                    records[n - 1],
                    q,
                    records[i],
                );
            } else {
                lemma_record_is_told(records, admission, tasks, p, records[i], q);
            }
        }
    }
}

/// No lineage is lost: what the events of a stream bind and link is what a replay of the stream shows,
/// each execution with its plan and its event, each execution with the change sets that were bound to
/// it, and all the evidence.
pub proof fn law_no_lineage_is_lost(
    records: Seq<SessionStreamRecordView>,
    admission: IntentStackProjectionV1View,
    tasks: TaskStateProjectionView,
    p: IntentLineageProjectionV1View,
    i: int,
)
    requires
        lineage_of(records, admission, tasks) == Ok::<_, Seq<char>>(p),
        0 <= i < records.len(),
    ensures
        tells_lineage(p, records[i]),
{
    match latest_accepted(admission) {
        None => {
            assert(!is_lineage_event()(records[i]));
        },
        Some(accepted) => {
            let workspace_id = accepted.plan.workspace_id;
            let n = records.len() as int;
            lemma_records_are_told(records, admission, tasks, workspace_id, n, i);
            lemma_replay_is_sound(records, admission, tasks, workspace_id, n);
            let before = lineage_after(records, admission, tasks, workspace_id, n)->Ok_0;
            law_replayed_lineages_are_sound(records, admission, tasks);
            lemma_tells_the_same(before, p, records[i]);
        },
    }
}

} // verus!
