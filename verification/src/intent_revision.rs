//! Plans that take the place of others: accepted revisions, and plans that a forked session takes over.
//! Neither changes a file, and neither copies executions, layers, receipts or operations.

use vstd::prelude::*;

use crate::hosted::pushed;
use crate::intent::{
    IntentAcceptanceKind, IntentDefinitionV1, IntentDefinitionV1View, IntentDigest, IntentEventV1,
    IntentEventV1View, IntentOperationKind, IntentPlanV1, IntentPlanV1View, IntentSourceV1,
    IntentSourceV1View, IntentStackId, IntentStackVersion, IntentTaskPlanBindingV1,
    IntentTaskPlanBindingV1View, IntentVersionRef, INTENT_CONTRACT_SCHEMA_VERSION,
};
use crate::intent_admission::{
    admission_events, admission_events_verdict, admission_identity_verdict,
    build_successor_admission, plan_accepted_event, plan_draft, plan_recorded_event, plan_refs,
    resolve_criteria, resolved_criteria, seal_plan, sealed_plan, steps_refs_verdicts,
    successor_admission, successor_events, successor_events_verdict, task_graph_verdict,
    validate_task_graph, validate_task_plan_intent_refs, IntentPlanAdmissionV1,
    IntentPlanAdmissionV1View,
};
use crate::intent_contract::{plan_shape_verdict, plan_verdict};
use crate::intent_impact::{
    impact_preview_verdict, next_ref, preview_intent_revision, revised_ref, revision_preview,
    revision_verdict,
};
use crate::intent_operation::{runtime_identity_verdict, validate_runtime_identity};
use crate::intent_stack::{
    accepted_place, accepted_state, accepted_version, admission_session_verdict, after_intent_event,
    after_record, durable_task_plan, durable_task_plan_of, ensure_admission_matches_session,
    exact_admission, goes_on, initial_append, is_confirmed_successor, is_revision_of,
    is_without_history, latest_accepted, lemma_accepted_place, live_has, live_session_has_task_plan,
    next_accepted, next_recorded, outcome_of, recorded_place, session_stack, sound_stack, stack_of,
    task_binding, write_outcome, IntentAppendV1, IntentAppendV1View, IntentStackProjectionV1,
    IntentStackProjectionV1View,
};
use crate::intent_state::{
    IntentAdmissionContextV1, IntentAdmissionContextV1View, IntentImpactPreviewV1,
    IntentImpactPreviewV1View, IntentRevisionProposalV1, IntentRevisionProposalV1View,
};
use crate::lineage_facts::proposal;
use crate::records::{
    ControlEntry, ControlEntryView, RecordBodyView, Session, SessionStreamRecord,
    SessionStreamRecordView, SessionView, TaskPlanEntry, TaskPlanEntryView, TaskPlanStatus,
};
use crate::text::same_text;
use crate::value::{
    chain, check, find_item, first_failure, following, lemma_find_item, lemma_push_view,
    lemma_update_view, next_number, outcome, reject, verdict, yields, KernelError, Value, Verdict,
};

verus! {

/// Non-serializable host authority binding an exact revision proposal and read-only preview to an
/// explicit user confirmation.
#[derive(Debug, Clone, PartialEq, Eq)]
pub struct IntentRevisionAuthorityV1 {
    source_turn_id: String,
    authority_event_id: String,
    proposal_digest: IntentDigest,
    preview_digest: IntentDigest,
}

/// What a [`IntentRevisionAuthorityV1`] holds.
#[verifier::ext_equal]
pub struct IntentRevisionAuthorityV1View {
    pub source_turn_id: Seq<char>,
    pub authority_event_id: Seq<char>,
    pub proposal_digest: Seq<char>,
    pub preview_digest: Seq<char>,
}

impl DeepView for IntentRevisionAuthorityV1 {
    type V = IntentRevisionAuthorityV1View;

    closed spec fn deep_view(&self) -> IntentRevisionAuthorityV1View {
        IntentRevisionAuthorityV1View {
            source_turn_id: self.source_turn_id.deep_view(),
            authority_event_id: self.authority_event_id.deep_view(),
            proposal_digest: self.proposal_digest.deep_view(),
            preview_digest: self.preview_digest.deep_view(),
        }
    }
}

impl Value for IntentRevisionAuthorityV1 {
    fn same(&self, other: &Self) -> (r: bool) {
        self.source_turn_id.same(&other.source_turn_id)
            && self.authority_event_id.same(&other.authority_event_id)
            && self.proposal_digest.same(&other.proposal_digest)
            && self.preview_digest.same(&other.preview_digest)
    }

    fn duplicate(&self) -> (r: Self) {
        IntentRevisionAuthorityV1 {
            source_turn_id: self.source_turn_id.duplicate(),
            authority_event_id: self.authority_event_id.duplicate(),
            proposal_digest: self.proposal_digest.duplicate(),
            preview_digest: self.preview_digest.duplicate(),
        }
    }
}

/// Exact, non-serializable proof required to adopt fork provenance into a new stack.
#[derive(Debug, Clone, PartialEq, Eq)]
pub struct IntentAdoptionAuthorityV1 {
    source_session_id: String,
    destination_session_id: String,
    source_plan_digest: IntentDigest,
    source_workspace_id: String,
    destination_workspace_id: String,
    source_snapshot_id: String,
    destination_snapshot_id: String,
    branch_lineage_digest: String,
    source_turn_id: String,
    authority_event_id: String,
    new_stack_id: IntentStackId,
}

/// What a [`IntentAdoptionAuthorityV1`] holds.
#[verifier::ext_equal]
pub struct IntentAdoptionAuthorityV1View {
    pub source_session_id: Seq<char>,
    pub destination_session_id: Seq<char>,
    pub source_plan_digest: Seq<char>,
    pub source_workspace_id: Seq<char>,
    pub destination_workspace_id: Seq<char>,
    pub source_snapshot_id: Seq<char>,
    pub destination_snapshot_id: Seq<char>,
    pub branch_lineage_digest: Seq<char>,
    pub source_turn_id: Seq<char>,
    pub authority_event_id: Seq<char>,
    pub new_stack_id: Seq<char>,
}

impl DeepView for IntentAdoptionAuthorityV1 {
    type V = IntentAdoptionAuthorityV1View;

    closed spec fn deep_view(&self) -> IntentAdoptionAuthorityV1View {
        IntentAdoptionAuthorityV1View {
            source_session_id: self.source_session_id.deep_view(),
            destination_session_id: self.destination_session_id.deep_view(),
            source_plan_digest: self.source_plan_digest.deep_view(),
            source_workspace_id: self.source_workspace_id.deep_view(),
            destination_workspace_id: self.destination_workspace_id.deep_view(),
            source_snapshot_id: self.source_snapshot_id.deep_view(),
            destination_snapshot_id: self.destination_snapshot_id.deep_view(),
            branch_lineage_digest: self.branch_lineage_digest.deep_view(),
            source_turn_id: self.source_turn_id.deep_view(),
            authority_event_id: self.authority_event_id.deep_view(),
            new_stack_id: self.new_stack_id.deep_view(),
        }
    }
}

impl Value for IntentAdoptionAuthorityV1 {
    fn same(&self, other: &Self) -> (r: bool) {
        self.source_session_id.same(&other.source_session_id)
            && self.destination_session_id.same(&other.destination_session_id)
            && self.source_plan_digest.same(&other.source_plan_digest)
            && self.source_workspace_id.same(&other.source_workspace_id)
            && self.destination_workspace_id.same(&other.destination_workspace_id)
            && self.source_snapshot_id.same(&other.source_snapshot_id)
            && self.destination_snapshot_id.same(&other.destination_snapshot_id)
            && self.branch_lineage_digest.same(&other.branch_lineage_digest)
            && self.source_turn_id.same(&other.source_turn_id)
            && self.authority_event_id.same(&other.authority_event_id)
            && self.new_stack_id.same(&other.new_stack_id)
    }

    fn duplicate(&self) -> (r: Self) {
        IntentAdoptionAuthorityV1 {
            source_session_id: self.source_session_id.duplicate(),
            destination_session_id: self.destination_session_id.duplicate(),
            source_plan_digest: self.source_plan_digest.duplicate(),
            source_workspace_id: self.source_workspace_id.duplicate(),
            destination_workspace_id: self.destination_workspace_id.duplicate(),
            source_snapshot_id: self.source_snapshot_id.duplicate(),
            destination_snapshot_id: self.destination_snapshot_id.duplicate(),
            branch_lineage_digest: self.branch_lineage_digest.duplicate(),
            source_turn_id: self.source_turn_id.duplicate(),
            authority_event_id: self.authority_event_id.duplicate(),
            new_stack_id: self.new_stack_id.duplicate(),
        }
    }
}

// Authorities.

/// The authority that a user gives to one revision and the very preview of it.
pub open spec fn revision_authority(
    proposal: IntentRevisionProposalV1View,
    preview: IntentImpactPreviewV1View,
    authority_event_id: Seq<char>,
) -> Result<IntentRevisionAuthorityV1View, Seq<char>> {
    yields(
        chain(
            revision_verdict(proposal),
            chain(
                impact_preview_verdict(preview),
                chain(
                    check(
                        preview.operation.operation_kind == IntentOperationKind::ReviseImpactPreview,
                        "intent revision authority requires a revise impact preview"@,
                    ),
                    runtime_identity_verdict(
                        "intent revision acceptance authority id"@,
                        authority_event_id,
                    ),
                ),
            ),
        ),
        IntentRevisionAuthorityV1View {
            source_turn_id: proposal.source_turn_id,
            authority_event_id,
            proposal_digest: proposal.proposal_digest,
            preview_digest: preview.operation.preview_digest,
        },
    )
}

impl IntentRevisionAuthorityV1 {
    /// Takes the confirmation of a user for one proposal and the very preview of it.
    pub fn explicit_user_confirmation(
        proposal: &IntentRevisionProposalV1,
        preview: &IntentImpactPreviewV1,
        authority_event_id: String,
    ) -> (r: Result<Self, KernelError>)
        ensures
            outcome(r) == revision_authority(
                proposal.deep_view(),
                preview.deep_view(),
                authority_event_id@,
            ),
    {
        proposal.validate_contract()?;
        preview.validate_contract()?;
        if preview.operation.operation_kind != IntentOperationKind::ReviseImpactPreview {
            return Err(
                KernelError::new("intent revision authority requires a revise impact preview"),
            );
        }
        validate_runtime_identity(
            "intent revision acceptance authority id",
            authority_event_id.as_str(),
        )?;
        Ok(
            IntentRevisionAuthorityV1 {
                source_turn_id: proposal.source_turn_id.duplicate(),
                authority_event_id,
                proposal_digest: proposal.proposal_digest.duplicate(),
                preview_digest: preview.operation.preview_digest.duplicate(),
            },
        )
    }
}

/// The authority to take over the plan of the session that a session was forked from.
pub open spec fn adoption_authority(
    source: SessionView,
    destination: SessionView,
    source_workspace_id: Seq<char>,
    destination_workspace_id: Seq<char>,
    source_snapshot_id: Seq<char>,
    destination_snapshot_id: Seq<char>,
    source_branch_lineage_digest: Seq<char>,
    destination_branch_lineage_digest: Seq<char>,
    source_turn_id: Seq<char>,
    authority_event_id: Seq<char>,
    new_stack_id: Seq<char>,
) -> Result<IntentAdoptionAuthorityV1View, Seq<char>> {
    match chain(
        runtime_identity_verdict(
            "source Intent branch lineage digest"@,
            source_branch_lineage_digest,
        ),
        chain(
            runtime_identity_verdict(
                "destination Intent branch lineage digest"@,
                destination_branch_lineage_digest,
            ),
            check(
                source_branch_lineage_digest == destination_branch_lineage_digest,
                "Intent adoption branch lineage does not match"@,
            ),
        ),
    ) {
        Err(m) => Err(m),
        Ok(_) => match session_stack(source) {
            Err(m) => Err(m),
            Ok(s) => match latest_accepted(s) {
                None => Err("Intent adoption source has no accepted plan"@),
                Some(accepted) => match session_stack(destination) {
                    Err(m) => Err(m),
                    Ok(d) => yields(
                        chain(
                            check(
                                d.fork_source_session_id == Some(source.session_scope_id)
                                    && latest_accepted(d) is None,
                                "Intent adoption destination is not an unused exact conversation fork"@,
                            ),
                            chain(
                                check(
                                    source_workspace_id == accepted.plan.workspace_id,
                                    "Intent adoption source workspace is out of scope"@,
                                ),
                                chain(
                                    check(
                                        source_snapshot_id == destination_snapshot_id,
                                        "Intent adoption tracked workspace bytes do not match"@,
                                    ),
                                    chain(
                                        runtime_identity_verdict(
                                            "Intent adoption source turn id"@,
                                            source_turn_id,
                                        ),
                                        runtime_identity_verdict(
                                            "Intent adoption authority event id"@,
                                            authority_event_id,
                                        ),
                                    ),
                                ),
                            ),
                        ),
                        IntentAdoptionAuthorityV1View {
                            source_session_id: source.session_scope_id,
                            destination_session_id: destination.session_scope_id,
                            source_plan_digest: accepted.plan.plan_digest,
                            source_workspace_id,
                            destination_workspace_id,
                            source_snapshot_id,
                            destination_snapshot_id,
                            branch_lineage_digest: source_branch_lineage_digest,
                            source_turn_id,
                            authority_event_id,
                            new_stack_id,
                        },
                    ),
                },
            },
        },
    }
}

fn is_fork_of(p: &IntentStackProjectionV1, session_id: &String) -> (r: bool)
    ensures
        r == (p.deep_view().fork_source_session_id == Some(session_id@)),
{
    match p.fork_source_session_id() {
        Some(id) => *id == *session_id,
        None => false,
    }
}

impl IntentAdoptionAuthorityV1 {
    /// Takes the exact identities of both sessions, of their workspaces and of the snapshots of these.
    /// Other branches, other tracked bytes or an unrelated session get no authority.
    pub fn capture(
        source: &Session,
        destination: &Session,
        source_workspace_id: String,
        destination_workspace_id: String,
        source_snapshot_id: String,
        destination_snapshot_id: String,
        source_branch_lineage_digest: String,
        destination_branch_lineage_digest: &str,
        source_turn_id: String,
        authority_event_id: String,
        new_stack_id: IntentStackId,
    ) -> (r: Result<Self, KernelError>)
        ensures
            outcome(r) == adoption_authority(
                source.deep_view(),
                destination.deep_view(),
                source_workspace_id@,
                destination_workspace_id@,
                source_snapshot_id@,
                destination_snapshot_id@,
                source_branch_lineage_digest@,
                destination_branch_lineage_digest@,
                source_turn_id@,
                authority_event_id@,
                new_stack_id.deep_view(),
            ),
    {
        validate_runtime_identity(
            "source Intent branch lineage digest",
            source_branch_lineage_digest.as_str(),
        )?;
        validate_runtime_identity(
            "destination Intent branch lineage digest",
            destination_branch_lineage_digest,
        )?;
        if !same_text(source_branch_lineage_digest.as_str(), destination_branch_lineage_digest) {
            return Err(KernelError::new("Intent adoption branch lineage does not match"));
        }
        let from = source.intent_stack_projection()?;
        let accepted = match from.latest_accepted_plan() {
            None => {
                return Err(KernelError::new("Intent adoption source has no accepted plan"));
            },
            Some(accepted) => accepted,
        };
        let to = destination.intent_stack_projection()?;
        if !is_fork_of(&to, &source.session_scope_id) || to.latest_accepted_plan().is_some() {
            return Err(
                KernelError::new(
                    "Intent adoption destination is not an unused exact conversation fork",
                ),
            );
        }
        if source_workspace_id != accepted.plan.workspace_id {
            return Err(KernelError::new("Intent adoption source workspace is out of scope"));
        }
        if source_snapshot_id != destination_snapshot_id {
            return Err(KernelError::new("Intent adoption tracked workspace bytes do not match"));
        }
        validate_runtime_identity("Intent adoption source turn id", source_turn_id.as_str())?;
        validate_runtime_identity(
            "Intent adoption authority event id",
            authority_event_id.as_str(),
        )?;
        Ok(
            IntentAdoptionAuthorityV1 {
                source_session_id: source.session_scope_id.duplicate(),
                destination_session_id: destination.session_scope_id.duplicate(),
                source_plan_digest: accepted.plan.plan_digest.duplicate(),
                source_workspace_id,
                destination_workspace_id,
                source_snapshot_id,
                destination_snapshot_id,
                branch_lineage_digest: source_branch_lineage_digest,
                source_turn_id,
                authority_event_id,
                new_stack_id,
            },
        )
    }
}

// Appending.

/// Whether a plan may follow the latest one.
pub open spec fn successor_append(
    p: IntentStackProjectionV1View,
    a: IntentPlanAdmissionV1View,
) -> Result<bool, Seq<char>> {
    if p.pending_task_acceptance is Some {
        Err("an incomplete task-bound IntentPlan admission requires recovery"@)
    } else if latest_accepted(p) is None {
        Err("an IntentPlan successor requires an accepted predecessor"@)
    } else if a.plan.stack_version != next_accepted(p.accepted_plans) || a.plan.stack_version
        != next_recorded(p.recorded_plans) {
        Err("an IntentPlan successor must use the next stack version"@)
    } else {
        Ok(true)
    }
}

/// Whether the admission of a successor is still to be appended to a stream.
pub open spec fn successor_needed(
    records: Seq<SessionStreamRecordView>,
    a: IntentPlanAdmissionV1View,
    task_plan: Option<TaskPlanEntryView>,
) -> Result<bool, Seq<char>> {
    match stack_of(records) {
        Err(m) => Err(m),
        Ok(p) => match task_plan {
            None => if exact_admission(p, a, None) {
                Ok(false)
            } else {
                successor_append(p, a)
            },
            Some(t) => match durable_task_plan_of(records, task_binding(t)) {
                Err(m) => Err(m),
                Ok(found) => if exact_admission(p, a, Some(task_binding(t))) {
                    match found {
                        None => Err("accepted IntentPlan is missing its durable TaskPlan"@),
                        Some(x) => if x != t {
                            Err("durable TaskPlan conflicts with the accepted IntentPlan binding"@)
                        } else {
                            Ok(false)
                        },
                    }
                } else if found is Some {
                    Err("TaskPlan version already exists without the requested IntentPlan"@)
                } else {
                    successor_append(p, a)
                },
            },
        },
    }
}

fn may_follow(p: &IntentStackProjectionV1, admission: &IntentPlanAdmissionV1) -> (r: Result<
    bool,
    KernelError,
>)
    ensures
        outcome(r) == successor_append(p.deep_view(), admission.deep_view()),
{
    if p.has_incomplete_task_acceptance() {
        return Err(
            KernelError::new("an incomplete task-bound IntentPlan admission requires recovery"),
        );
    }
    if p.latest_accepted_plan().is_none() {
        return Err(KernelError::new("an IntentPlan successor requires an accepted predecessor"));
    }
    if !p.is_next_version(admission.plan().stack_version.get()) {
        return Err(KernelError::new("an IntentPlan successor must use the next stack version"));
    }
    Ok(true)
}

/// Tells whether the admission of a successor is still to be appended to a stream. A writer calls it on
/// the records at the moment of the append.
pub fn successor_append_needed(
    records: &Vec<SessionStreamRecord>,
    admission: &IntentPlanAdmissionV1,
    task_plan: &Option<TaskPlanEntry>,
) -> (r: Result<bool, KernelError>)
    ensures
        outcome(r) == successor_needed(
            records.deep_view(),
            admission.deep_view(),
            task_plan.deep_view(),
        ),
{
    let p = IntentStackProjectionV1::from_records(records)?;
    match task_plan {
        None => {
            let none: Option<IntentTaskPlanBindingV1> = None;
            if p.is_exact_admission(admission, &none) {
                return Ok(false);
            }
            may_follow(&p, admission)
        },
        Some(t) => {
            let binding = IntentTaskPlanBindingV1 {
                task_id: t.task_id.duplicate(),
                task_plan_version: t.plan_version,
            };
            let found = durable_task_plan(records, &binding)?;
            let wanted = Some(binding);
            if p.is_exact_admission(admission, &wanted) {
                return match &found {
                    None => Err(
                        KernelError::new("accepted IntentPlan is missing its durable TaskPlan"),
                    ),
                    Some(x) => if x.same(t) {
                        Ok(false)
                    } else {
                        Err(
                            KernelError::new(
                                "durable TaskPlan conflicts with the accepted IntentPlan binding",
                            ),
                        )
                    },
                };
            }
            if found.is_some() {
                return Err(
                    KernelError::new(
                        "TaskPlan version already exists without the requested IntentPlan",
                    ),
                );
            }
            may_follow(&p, admission)
        },
    }
}

/// The checks of the task plan that comes with a successor.
pub open spec fn successor_task_verdict(
    a: IntentPlanAdmissionV1View,
    task_plan: Option<TaskPlanEntryView>,
) -> Verdict {
    match task_plan {
        None => Ok(()),
        Some(t) => chain(
            check(
                t.status == TaskPlanStatus::Accepted,
                "IntentPlan task admission requires an accepted TaskPlan"@,
            ),
            chain(
                task_graph_verdict(t),
                first_failure(steps_refs_verdicts(plan_refs(a.plan), t.steps)),
            ),
        ),
    }
}

/// The binding to a task plan, where there is one.
pub open spec fn optional_binding(task_plan: Option<TaskPlanEntryView>) -> Option<
    IntentTaskPlanBindingV1View,
> {
    match task_plan {
        None => None,
        Some(t) => Some(task_binding(t)),
    }
}

/// What is to be appended for a successor.
pub open spec fn successor_admission_append(
    session: SessionView,
    a: IntentPlanAdmissionV1View,
    task_plan: Option<TaskPlanEntryView>,
) -> Result<IntentAppendV1View, Seq<char>> {
    match chain(
        admission_session_verdict(session, a),
        chain(
            successor_task_verdict(a, task_plan),
            chain(
                successor_events_verdict(a, optional_binding(task_plan)),
                check(
                    session.durable_records is Some,
                    "IntentPlan admission requires a durable session store"@,
                ),
            ),
        ),
    ) {
        Err(m) => Err(m),
        Ok(_) => match successor_needed(session.durable_records->0, a, task_plan) {
            Err(m) => Err(m),
            Ok(appended) => Ok(
                IntentAppendV1View {
                    events: if appended {
                        successor_events(a, optional_binding(task_plan))
                    } else {
                        Seq::empty()
                    },
                    entries: match task_plan {
                        Some(t) => if appended {
                            seq![ControlEntryView::TaskPlan(t)]
                        } else {
                            Seq::empty()
                        },
                        None => Seq::empty(),
                    },
                    record_live: match task_plan {
                        Some(t) => appended || !live_has(session.tasks, t),
                        None => false,
                    },
                    outcome: write_outcome(a, appended),
                },
            ),
        },
    }
}

/// Decides what is to be appended for a plan that follows the latest one: the plan, its acceptance and,
/// last of all, its task plan where it has one. Where the stream holds exactly this admission already,
/// there is nothing to append.
#[verifier::rlimit(40)]
pub fn append_successor_intent_plan_admission(
    session: &Session,
    admission: &IntentPlanAdmissionV1,
    task_plan: Option<TaskPlanEntry>,
) -> (r: Result<IntentAppendV1, KernelError>)
    ensures
        outcome(r) == successor_admission_append(
            session.deep_view(),
            admission.deep_view(),
            task_plan.deep_view(),
        ),
{
    ensure_admission_matches_session(session, admission)?;
    let binding = match &task_plan {
        None => None,
        Some(t) => {
            if t.status != TaskPlanStatus::Accepted {
                return Err(
                    KernelError::new("IntentPlan task admission requires an accepted TaskPlan"),
                );
            }
            validate_task_graph(t)?;
            validate_task_plan_intent_refs(admission.plan(), &t.steps)?;
            Some(
                IntentTaskPlanBindingV1 {
                    task_id: t.task_id.duplicate(),
                    task_plan_version: t.plan_version,
                },
            )
        },
    };
    let durable = admission.durable_successor_events(binding)?;
    let records = match &session.durable_records {
        None => {
            return Err(KernelError::new("IntentPlan admission requires a durable session store"));
        },
        Some(records) => records,
    };
    let appended = successor_append_needed(records, admission, &task_plan)?;
    let record_live = match &task_plan {
        Some(t) => appended || !live_session_has_task_plan(session, t),
        None => false,
    };
    let none: Vec<IntentEventV1> = Vec::new();
    assert(none.deep_view() =~= Seq::empty());
    let events = if appended {
        durable
    } else {
        none
    };
    let mut entries: Vec<ControlEntry> = Vec::new();
    assert(entries.deep_view() =~= Seq::empty());
    if let Some(t) = task_plan {
        if appended {
            let ghost view = t.deep_view();
            entries.push(ControlEntry::TaskPlan(t));
            assert(entries.deep_view() =~= seq![ControlEntryView::TaskPlan(view)]);
        }
    }
    Ok(IntentAppendV1 { events, entries, record_live, outcome: outcome_of(admission, appended) })
}

/// Whether a plan that was taken over is still to be appended to the stream of a forked session.
pub open spec fn adopted_needed(
    records: Seq<SessionStreamRecordView>,
    a: IntentPlanAdmissionV1View,
    source_session_id: Seq<char>,
) -> Result<bool, Seq<char>> {
    match stack_of(records) {
        Err(m) => Err(m),
        Ok(p) => if p.fork_source_session_id != Some(source_session_id) {
            Err("Intent adoption durable provenance changed"@)
        } else if exact_admission(p, a, None) {
            Ok(false)
        } else {
            initial_append(p, a)
        },
    }
}

/// What is to be appended for a plan that was taken over.
pub open spec fn adopted_admission_append(
    session: SessionView,
    a: IntentPlanAdmissionV1View,
    source_session_id: Seq<char>,
) -> Result<IntentAppendV1View, Seq<char>> {
    match chain(
        admission_session_verdict(session, a),
        chain(
            admission_events_verdict(a, None),
            check(
                session.durable_records is Some,
                "IntentPlan admission requires a durable session store"@,
            ),
        ),
    ) {
        Err(m) => Err(m),
        Ok(_) => match adopted_needed(session.durable_records->0, a, source_session_id) {
            Err(m) => Err(m),
            Ok(appended) => Ok(
                IntentAppendV1View {
                    events: if appended {
                        admission_events(a, None)
                    } else {
                        Seq::empty()
                    },
                    entries: Seq::empty(),
                    record_live: false,
                    outcome: write_outcome(a, appended),
                },
            ),
        },
    }
}

/// Decides what is to be appended for a plan that a forked session takes over.
#[verifier::rlimit(40)]
pub(crate) fn append_adopted_intent_plan_admission(
    session: &Session,
    admission: &IntentPlanAdmissionV1,
    source_session_id: &String,
) -> (r: Result<IntentAppendV1, KernelError>)
    ensures
        outcome(r) == adopted_admission_append(
            session.deep_view(),
            admission.deep_view(),
            source_session_id@,
        ),
{
    ensure_admission_matches_session(session, admission)?;
    let durable = admission.durable_events(None)?;
    let records = match &session.durable_records {
        None => {
            return Err(KernelError::new("IntentPlan admission requires a durable session store"));
        },
        Some(records) => records,
    };
    let p = IntentStackProjectionV1::from_records(records)?;
    if !is_fork_of(&p, source_session_id) {
        return Err(KernelError::new("Intent adoption durable provenance changed"));
    }
    let unbound: Option<IntentTaskPlanBindingV1> = None;
    let appended = if p.is_exact_admission(admission, &unbound) {
        false
    } else {
        p.validate_initial_append(admission)?
    };
    let none: Vec<IntentEventV1> = Vec::new();
    assert(none.deep_view() =~= Seq::empty());
    let events = if appended {
        durable
    } else {
        none
    };
    let entries: Vec<ControlEntry> = Vec::new();
    assert(entries.deep_view() =~= Seq::empty());
    Ok(
        IntentAppendV1 {
            events,
            entries,
            record_live: false,
            outcome: outcome_of(admission, appended),
        },
    )
}

// The acceptance of a revision.

/// Where a revised intent comes from: the turn of the revision, in the manner of its predecessor. What
/// comes from a trusted source cannot be revised in this way.
pub open spec fn revised_source(
    before: IntentSourceV1View,
    proposal: IntentRevisionProposalV1View,
) -> Option<IntentSourceV1View> {
    match before {
        IntentSourceV1View::UserTurn { .. } => Some(
            IntentSourceV1View::UserTurn { source_turn_id: proposal.source_turn_id },
        ),
        IntentSourceV1View::AcceptedSuggestion { .. } => Some(
            IntentSourceV1View::AcceptedSuggestion {
                source_turn_id: proposal.source_turn_id,
                proposal_digest: proposal.proposal_digest,
            },
        ),
        IntentSourceV1View::TrustedSource { .. } => None,
    }
}

/// The context of the plan that follows another.
pub open spec fn next_context(plan: IntentPlanV1View) -> IntentAdmissionContextV1View {
    IntentAdmissionContextV1View {
        stack_id: plan.stack_id,
        stack_version: next_number(plan.stack_version),
        workspace_id: plan.workspace_id,
        source_session_id: plan.source_session_id,
    }
}

/// The definition that a revision makes.
pub open spec fn revised_definition(
    plan: IntentPlanV1View,
    proposal: IntentRevisionProposalV1View,
    source: IntentSourceV1View,
) -> IntentDefinitionV1View {
    IntentDefinitionV1View {
        intent_ref: next_ref(proposal.target_intent_ref),
        title: proposal.title,
        statement: proposal.statement,
        acceptance_criteria: resolved_criteria(
            next_context(plan),
            proposal.target_intent_ref.intent_id,
            proposal.acceptance_criteria,
        ),
        depends_on: proposal.depends_on,
        source,
        supersedes: Some(proposal.target_intent_ref),
    }
}

/// The plan that a revision makes, before it has its digest: only the target is another.
pub open spec fn revised_plan(
    plan: IntentPlanV1View,
    proposal: IntentRevisionProposalV1View,
    place: int,
    source: IntentSourceV1View,
) -> IntentPlanV1View {
    plan_draft(
        next_context(plan),
        plan.kind,
        plan.intents.update(place, revised_definition(plan, proposal, source)),
    )
}

/// The latest accepted plan is exactly an admission, whatever task plan it is bound to.
pub open spec fn is_retry(p: IntentStackProjectionV1View, a: IntentPlanAdmissionV1View) -> bool {
    latest_accepted(p) matches Some(x) && x.plan == a.plan && x.acceptance_kind
        == a.acceptance_kind && x.source_turn_id == a.source_turn_id && x.acceptance_authority_id
        == a.acceptance_authority_id
}

/// The admission of a revision of a plan.
pub open spec fn revision_admission(
    plan: IntentPlanV1View,
    proposal: IntentRevisionProposalV1View,
    authority: IntentRevisionAuthorityV1View,
) -> Result<IntentPlanAdmissionV1View, Seq<char>> {
    match find_item(plan_refs(plan), proposal.target_intent_ref) {
        None => Err("Intent revision target is stale"@),
        Some(k) => match revised_ref(proposal.target_intent_ref) {
            Err(m) => Err(m),
            Ok(_) => match revised_source(plan.intents[k].source, proposal) {
                None => Err(
                    "trusted-spec revision requires content-bound spec decision authority"@,
                ),
                Some(source) => {
                    let draft = revised_plan(plan, proposal, k, source);
                    yields(
                        plan_shape_verdict(draft),
                        successor_admission(
                            sealed_plan(draft),
                            IntentAcceptanceKind::ExplicitUserConfirmation,
                            proposal.source_turn_id,
                            authority.authority_event_id,
                        ),
                    )
                },
            },
        },
    }
}

/// What is to be appended for an accepted revision.
pub open spec fn revision_acceptance(
    session: SessionView,
    workspace_id: Seq<char>,
    workspace_revision: Option<u64>,
    proposal: IntentRevisionProposalV1View,
    preview: IntentImpactPreviewV1View,
    authority: IntentRevisionAuthorityV1View,
    task_plan: Option<TaskPlanEntryView>,
) -> Result<IntentAppendV1View, Seq<char>> {
    match chain(
        revision_verdict(proposal),
        chain(
            impact_preview_verdict(preview),
            check(
                authority.source_turn_id == proposal.source_turn_id && authority.proposal_digest
                    == proposal.proposal_digest && authority.preview_digest
                    == preview.operation.preview_digest,
                "Intent revision authority does not match its proposal and preview"@,
            ),
        ),
    ) {
        Err(m) => Err(m),
        Ok(_) => match session.durable_records {
            None => Err("Intent impact requires a durable session"@),
            Some(records) => match stack_of(records) {
                Err(m) => Err(m),
                Ok(p) => match accepted_version(p, preview.operation.stack_version) {
                    None => Err("Intent revision predecessor plan is unavailable"@),
                    Some(accepted) => if accepted.plan.stack_id != preview.operation.stack_id {
                        Err("Intent revision preview belongs to another stack"@)
                    } else {
                        match revision_admission(accepted.plan, proposal, authority) {
                            Err(m) => Err(m),
                            Ok(a) => match if is_retry(p, a) {
                                Ok(preview)
                            } else {
                                revision_preview(
                                    session,
                                    workspace_id,
                                    workspace_revision,
                                    proposal,
                                )
                            } {
                                Err(m) => Err(m),
                                Ok(now) => if now != preview {
                                    Err("Intent revision impact changed before acceptance"@)
                                } else {
                                    successor_admission_append(session, a, task_plan)
                                },
                            },
                        }
                    },
                },
            },
        },
    }
}

fn find_target(plan: &IntentPlanV1, target: &IntentVersionRef) -> (r: Option<usize>)
    ensures
        match r {
            Some(k) => k < plan.intents.len() && find_item(
                plan_refs(plan.deep_view()),
                target.deep_view(),
            ) == Some(k as int),
            None => find_item(plan_refs(plan.deep_view()), target.deep_view()) is None,
        },
{
    let ghost refs = plan_refs(plan.deep_view());
    let mut found: Option<usize> = None;
    let mut i: usize = 0;
    assert(refs.take(0) =~= Seq::empty());
    while i < plan.intents.len()
        invariant
            i <= plan.intents.len(),
            refs == plan_refs(plan.deep_view()),
            match found {
                Some(k) => k < i && find_item(refs.take(i as int), target.deep_view()) == Some(
                    k as int,
                ),
                None => find_item(refs.take(i as int), target.deep_view()) is None,
            },
        decreases plan.intents.len() - i,
    {
        proof {
            assert(refs.take(i + 1).drop_last() =~= refs.take(i as int));
            assert(plan.deep_view().intents[i as int] == plan.intents@[i as int].deep_view());
            assert(refs.take(i + 1).last() == plan.intents@[i as int].intent_ref.deep_view());
        }
        if found.is_none() && plan.intents[i].intent_ref.same(target) {
            found = Some(i);
        }
        i = i + 1;
    }
    assert(refs.take(i as int) =~= refs);
    found
}

fn revise_source(before: &IntentSourceV1, proposal: &IntentRevisionProposalV1) -> (r: Option<
    IntentSourceV1,
>)
    ensures
        r.deep_view() == revised_source(before.deep_view(), proposal.deep_view()),
{
    match before {
        IntentSourceV1::UserTurn { .. } => Some(
            IntentSourceV1::UserTurn { source_turn_id: proposal.source_turn_id.duplicate() },
        ),
        IntentSourceV1::AcceptedSuggestion { .. } => Some(
            IntentSourceV1::AcceptedSuggestion {
                source_turn_id: proposal.source_turn_id.duplicate(),
                proposal_digest: proposal.proposal_digest.duplicate(),
            },
        ),
        IntentSourceV1::TrustedSource { .. } => None,
    }
}

#[verifier::rlimit(40)]
fn admit_revision(
    plan: &IntentPlanV1,
    proposal: &IntentRevisionProposalV1,
    authority: &IntentRevisionAuthorityV1,
) -> (r: Result<IntentPlanAdmissionV1, KernelError>)
    ensures
        outcome(r) == revision_admission(
            plan.deep_view(),
            proposal.deep_view(),
            authority.deep_view(),
        ),
{
    let k = match find_target(plan, &proposal.target_intent_ref) {
        None => {
            return Err(KernelError::new("Intent revision target is stale"));
        },
        Some(k) => k,
    };
    let intent_ref = proposal.replacement_ref()?;
    let version = IntentStackVersion::new(following(plan.stack_version.get()));
    assert(version is Ok);
    let context = IntentAdmissionContextV1 {
        stack_id: plan.stack_id.duplicate(),
        stack_version: version.unwrap(),
        workspace_id: plan.workspace_id.duplicate(),
        source_session_id: plan.source_session_id.duplicate(),
    };
    let criteria = resolve_criteria(
        &context,
        intent_ref.intent_id.as_str(),
        &proposal.acceptance_criteria,
    );
    assert(plan.deep_view().intents[k as int] == plan.intents@[k as int].deep_view());
    let source = match revise_source(&plan.intents[k].source, proposal) {
        None => {
            return Err(
                KernelError::new(
                    "trusted-spec revision requires content-bound spec decision authority",
                ),
            );
        },
        Some(source) => source,
    };
    let mut intents = plan.intents.duplicate();
    assert(intents.deep_view().len() == plan.intents.deep_view().len());
    let definition = IntentDefinitionV1 {
        intent_ref,
        title: proposal.title.duplicate(),
        statement: proposal.statement.duplicate(),
        acceptance_criteria: criteria,
        depends_on: proposal.depends_on.duplicate(),
        source,
        supersedes: Some(proposal.target_intent_ref.duplicate()),
    };
    let ghost had = intents;
    let ghost item = definition;
    intents.set(k, definition);
    proof {
        lemma_update_view(had, k as int, item, intents);
    }
    let draft = IntentPlanV1 {
        schema_version: INTENT_CONTRACT_SCHEMA_VERSION,
        stack_id: plan.stack_id.duplicate(),
        stack_version: context.stack_version,
        workspace_id: plan.workspace_id.duplicate(),
        source_session_id: plan.source_session_id.duplicate(),
        kind: plan.kind,
        intents,
        plan_digest: IntentDigest::zero(),
    };
    let sealed = seal_plan(draft)?;
    build_successor_admission(
        sealed,
        IntentAcceptanceKind::ExplicitUserConfirmation,
        proposal.source_turn_id.duplicate(),
        authority.authority_event_id.duplicate(),
    )
}

fn is_exact_retry(p: &IntentStackProjectionV1, admission: &IntentPlanAdmissionV1) -> (r: bool)
    ensures
        r == is_retry(p.deep_view(), admission.deep_view()),
{
    match p.latest_accepted_plan() {
        None => false,
        Some(x) => x.plan.same(admission.plan()) && x.acceptance_kind == admission.acceptance_kind()
            && same_text(x.source_turn_id.as_str(), admission.source_turn_id()) && same_text(
            x.acceptance_authority_id.as_str(),
            admission.acceptance_authority_id(),
        ),
    }
}

/// Accepts a revision as a new version of the plan, without a change of any file. The proposal, its
/// preview and the authority must belong together, and the preview must still hold; an exact retry
/// appends nothing.
#[verifier::rlimit(40)]
pub fn accept_intent_revision(
    session: &Session,
    workspace_id: &str,
    workspace_revision: Option<u64>,
    proposal: &IntentRevisionProposalV1,
    preview: &IntentImpactPreviewV1,
    authority: &IntentRevisionAuthorityV1,
    task_plan: Option<TaskPlanEntry>,
) -> (r: Result<IntentAppendV1, KernelError>)
    ensures
        outcome(r) == revision_acceptance(
            session.deep_view(),
            workspace_id@,
            workspace_revision,
            proposal.deep_view(),
            preview.deep_view(),
            authority.deep_view(),
            task_plan.deep_view(),
        ),
{
    proposal.validate_contract()?;
    preview.validate_contract()?;
    if authority.source_turn_id != proposal.source_turn_id || !authority.proposal_digest.same(
        &proposal.proposal_digest,
    ) || !authority.preview_digest.same(&preview.operation.preview_digest) {
        return Err(
            KernelError::new("Intent revision authority does not match its proposal and preview"),
        );
    }
    let records = match &session.durable_records {
        None => {
            return Err(KernelError::new("Intent impact requires a durable session"));
        },
        Some(records) => records,
    };
    let p = IntentStackProjectionV1::from_records(records)?;
    let accepted = match p.accepted_plan(preview.operation.stack_version) {
        None => {
            return Err(KernelError::new("Intent revision predecessor plan is unavailable"));
        },
        Some(accepted) => accepted,
    };
    if !accepted.plan.stack_id.same(&preview.operation.stack_id) {
        return Err(KernelError::new("Intent revision preview belongs to another stack"));
    }
    let admission = admit_revision(&accepted.plan, proposal, authority)?;
    if !is_exact_retry(&p, &admission) {
        let now = preview_intent_revision(session, workspace_id, workspace_revision, proposal)?;
        if !now.same(preview) {
            return Err(KernelError::new("Intent revision impact changed before acceptance"));
        }
    }
    append_successor_intent_plan_admission(session, &admission, task_plan)
}

// Adoption.

/// The intents of a plan without their history.
pub open spec fn without_history(intents: Seq<IntentDefinitionV1View>) -> Seq<
    IntentDefinitionV1View,
> {
    Seq::new(intents.len(), |i: int| IntentDefinitionV1View { supersedes: None, ..intents[i] })
}

/// The plan that a forked session takes over, before it has its digest.
pub open spec fn adopted_plan(
    plan: IntentPlanV1View,
    new_stack_id: Seq<char>,
    workspace_id: Seq<char>,
    session_id: Seq<char>,
) -> IntentPlanV1View {
    plan_draft(
        IntentAdmissionContextV1View {
            stack_id: new_stack_id,
            stack_version: 1,
            workspace_id,
            source_session_id: session_id,
        },
        plan.kind,
        without_history(plan.intents),
    )
}

/// The checks that what an authority was given for still holds.
pub open spec fn adoption_verdict(
    authority: IntentAdoptionAuthorityV1View,
    plan: IntentPlanV1View,
    fork_source: Option<Seq<char>>,
    source_workspace_id: Seq<char>,
    destination_workspace_id: Seq<char>,
    source_snapshot_id: Seq<char>,
    destination_snapshot_id: Seq<char>,
    source_branch: Seq<char>,
    destination_branch: Seq<char>,
) -> Verdict {
    chain(
        check(
            fork_source == Some(authority.source_session_id) && plan.plan_digest
                == authority.source_plan_digest,
            "Intent adoption durable provenance changed"@,
        ),
        chain(
            runtime_identity_verdict("current source Intent branch lineage digest"@, source_branch),
            chain(
                runtime_identity_verdict(
                    "current destination Intent branch lineage digest"@,
                    destination_branch,
                ),
                check(
                    source_workspace_id == authority.source_workspace_id
                        && destination_workspace_id == authority.destination_workspace_id
                        && source_snapshot_id == authority.source_snapshot_id
                        && destination_snapshot_id == authority.destination_snapshot_id
                        && source_branch == authority.branch_lineage_digest && destination_branch
                        == authority.branch_lineage_digest,
                    "Intent adoption workspace, branch, or snapshot proof changed"@,
                ),
            ),
        ),
    )
}

/// What is to be appended for a plan that a forked session takes over.
pub open spec fn adoption(
    source: SessionView,
    destination: SessionView,
    source_workspace_id: Seq<char>,
    destination_workspace_id: Seq<char>,
    source_snapshot_id: Seq<char>,
    destination_snapshot_id: Seq<char>,
    source_branch: Seq<char>,
    destination_branch: Seq<char>,
    authority: IntentAdoptionAuthorityV1View,
) -> Result<IntentAppendV1View, Seq<char>> {
    if authority.source_session_id != source.session_scope_id || authority.destination_session_id
        != destination.session_scope_id {
        Err("Intent adoption authority belongs to another session pair"@)
    } else {
        match session_stack(source) {
            Err(m) => Err(m),
            Ok(s) => match latest_accepted(s) {
                None => Err("Intent adoption source has no accepted plan"@),
                Some(accepted) => match session_stack(destination) {
                    Err(m) => Err(m),
                    Ok(d) => match adoption_verdict(
                        authority,
                        accepted.plan,
                        d.fork_source_session_id,
                        source_workspace_id,
                        destination_workspace_id,
                        source_snapshot_id,
                        destination_snapshot_id,
                        source_branch,
                        destination_branch,
                    ) {
                        Err(m) => Err(m),
                        Ok(_) => {
                            let draft = adopted_plan(
                                accepted.plan,
                                authority.new_stack_id,
                                destination_workspace_id,
                                destination.session_scope_id,
                            );
                            let a = successor_admission(
                                sealed_plan(draft),
                                IntentAcceptanceKind::ExplicitUserConfirmation,
                                authority.source_turn_id,
                                authority.authority_event_id,
                            );
                            match plan_shape_verdict(draft) {
                                Err(m) => Err(m),
                                Ok(_) => if latest_accepted(d) is Some && !exact_admission(
                                    d,
                                    a,
                                    None,
                                ) {
                                    Err(
                                        "Intent adoption destination already contains another accepted plan"@,
                                    )
                                } else {
                                    adopted_admission_append(
                                        destination,
                                        a,
                                        authority.source_session_id,
                                    )
                                },
                            }
                        },
                    },
                },
            },
        }
    }
}

fn drop_history(intents: &Vec<IntentDefinitionV1>) -> (r: Vec<IntentDefinitionV1>)
    ensures
        r.deep_view() == without_history(intents.deep_view()),
{
    let ghost all = without_history(intents.deep_view());
    let mut r: Vec<IntentDefinitionV1> = Vec::new();
    let mut i: usize = 0;
    while i < intents.len()
        invariant
            i <= intents.len(),
            all == without_history(intents.deep_view()),
            r.deep_view() =~= all.take(i as int),
        decreases intents.len() - i,
    {
        assert(intents.deep_view()[i as int] == intents@[i as int].deep_view());
        let mut item = intents[i].duplicate();
        item.supersedes = None;
        assert(all[i as int] == item.deep_view());
        let ghost had = r;
        let ghost pushed = item;
        r.push(item);
        proof {
            lemma_push_view(had, pushed, r);
        }
        i = i + 1;
    }
    assert(r.deep_view() =~= all);
    r
}

fn validate_adoption(
    authority: &IntentAdoptionAuthorityV1,
    plan: &IntentPlanV1,
    to: &IntentStackProjectionV1,
    source_workspace_id: &str,
    destination_workspace_id: &str,
    source_snapshot_id: &str,
    destination_snapshot_id: &str,
    source_branch: &str,
    destination_branch: &str,
) -> (r: Result<(), KernelError>)
    ensures
        verdict(r) == adoption_verdict(
            authority.deep_view(),
            plan.deep_view(),
            to.deep_view().fork_source_session_id,
            source_workspace_id@,
            destination_workspace_id@,
            source_snapshot_id@,
            destination_snapshot_id@,
            source_branch@,
            destination_branch@,
        ),
{
    if !is_fork_of(to, &authority.source_session_id) || !plan.plan_digest.same(
        &authority.source_plan_digest,
    ) {
        return reject("Intent adoption durable provenance changed");
    }
    validate_runtime_identity("current source Intent branch lineage digest", source_branch)?;
    validate_runtime_identity(
        "current destination Intent branch lineage digest",
        destination_branch,
    )?;
    if !same_text(source_workspace_id, authority.source_workspace_id.as_str()) || !same_text(
        destination_workspace_id,
        authority.destination_workspace_id.as_str(),
    ) || !same_text(source_snapshot_id, authority.source_snapshot_id.as_str()) || !same_text(
        destination_snapshot_id,
        authority.destination_snapshot_id.as_str(),
    ) || !same_text(source_branch, authority.branch_lineage_digest.as_str()) || !same_text(
        destination_branch,
        authority.branch_lineage_digest.as_str(),
    ) {
        return reject("Intent adoption workspace, branch, or snapshot proof changed");
    }
    Ok(())
}

/// Takes the plan of the session that a session was forked from over into a new stack of the forked
/// session. Everything that the authority was given for must still hold; an exact retry appends
/// nothing.
#[verifier::rlimit(60)]
pub fn adopt_forked_intent_stack(
    source: &Session,
    destination: &Session,
    source_workspace_id: &str,
    destination_workspace_id: String,
    source_snapshot_id: &str,
    destination_snapshot_id: &str,
    source_branch_lineage_digest: &str,
    destination_branch_lineage_digest: &str,
    authority: &IntentAdoptionAuthorityV1,
) -> (r: Result<IntentAppendV1, KernelError>)
    ensures
        outcome(r) == adoption(
            source.deep_view(),
            destination.deep_view(),
            source_workspace_id@,
            destination_workspace_id@,
            source_snapshot_id@,
            destination_snapshot_id@,
            source_branch_lineage_digest@,
            destination_branch_lineage_digest@,
            authority.deep_view(),
        ),
{
    if authority.source_session_id != source.session_scope_id || authority.destination_session_id
        != destination.session_scope_id {
        return Err(
            KernelError::new("Intent adoption authority belongs to another session pair"),
        );
    }
    let from = source.intent_stack_projection()?;
    let accepted = match from.latest_accepted_plan() {
        None => {
            return Err(KernelError::new("Intent adoption source has no accepted plan"));
        },
        Some(accepted) => accepted,
    };
    let to = destination.intent_stack_projection()?;
    validate_adoption(
        authority,
        &accepted.plan,
        &to,
        source_workspace_id,
        destination_workspace_id.as_str(),
        source_snapshot_id,
        destination_snapshot_id,
        source_branch_lineage_digest,
        destination_branch_lineage_digest,
    )?;
    let version = IntentStackVersion::new(1);
    assert(version is Ok);
    let draft = IntentPlanV1 {
        schema_version: INTENT_CONTRACT_SCHEMA_VERSION,
        stack_id: authority.new_stack_id.duplicate(),
        stack_version: version.unwrap(),
        workspace_id: destination_workspace_id,
        source_session_id: destination.session_scope_id.duplicate(),
        kind: accepted.plan.kind,
        intents: drop_history(&accepted.plan.intents),
        plan_digest: IntentDigest::zero(),
    };
    let sealed = seal_plan(draft)?;
    let admission = build_successor_admission(
        sealed,
        IntentAcceptanceKind::ExplicitUserConfirmation,
        authority.source_turn_id.duplicate(),
        authority.authority_event_id.duplicate(),
    )?;
    let unbound: Option<IntentTaskPlanBindingV1> = None;
    if to.latest_accepted_plan().is_some() && !to.is_exact_admission(&admission, &unbound) {
        return Err(
            KernelError::new(
                "Intent adoption destination already contains another accepted plan",
            ),
        );
    }
    append_adopted_intent_plan_admission(destination, &admission, &authority.source_session_id)
}

// Laws.

/// A revision changes its target alone: every other intent stays as it is, and the target goes on as its
/// next version, which names what it supersedes.
pub proof fn law_revisions_change_only_their_target(
    plan: IntentPlanV1View,
    proposal: IntentRevisionProposalV1View,
    authority: IntentRevisionAuthorityV1View,
)
    ensures
        revision_admission(plan, proposal, authority) matches Ok(a) ==> {
            &&& is_revision_of(plan, a.plan, proposal.source_turn_id)
            &&& a.plan.stack_version == next_number(plan.stack_version)
            &&& a.plan.stack_id == plan.stack_id
            &&& forall|i: int|
                0 <= i < plan.intents.len() && plan.intents[i].intent_ref
                    != proposal.target_intent_ref ==> #[trigger] a.plan.intents[i]
                    == plan.intents[i]
        },
{
    if let Ok(a) = revision_admission(plan, proposal, authority) {
        let refs = plan_refs(plan);
        lemma_find_item(refs, proposal.target_intent_ref);
        let k = find_item(refs, proposal.target_intent_ref)->0;
        assert(refs[k] == plan.intents[k].intent_ref);
        assert forall|i: int| 0 <= i < a.plan.intents.len() implies goes_on(
            plan.intents[i],
            #[trigger] a.plan.intents[i],
            proposal.source_turn_id,
        ) by {
            if i != k {
                assert(a.plan.intents[i] == plan.intents[i]);
            }
        }
    }
}

/// What is appended for a revision without a task plan is what a replay shows: the plan becomes the
/// latest accepted one, and those before it stay.
#[verifier::rlimit(60)]
pub proof fn law_accepted_revisions_are_replayed(
    records: Seq<SessionStreamRecordView>,
    p: IntentStackProjectionV1View,
    proposal: IntentRevisionProposalV1View,
    authority: IntentRevisionAuthorityV1View,
    a: IntentPlanAdmissionV1View,
    recorded: SessionStreamRecordView,
    accepted: SessionStreamRecordView,
)
    requires
        stack_of(records) == Ok::<IntentStackProjectionV1View, Seq<char>>(p),
        sound_stack(p),
        p.recorded_plans.len() < u64::MAX,
        latest_accepted(p) matches Some(x) && revision_admission(x.plan, proposal, authority) == Ok::<
            IntentPlanAdmissionV1View,
            Seq<char>,
        >(a),
        successor_append(p, a) is Ok,
        successor_events_verdict(a, None) is Ok,
        plan_verdict(a.plan) is Ok,
        admission_identity_verdict("intent acceptance source turn id"@, a.source_turn_id) is Ok,
        p.header matches Some(h) && h.source_session_id == a.plan.source_session_id,
        recorded.session_id == a.plan.source_session_id,
        recorded.body == RecordBodyView::Intent(plan_recorded_event(a.plan)),
        accepted.body == RecordBodyView::Intent(plan_accepted_event(a, None)),
        p.cursor matches Some(c) ==> c.stream_sequence < recorded.stream_sequence,
        recorded.stream_sequence < accepted.stream_sequence,
    ensures
        stack_of(records.push(recorded).push(accepted)) matches Ok(q) && q.accepted_plans
            == p.accepted_plans.push(
            accepted_state(
                a.plan,
                a.acceptance_kind,
                a.source_turn_id,
                a.acceptance_authority_id,
                None,
                accepted,
            ),
        ),
{
    let last = p.accepted_plans.last();
    let n = p.accepted_plans.len() - 1;
    assert(p.accepted_plans[n].plan == p.recorded_plans[n]);
    assert(p.recorded_plans[n].stack_version == n + 1);
    law_revisions_change_only_their_target(last.plan, proposal, authority);
    let one = records.push(recorded);
    let two = one.push(accepted);
    assert(one.drop_last() =~= records);
    assert(two.drop_last() =~= one);
    let m = p.recorded_plans.len();
    assert(p.recorded_plans[m - 1].stack_version == m);
    assert(a.plan.stack_version == m + 1);
    lemma_no_later_version(p.recorded_plans, a.plan.stack_version);
    let q = stack_of(one)->Ok_0;
    assert(stack_of(one) == after_record(p, recorded));
    assert(after_intent_event(p, recorded, plan_recorded_event(a.plan)) is Ok);
    assert(q.recorded_plans == p.recorded_plans.push(a.plan));
    assert(q.recorded_plans.drop_last() =~= p.recorded_plans);
    assert(recorded_place(q.recorded_plans, a.plan.stack_version) == Some(m as int));
    lemma_no_later_acceptance(p, a.plan.stack_version);
    assert(is_confirmed_successor(
        q,
        a.plan,
        a.acceptance_kind,
        a.source_turn_id,
        false,
    ));
}

proof fn lemma_no_later_version(plans: Seq<IntentPlanV1View>, version: u64)
    requires
        forall|i: int| 0 <= i < plans.len() ==> (#[trigger] plans[i]).stack_version == i + 1,
        version > plans.len(),
    ensures
        recorded_place(plans, version) is None,
    decreases plans.len(),
{
    if plans.len() > 0 {
        let rest = plans.drop_last();
        assert forall|i: int| 0 <= i < rest.len() implies (#[trigger] rest[i]).stack_version == i
            + 1 by {
            assert(rest[i] == plans[i]);
        }
        lemma_no_later_version(rest, version);
        assert(plans.last() == plans[plans.len() - 1]);
    }
}

proof fn lemma_no_later_acceptance(p: IntentStackProjectionV1View, version: u64)
    requires
        sound_stack(p),
        version > p.accepted_plans.len(),
    ensures
        accepted_place(p.accepted_plans, version) is None,
{
    lemma_accepted_place(p.accepted_plans, version);
    if let Some(i) = accepted_place(p.accepted_plans, version) {
        assert(p.accepted_plans[i].plan == p.recorded_plans[i]);
        assert(p.recorded_plans[i].stack_version == i + 1);
    }
}

/// A plan that was taken over has the intents of its source without their history, in a new stack of
/// the forked session, and nothing is appended but the stack, the plan and its acceptance.
pub proof fn law_adoption_copies_only_the_plan(
    source: SessionView,
    destination: SessionView,
    source_workspace_id: Seq<char>,
    destination_workspace_id: Seq<char>,
    source_snapshot_id: Seq<char>,
    destination_snapshot_id: Seq<char>,
    source_branch: Seq<char>,
    destination_branch: Seq<char>,
    authority: IntentAdoptionAuthorityV1View,
)
    ensures
        adoption(
            source,
            destination,
            source_workspace_id,
            destination_workspace_id,
            source_snapshot_id,
            destination_snapshot_id,
            source_branch,
            destination_branch,
            authority,
        ) matches Ok(append) ==> {
            &&& append.entries.len() == 0
            &&& append.outcome.stack_version == 1
            &&& append.outcome.stack_id == authority.new_stack_id
            &&& append.events.len() == 0 || (append.events.len() == 3
                && append.events[0] is StackCreated && append.events[2] is PlanAccepted && (
            append.events[1] matches IntentEventV1View::PlanRecorded { plan, .. }
                && plan.source_session_id == destination.session_scope_id && plan.workspace_id
                == destination_workspace_id && is_without_history(plan)))
        },
{
    if let Ok(s) = session_stack(source) {
        if let Some(accepted) = latest_accepted(s) {
            let draft = adopted_plan(
                accepted.plan,
                authority.new_stack_id,
                destination_workspace_id,
                destination.session_scope_id,
            );
            assert forall|i: int| 0 <= i < draft.intents.len() implies (
            #[trigger] draft.intents[i]).supersedes is None by {}
            assert(is_without_history(sealed_plan(draft)));
        }
    }
}

} // verus!
