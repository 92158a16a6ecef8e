//! The intent stack of a session: what its durable stream says of recorded and accepted plans, what
//! the public sees of it, and when an admission may be appended.

use vstd::prelude::*;

use crate::intent::{
    IntentAcceptanceKind, IntentApplicationState, IntentAuthorityState, IntentDefinitionState,
    IntentDefinitionV1, IntentDefinitionV1View, IntentDigest, IntentEventV1, IntentEventV1View,
    IntentPlanKind, IntentPlanProposalV1View, IntentPlanV1, IntentPlanV1View, IntentSourceV1,
    IntentSourceV1View, IntentStackId, IntentStackVersion, IntentTaskPlanBindingV1,
    IntentTaskPlanBindingV1View, IntentVersionRef, IntentVersionRefView, PublicIntentSourceV1,
    PublicIntentSourceV1View, PublicIntentStackStateV1, PublicIntentStackStateV1View,
    PublicIntentStackV1, PublicIntentStackV1View, PublicIntentV1, PublicIntentV1View,
    INTENT_PUBLIC_DTO_SCHEMA_VERSION,
};
use crate::intent_admission::{
    admission_events, admission_events_verdict, admission_identity_verdict,
    law_admitted_plans_are_valid, plan_accepted_event, plan_recorded_event, plan_refs,
    root_admission, stack_created_event, steps_refs_verdicts, suggested_admission,
    suggested_definitions, task_graph_verdict, validate_admission_identity, validate_task_graph,
    validate_task_plan_intent_refs, IntentAcceptanceAuthorityV1View, IntentPlanAdmissionV1,
    IntentPlanAdmissionV1View,
};
use crate::intent_contract::{plan_shape_verdict, plan_verdict};
use crate::intent_event_contract::{event_name, event_payload_verdict, event_verdict};
use crate::intent_lineage::{
    lineage_of, lineage_summary, IntentLineageProjectionV1, IntentLineageProjectionV1View,
};
use crate::intent_state::{
    AcceptedIntentPlanProjectionV1, AcceptedIntentPlanProjectionV1View,
    IntentAdmissionContextV1View, IntentAdmissionWriteOutcomeV1, IntentAdmissionWriteOutcomeV1View,
    IntentLineageSummaryV1, IntentLineageSummaryV1View, IntentStackHeaderV1,
    IntentStackHeaderV1View, PendingTaskIntentAcceptanceV1, PendingTaskIntentAcceptanceV1View,
    UserDeclaredIntentV1View,
};
use crate::lineage_facts::proposal;
use crate::records::{
    ControlEntry, ControlEntryView, ProjectionCursor, ProjectionCursorView, RecordBody,
    RecordBodyView, Session, SessionStreamRecord, SessionStreamRecordView, SessionView,
    TaskPlanEntry, TaskPlanEntryView, TaskPlanState, TaskPlanStateView, TaskPlanStatus, TaskState,
    TaskStateProjectionView,
};
use crate::text::{joined, same_text};
use crate::value::{
    chain, check, find_key, first_failure, following, lemma_all_pass, lemma_failures_begin,
    lemma_failures_end, lemma_failures_step, lemma_push_view, next_number, outcome, position_by_key,
    reject, verdict, KernelError, Value, Verdict,
};

verus! {

/// Version of the schema of the admission projection.
pub const INTENT_ADMISSION_PROJECTION_SCHEMA_VERSION: u16 = 1;

/// What a session without intent history shows.
pub const INTENT_HISTORY_UNAVAILABLE_MESSAGE: &'static str =
    "Intent history is unavailable for this session.";

/// What the durable stream says of the plans of a stack: recorded and accepted plans in the order
/// of their versions.
#[derive(Debug, Clone, PartialEq, Eq)]
pub struct IntentStackProjectionV1 {
    cursor: Option<ProjectionCursor>,
    header: Option<IntentStackHeaderV1>,
    recorded_plans: Vec<IntentPlanV1>,
    accepted_plans: Vec<AcceptedIntentPlanProjectionV1>,
    pending_task_acceptance: Option<PendingTaskIntentAcceptanceV1>,
    fork_source_session_id: Option<String>,
}

/// What a [`IntentStackProjectionV1`] holds.
#[verifier::ext_equal]
pub struct IntentStackProjectionV1View {
    pub cursor: Option<ProjectionCursorView>,
    pub header: Option<IntentStackHeaderV1View>,
    pub recorded_plans: Seq<IntentPlanV1View>,
    pub accepted_plans: Seq<AcceptedIntentPlanProjectionV1View>,
    pub pending_task_acceptance: Option<PendingTaskIntentAcceptanceV1View>,
    pub fork_source_session_id: Option<Seq<char>>,
}

impl DeepView for IntentStackProjectionV1 {
    type V = IntentStackProjectionV1View;

    closed spec fn deep_view(&self) -> IntentStackProjectionV1View {
        IntentStackProjectionV1View {
            cursor: self.cursor.deep_view(),
            header: self.header.deep_view(),
            recorded_plans: self.recorded_plans.deep_view(),
            accepted_plans: self.accepted_plans.deep_view(),
            pending_task_acceptance: self.pending_task_acceptance.deep_view(),
            fork_source_session_id: self.fork_source_session_id.deep_view(),
        }
    }
}

impl Value for IntentStackProjectionV1 {
    fn same(&self, other: &Self) -> (r: bool) {
        self.cursor.same(&other.cursor)
            && self.header.same(&other.header)
            && self.recorded_plans.same(&other.recorded_plans)
            && self.accepted_plans.same(&other.accepted_plans)
            && self.pending_task_acceptance.same(&other.pending_task_acceptance)
            && self.fork_source_session_id.same(&other.fork_source_session_id)
    }

    fn duplicate(&self) -> (r: Self) {
        IntentStackProjectionV1 {
            cursor: self.cursor.duplicate(),
            header: self.header.duplicate(),
            recorded_plans: self.recorded_plans.duplicate(),
            accepted_plans: self.accepted_plans.duplicate(),
            pending_task_acceptance: self.pending_task_acceptance.duplicate(),
            fork_source_session_id: self.fork_source_session_id.duplicate(),
        }
    }
}

/// What is to be appended to a durable stream in one batch, and what the writer then reports.
/// `record_live` asks for the entries to be taken into the live session too.
#[derive(Debug, Clone, PartialEq, Eq)]
pub struct IntentAppendV1 {
    pub events: Vec<IntentEventV1>,
    pub entries: Vec<ControlEntry>,
    pub record_live: bool,
    pub outcome: IntentAdmissionWriteOutcomeV1,
}

/// What a [`IntentAppendV1`] holds.
#[verifier::ext_equal]
pub struct IntentAppendV1View {
    pub events: Seq<IntentEventV1View>,
    pub entries: Seq<ControlEntryView>,
    pub record_live: bool,
    pub outcome: IntentAdmissionWriteOutcomeV1View,
}

impl DeepView for IntentAppendV1 {
    type V = IntentAppendV1View;

    open spec fn deep_view(&self) -> IntentAppendV1View {
        IntentAppendV1View {
            events: self.events.deep_view(),
            entries: self.entries.deep_view(),
            record_live: self.record_live.deep_view(),
            outcome: self.outcome.deep_view(),
        }
    }
}

impl Value for IntentAppendV1 {
    fn same(&self, other: &Self) -> (r: bool) {
        self.events.same(&other.events)
            && self.entries.same(&other.entries)
            && self.record_live.same(&other.record_live)
            && self.outcome.same(&other.outcome)
    }

    fn duplicate(&self) -> (r: Self) {
        IntentAppendV1 {
            events: self.events.duplicate(),
            entries: self.entries.duplicate(),
            record_live: self.record_live.duplicate(),
            outcome: self.outcome.duplicate(),
        }
    }
}

/// The projection before the first record.
pub open spec fn empty_stack() -> IntentStackProjectionV1View {
    IntentStackProjectionV1View {
        cursor: None,
        header: None,
        recorded_plans: Seq::empty(),
        accepted_plans: Seq::empty(),
        pending_task_acceptance: None,
        fork_source_session_id: None,
    }
}

impl Default for IntentStackProjectionV1 {
    fn default() -> (r: Self)
        ensures
            r.deep_view() == empty_stack(),
    {
        let r = IntentStackProjectionV1 {
            cursor: None,
            header: None,
            recorded_plans: Vec::new(),
            accepted_plans: Vec::new(),
            pending_task_acceptance: None,
            fork_source_session_id: None,
        };
        assert(r.deep_view().recorded_plans =~= Seq::empty());
        assert(r.deep_view().accepted_plans =~= Seq::empty());
        r
    }
}

/// Where the plan of a version stands among recorded plans.
pub open spec fn recorded_place(plans: Seq<IntentPlanV1View>, version: u64) -> Option<int>
    decreases plans.len(),
{
    if plans.len() == 0 {
        None
    } else {
        match recorded_place(plans.drop_last(), version) {
            Some(i) => Some(i),
            None => if plans.last().stack_version == version {
                Some(plans.len() - 1)
            } else {
                None
            },
        }
    }
}

fn find_recorded(plans: &Vec<IntentPlanV1>, version: u64) -> (r: Option<usize>)
    ensures
        match r {
            Some(i) => i < plans.len() && recorded_place(plans.deep_view(), version) == Some(
                i as int,
            ),
            None => recorded_place(plans.deep_view(), version) is None,
        },
{
    let ghost v = plans.deep_view();
    let mut found: Option<usize> = None;
    let mut i: usize = 0;
    assert(v.take(0) =~= Seq::empty());
    while i < plans.len()
        invariant
            i <= plans.len(),
            v == plans.deep_view(),
            match found {
                Some(k) => k < i && recorded_place(v.take(i as int), version) == Some(k as int),
                None => recorded_place(v.take(i as int), version) is None,
            },
        decreases plans.len() - i,
    {
        assert(v.take(i + 1).drop_last() =~= v.take(i as int));
        assert(v.take(i + 1).last() == plans@[i as int].deep_view());
        if found.is_none() && plans[i].stack_version.get() == version {
            found = Some(i);
        }
        i = i + 1;
    }
    assert(v.take(i as int) =~= v);
    found
}

/// Where the plan of a version stands among accepted plans.
pub open spec fn accepted_place(
    plans: Seq<AcceptedIntentPlanProjectionV1View>,
    version: u64,
) -> Option<int>
    decreases plans.len(),
{
    if plans.len() == 0 {
        None
    } else {
        match accepted_place(plans.drop_last(), version) {
            Some(i) => Some(i),
            None => if plans.last().plan.stack_version == version {
                Some(plans.len() - 1)
            } else {
                None
            },
        }
    }
}

/// What the place of an accepted plan tells.
pub proof fn lemma_accepted_place(plans: Seq<AcceptedIntentPlanProjectionV1View>, version: u64)
    ensures
        accepted_place(plans, version) matches Some(i) ==> 0 <= i < plans.len()
            && plans[i].plan.stack_version == version,
    decreases plans.len(),
{
    if plans.len() > 0 {
        lemma_accepted_place(plans.drop_last(), version);
    }
}

fn find_accepted(plans: &Vec<AcceptedIntentPlanProjectionV1>, version: u64) -> (r: Option<usize>)
    ensures
        match r {
            Some(i) => i < plans.len() && accepted_place(plans.deep_view(), version) == Some(
                i as int,
            ),
            None => accepted_place(plans.deep_view(), version) is None,
        },
{
    let ghost v = plans.deep_view();
    let mut found: Option<usize> = None;
    let mut i: usize = 0;
    assert(v.take(0) =~= Seq::empty());
    while i < plans.len()
        invariant
            i <= plans.len(),
            v == plans.deep_view(),
            match found {
                Some(k) => k < i && accepted_place(v.take(i as int), version) == Some(k as int),
                None => accepted_place(v.take(i as int), version) is None,
            },
        decreases plans.len() - i,
    {
        assert(v.take(i + 1).drop_last() =~= v.take(i as int));
        assert(v.take(i + 1).last() == plans@[i as int].deep_view());
        if found.is_none() && plans[i].plan.stack_version.get() == version {
            found = Some(i);
        }
        i = i + 1;
    }
    assert(v.take(i as int) =~= v);
    found
}

/// The version that the next recorded plan must have.
pub open spec fn next_recorded(plans: Seq<IntentPlanV1View>) -> u64 {
    if plans.len() == 0 {
        1
    } else {
        next_number(plans.last().stack_version)
    }
}

/// The version that the next accepted plan must have.
pub open spec fn next_accepted(plans: Seq<AcceptedIntentPlanProjectionV1View>) -> u64 {
    if plans.len() == 0 {
        1
    } else {
        next_number(plans.last().plan.stack_version)
    }
}

/// The check that a plan belongs to the stack and the session of its stream.
pub open spec fn plan_header_verdict(
    header: IntentStackHeaderV1View,
    plan: IntentPlanV1View,
    session_id: Seq<char>,
) -> Verdict {
    chain(
        plan_verdict(plan),
        check(
            plan.stack_id == header.stack_id && plan.workspace_id == header.workspace_id
                && plan.source_session_id == header.source_session_id && plan.source_session_id
                == session_id,
            "IntentPlan scope does not match its stack header and durable session"@,
        ),
    )
}

fn validate_plan_header(header: &IntentStackHeaderV1, plan: &IntentPlanV1, session_id: &String) -> (r:
    Result<(), KernelError>)
    ensures
        verdict(r) == plan_header_verdict(header.deep_view(), plan.deep_view(), session_id@),
{
    plan.validate_contract()?;
    if !plan.stack_id.same(&header.stack_id) || plan.workspace_id != header.workspace_id
        || plan.source_session_id != header.source_session_id || plan.source_session_id
        != *session_id {
        return reject("IntentPlan scope does not match its stack header and durable session");
    }
    Ok(())
}

/// The check of the origin of one intent of a confirmed decomposition.
pub open spec fn confirmed_source_verdict(
    source: IntentSourceV1View,
    source_turn_id: Seq<char>,
) -> Verdict {
    match source {
        IntentSourceV1View::AcceptedSuggestion { source_turn_id: source, .. } => check(
            source == source_turn_id,
            "suggested decomposition acceptance source turn does not match"@,
        ),
        _ => Err("suggested decomposition has non-suggestion provenance"@),
    }
}

/// The checks of the origins of all intents of a confirmed decomposition.
pub open spec fn confirmed_source_verdicts(
    intents: Seq<IntentDefinitionV1View>,
    source_turn_id: Seq<char>,
) -> Seq<Verdict> {
    Seq::new(intents.len(), |i: int| confirmed_source_verdict(intents[i].source, source_turn_id))
}

/// The proposal that an intent was suggested in.
pub open spec fn suggestion_digest(source: IntentSourceV1View) -> Seq<char> {
    match source {
        IntentSourceV1View::AcceptedSuggestion { proposal_digest, .. } => proposal_digest,
        _ => Seq::empty(),
    }
}

/// All intents, of which there is at least one, were suggested in one proposal.
pub open spec fn one_suggestion(intents: Seq<IntentDefinitionV1View>) -> bool {
    intents.len() > 0 && forall|i: int|
        0 <= i < intents.len() ==> suggestion_digest((#[trigger] intents[i]).source)
            == suggestion_digest(intents[0].source)
}

/// Every intent was declared in the turn `source_turn_id`.
pub open spec fn all_from_turn(intents: Seq<IntentDefinitionV1View>, source_turn_id: Seq<char>) -> bool {
    forall|i: int|
        0 <= i < intents.len() ==> (#[trigger] intents[i]).source == (IntentSourceV1View::UserTurn {
            source_turn_id,
        })
}

/// Every intent comes from a trusted source.
pub open spec fn all_trusted(intents: Seq<IntentDefinitionV1View>) -> bool {
    forall|i: int| 0 <= i < intents.len() ==> (#[trigger] intents[i]).source is TrustedSource
}

/// The check that an acceptance fits the plan it accepts.
pub open spec fn acceptance_verdict(
    plan: IntentPlanV1View,
    kind: IntentAcceptanceKind,
    source_turn_id: Seq<char>,
    bound: bool,
) -> Verdict {
    chain(
        admission_identity_verdict("intent acceptance source turn id"@, source_turn_id),
        match (plan.kind, kind) {
            (
                IntentPlanKind::UserDeclaredRoot,
                IntentAcceptanceKind::UserDeclaredRootAdmission,
            ) => check(
                all_from_turn(plan.intents, source_turn_id),
                "user-declared root acceptance does not match its source turn"@,
            ),
            (
                IntentPlanKind::SuggestedDecomposition,
                IntentAcceptanceKind::ExplicitUserConfirmation,
            ) => chain(
                check(bound, "accepted suggested decomposition must be bound to a TaskPlan"@),
                chain(
                    first_failure(confirmed_source_verdicts(plan.intents, source_turn_id)),
                    check(
                        one_suggestion(plan.intents),
                        "suggested decomposition must bind one exact proposal digest"@,
                    ),
                ),
            ),
            (
                IntentPlanKind::SuggestedDecomposition,
                IntentAcceptanceKind::ContentBoundSpecDecision,
            ) => check(
                bound && all_trusted(plan.intents),
                "content-bound spec admission requires trusted-spec Task provenance"@,
            ),
            _ => Err("IntentPlan kind and acceptance authority are incompatible"@),
        },
    )
}

fn every_from_turn(intents: &Vec<IntentDefinitionV1>, source_turn_id: &String) -> (r: bool)
    ensures
        r == all_from_turn(intents.deep_view(), source_turn_id@),
{
    let ghost v = intents.deep_view();
    let mut i: usize = 0;
    while i < intents.len()
        invariant
            i <= intents.len(),
            v == intents.deep_view(),
            forall|j: int|
                0 <= j < i ==> (#[trigger] v[j]).source == (IntentSourceV1View::UserTurn {
                    source_turn_id: source_turn_id@,
                }),
        decreases intents.len() - i,
    {
        assert(v[i as int] == intents@[i as int].deep_view());
        match &intents[i].source {
            IntentSourceV1::UserTurn { source_turn_id: source } => {
                if *source != *source_turn_id {
                    return false;
                }
            },
            _ => {
                return false;
            },
        }
        i = i + 1;
    }
    true
}

fn every_trusted(intents: &Vec<IntentDefinitionV1>) -> (r: bool)
    ensures
        r == all_trusted(intents.deep_view()),
{
    let ghost v = intents.deep_view();
    let mut i: usize = 0;
    while i < intents.len()
        invariant
            i <= intents.len(),
            v == intents.deep_view(),
            forall|j: int| 0 <= j < i ==> (#[trigger] v[j]).source is TrustedSource,
        decreases intents.len() - i,
    {
        assert(v[i as int] == intents@[i as int].deep_view());
        match &intents[i].source {
            IntentSourceV1::TrustedSource { .. } => {},
            _ => {
                return false;
            },
        }
        i = i + 1;
    }
    true
}

fn suggestion_text(source: &IntentSourceV1) -> (r: String)
    ensures
        r@ == suggestion_digest(source.deep_view()),
{
    match source {
        IntentSourceV1::AcceptedSuggestion { proposal_digest, .. } => {
            proposal_digest.as_str().to_owned()
        },
        _ => String::new(),
    }
}

fn from_one_suggestion(intents: &Vec<IntentDefinitionV1>) -> (r: bool)
    ensures
        r == one_suggestion(intents.deep_view()),
{
    if intents.len() == 0 {
        return false;
    }
    let ghost v = intents.deep_view();
    assert(v[0] == intents@[0].deep_view());
    let first = suggestion_text(&intents[0].source);
    let mut i: usize = 0;
    while i < intents.len()
        invariant
            i <= intents.len(),
            v == intents.deep_view(),
            v.len() > 0,
            first@ == suggestion_digest(v[0].source),
            forall|j: int|
                0 <= j < i ==> suggestion_digest((#[trigger] v[j]).source) == suggestion_digest(
                    v[0].source,
                ),
        decreases intents.len() - i,
    {
        assert(v[i as int] == intents@[i as int].deep_view());
        let own = suggestion_text(&intents[i].source);
        if own != first {
            return false;
        }
        i = i + 1;
    }
    true
}

fn validate_confirmed_sources(intents: &Vec<IntentDefinitionV1>, source_turn_id: &String) -> (r:
    Result<(), KernelError>)
    ensures
        verdict(r) == first_failure(
            confirmed_source_verdicts(intents.deep_view(), source_turn_id@),
        ),
{
    let ghost all = confirmed_source_verdicts(intents.deep_view(), source_turn_id@);
    let mut i: usize = 0;
    proof {
        lemma_failures_begin(all);
    }
    while i < intents.len()
        invariant
            i <= intents.len(),
            all == confirmed_source_verdicts(intents.deep_view(), source_turn_id@),
            first_failure(all) == first_failure(all.skip(i as int)),
        decreases intents.len() - i,
    {
        proof {
            lemma_failures_step(all, i as int);
        }
        assert(intents.deep_view()[i as int] == intents@[i as int].deep_view());
        match &intents[i].source {
            IntentSourceV1::AcceptedSuggestion { source_turn_id: source, .. } => {
                if *source != *source_turn_id {
                    return reject("suggested decomposition acceptance source turn does not match");
                }
            },
            _ => {
                return reject("suggested decomposition has non-suggestion provenance");
            },
        }
        i = i + 1;
    }
    proof {
        lemma_failures_end(all);
    }
    Ok(())
}

fn validate_acceptance_for_plan(
    plan: &IntentPlanV1,
    acceptance_kind: IntentAcceptanceKind,
    source_turn_id: &String,
    bound: bool,
) -> (r: Result<(), KernelError>)
    ensures
        verdict(r) == acceptance_verdict(
            plan.deep_view(),
            acceptance_kind,
            source_turn_id@,
            bound,
        ),
{
    validate_admission_identity("intent acceptance source turn id", source_turn_id.as_str())?;
    match (plan.kind, acceptance_kind) {
        (IntentPlanKind::UserDeclaredRoot, IntentAcceptanceKind::UserDeclaredRootAdmission) => {
            if !every_from_turn(&plan.intents, source_turn_id) {
                return reject("user-declared root acceptance does not match its source turn");
            }
            Ok(())
        },
        (
            IntentPlanKind::SuggestedDecomposition,
            IntentAcceptanceKind::ExplicitUserConfirmation,
        ) => {
            if !bound {
                return reject("accepted suggested decomposition must be bound to a TaskPlan");
            }
            validate_confirmed_sources(&plan.intents, source_turn_id)?;
            if !from_one_suggestion(&plan.intents) {
                return reject("suggested decomposition must bind one exact proposal digest");
            }
            Ok(())
        },
        (
            IntentPlanKind::SuggestedDecomposition,
            IntentAcceptanceKind::ContentBoundSpecDecision,
        ) => {
            if !bound || !every_trusted(&plan.intents) {
                return reject("content-bound spec admission requires trusted-spec Task provenance");
            }
            Ok(())
        },
        _ => reject("IntentPlan kind and acceptance authority are incompatible"),
    }
}

/// The turn that an intent was declared or accepted in.
pub open spec fn source_turn(source: IntentSourceV1View) -> Option<Seq<char>> {
    match source {
        IntentSourceV1View::UserTurn { source_turn_id } => Some(source_turn_id),
        IntentSourceV1View::AcceptedSuggestion { source_turn_id, .. } => Some(source_turn_id),
        IntentSourceV1View::TrustedSource { .. } => None,
    }
}

/// An intent of a plan goes on in the next plan: unchanged, or as its next version, which comes from a
/// turn and names what it supersedes.
pub open spec fn goes_on(
    a: IntentDefinitionV1View,
    b: IntentDefinitionV1View,
    source_turn_id: Seq<char>,
) -> bool {
    a == b || (b.supersedes == Some(a.intent_ref) && b.intent_ref.intent_id
        == a.intent_ref.intent_id && b.intent_ref.version == next_number(a.intent_ref.version)
        && source_turn(b.source) == Some(source_turn_id))
}

/// A plan revises another in a turn.
pub open spec fn is_revision_of(
    before: IntentPlanV1View,
    plan: IntentPlanV1View,
    source_turn_id: Seq<char>,
) -> bool {
    &&& plan.kind == before.kind
    &&& plan.intents.len() == before.intents.len()
    &&& forall|i: int|
        0 <= i < plan.intents.len() ==> goes_on(
            before.intents[i],
            #[trigger] plan.intents[i],
            source_turn_id,
        )
}

/// A plan takes over the intents of another stack, without the history of any of them.
pub open spec fn is_without_history(plan: IntentPlanV1View) -> bool {
    plan.stack_version == 1 && forall|i: int|
        0 <= i < plan.intents.len() ==> (#[trigger] plan.intents[i]).supersedes is None
}

/// A user confirmed a revision of the latest plan, or, in a forked session, took over the plan of the
/// session that it was forked from.
pub open spec fn is_confirmed_successor(
    p: IntentStackProjectionV1View,
    plan: IntentPlanV1View,
    kind: IntentAcceptanceKind,
    source_turn_id: Seq<char>,
    bound: bool,
) -> bool {
    kind == IntentAcceptanceKind::ExplicitUserConfirmation && if p.accepted_plans.len() == 0 {
        p.fork_source_session_id is Some && !bound && is_without_history(plan)
    } else {
        is_revision_of(p.accepted_plans.last().plan, plan, source_turn_id)
    }
}

/// The check that an acceptance fits the plan it accepts and the plans before it.
pub open spec fn plan_acceptance_verdict(
    p: IntentStackProjectionV1View,
    plan: IntentPlanV1View,
    kind: IntentAcceptanceKind,
    source_turn_id: Seq<char>,
    bound: bool,
) -> Verdict {
    if is_confirmed_successor(p, plan, kind, source_turn_id, bound) {
        admission_identity_verdict("intent acceptance source turn id"@, source_turn_id)
    } else {
        acceptance_verdict(plan, kind, source_turn_id, bound)
    }
}

fn has_source_turn(source: &IntentSourceV1, source_turn_id: &String) -> (r: bool)
    ensures
        r == (source_turn(source.deep_view()) == Some(source_turn_id@)),
{
    match source {
        IntentSourceV1::UserTurn { source_turn_id: own } => *own == *source_turn_id,
        IntentSourceV1::AcceptedSuggestion { source_turn_id: own, .. } => *own == *source_turn_id,
        IntentSourceV1::TrustedSource { .. } => false,
    }
}

fn revises(before: &IntentPlanV1, plan: &IntentPlanV1, source_turn_id: &String) -> (r: bool)
    ensures
        r == is_revision_of(before.deep_view(), plan.deep_view(), source_turn_id@),
{
    if plan.kind != before.kind || plan.intents.len() != before.intents.len() {
        return false;
    }
    let ghost a = before.intents.deep_view();
    let ghost b = plan.intents.deep_view();
    let mut i: usize = 0;
    while i < plan.intents.len()
        invariant
            i <= plan.intents.len(),
            plan.intents.len() == before.intents.len(),
            a == before.intents.deep_view(),
            b == plan.intents.deep_view(),
            forall|k: int| 0 <= k < i ==> goes_on(a[k], #[trigger] b[k], source_turn_id@),
        decreases plan.intents.len() - i,
    {
        assert(a[i as int] == before.intents@[i as int].deep_view());
        assert(b[i as int] == plan.intents@[i as int].deep_view());
        let x = &before.intents[i];
        let y = &plan.intents[i];
        let named = match &y.supersedes {
            Some(s) => s.same(&x.intent_ref),
            None => false,
        };
        let next = named && y.intent_ref.intent_id.same(&x.intent_ref.intent_id)
            && y.intent_ref.version == following(x.intent_ref.version) && has_source_turn(
            &y.source,
            source_turn_id,
        );
        if !next && !x.same(y) {
            return false;
        }
        i = i + 1;
    }
    true
}

fn lacks_history(plan: &IntentPlanV1) -> (r: bool)
    ensures
        r == is_without_history(plan.deep_view()),
{
    if plan.stack_version.get() != 1 {
        return false;
    }
    let ghost v = plan.intents.deep_view();
    let mut i: usize = 0;
    while i < plan.intents.len()
        invariant
            i <= plan.intents.len(),
            v == plan.intents.deep_view(),
            forall|k: int| 0 <= k < i ==> (#[trigger] v[k]).supersedes is None,
        decreases plan.intents.len() - i,
    {
        assert(v[i as int] == plan.intents@[i as int].deep_view());
        if plan.intents[i].supersedes.is_some() {
            return false;
        }
        i = i + 1;
    }
    true
}

/// The check that the task plan behind an acceptance is the one it names, in the very next record.
pub open spec fn pending_verdict(
    accepted: AcceptedIntentPlanProjectionV1View,
    task_plan: TaskPlanEntryView,
    stream_sequence: u64,
) -> Verdict {
    match accepted.task_plan_binding {
        None => Err("pending task acceptance is missing its TaskPlan binding"@),
        Some(b) => chain(
            check(
                stream_sequence == next_number(accepted.accepted_stream_sequence),
                "task-bound IntentPlan and TaskPlan are not adjacent in the durable writer batch"@,
            ),
            chain(
                check(
                    task_plan.status == TaskPlanStatus::Accepted && task_plan.task_id == b.task_id
                        && task_plan.plan_version == b.task_plan_version,
                    "task-bound IntentPlan acceptance does not match the following TaskPlan"@,
                ),
                task_graph_verdict(task_plan),
            ),
        ),
    }
}

fn validate_pending_task_plan(
    accepted: &AcceptedIntentPlanProjectionV1,
    task_plan: &TaskPlanEntry,
    stream_sequence: u64,
) -> (r: Result<(), KernelError>)
    ensures
        verdict(r) == pending_verdict(
            accepted.deep_view(),
            task_plan.deep_view(),
            stream_sequence,
        ),
{
    match &accepted.task_plan_binding {
        None => reject("pending task acceptance is missing its TaskPlan binding"),
        Some(b) => {
            if stream_sequence != following(accepted.accepted_stream_sequence) {
                return reject(
                    "task-bound IntentPlan and TaskPlan are not adjacent in the durable writer batch",
                );
            }
            if task_plan.status != TaskPlanStatus::Accepted || task_plan.task_id != b.task_id
                || task_plan.plan_version != b.task_plan_version {
                return reject(
                    "task-bound IntentPlan acceptance does not match the following TaskPlan",
                );
            }
            validate_task_graph(task_plan)
        },
    }
}

/// An accepted plan as the projection keeps it.
pub open spec fn accepted_state(
    plan: IntentPlanV1View,
    kind: IntentAcceptanceKind,
    source_turn_id: Seq<char>,
    authority_id: Seq<char>,
    binding: Option<IntentTaskPlanBindingV1View>,
    record: SessionStreamRecordView,
) -> AcceptedIntentPlanProjectionV1View {
    AcceptedIntentPlanProjectionV1View {
        plan,
        acceptance_kind: kind,
        source_turn_id,
        acceptance_authority_id: authority_id,
        task_plan_binding: binding,
        accepted_event_id: record.event_id,
        accepted_stream_sequence: record.stream_sequence,
    }
}

/// The projection after an intent event, its cursor aside.
pub open spec fn after_intent_event(
    p: IntentStackProjectionV1View,
    record: SessionStreamRecordView,
    e: IntentEventV1View,
) -> Result<IntentStackProjectionV1View, Seq<char>> {
    match event_verdict(e) {
        Err(m) => Err(m),
        Ok(_) => match e {
            IntentEventV1View::StackCreated { stack_id, workspace_id, source_session_id, .. } => {
                if p.header is Some {
                    Err("Intent Stack was created more than once"@)
                } else if source_session_id != record.session_id {
                    Err("Intent Stack source session does not match its durable stream"@)
                } else {
                    Ok(
                        IntentStackProjectionV1View {
                            header: Some(
                                IntentStackHeaderV1View { stack_id, workspace_id, source_session_id },
                            ),
                            ..p
                        },
                    )
                }
            },
            IntentEventV1View::PlanRecorded { plan, .. } => match p.header {
                None => Err("IntentPlan was recorded before Intent Stack creation"@),
                Some(header) => match plan_header_verdict(header, plan, record.session_id) {
                    Err(m) => Err(m),
                    Ok(_) => if plan.stack_version != next_recorded(p.recorded_plans) {
                        Err(version_message(plan.stack_version, next_recorded(p.recorded_plans)))
                    } else if recorded_place(p.recorded_plans, plan.stack_version) is Some {
                        Err("IntentPlan version was recorded more than once"@)
                    } else {
                        Ok(
                            IntentStackProjectionV1View {
                                recorded_plans: p.recorded_plans.push(plan),
                                ..p
                            },
                        )
                    },
                },
            },
            IntentEventV1View::PlanAccepted {
                stack_id,
                stack_version,
                plan_digest,
                acceptance_kind,
                source_turn_id,
                acceptance_authority_id,
                task_plan_binding,
                ..
            } => match p.header {
                None => Err("IntentPlan was accepted before Intent Stack creation"@),
                Some(header) => if header.stack_id != stack_id {
                    Err("IntentPlan acceptance references another stack"@)
                } else {
                    match recorded_place(p.recorded_plans, stack_version) {
                        None => Err("IntentPlan acceptance has no recorded plan"@),
                        Some(i) => {
                            let plan = p.recorded_plans[i];
                            if plan.plan_digest != plan_digest {
                                Err(
                                    "IntentPlan acceptance digest does not match the recorded plan"@,
                                )
                            } else if accepted_place(p.accepted_plans, stack_version) is Some {
                                Err("IntentPlan version was accepted more than once"@)
                            } else if stack_version != next_accepted(p.accepted_plans) {
                                Err("IntentPlan acceptance is not monotonic"@)
                            } else {
                                match plan_acceptance_verdict(
                                    p,
                                    plan,
                                    acceptance_kind,
                                    source_turn_id,
                                    task_plan_binding is Some,
                                ) {
                                    Err(m) => Err(m),
                                    Ok(_) => {
                                        let accepted = accepted_state(
                                            plan,
                                            acceptance_kind,
                                            source_turn_id,
                                            acceptance_authority_id,
                                            task_plan_binding,
                                            record,
                                        );
                                        if task_plan_binding is Some {
                                            Ok(
                                                IntentStackProjectionV1View {
                                                    pending_task_acceptance: Some(
                                                        PendingTaskIntentAcceptanceV1View {
                                                            accepted,
                                                        },
                                                    ),
                                                    ..p
                                                },
                                            )
                                        } else {
                                            Ok(
                                                IntentStackProjectionV1View {
                                                    accepted_plans: p.accepted_plans.push(accepted),
                                                    ..p
                                                },
                                            )
                                        }
                                    },
                                }
                            }
                        },
                    }
                },
            },
            IntentEventV1View::ExecutionBound { .. } => Ok(p),
            IntentEventV1View::ChangeSetBound { .. } => Ok(p),
            IntentEventV1View::VerificationLinked { .. } => Ok(p),
            IntentEventV1View::ArtifactBindingsRecorded { .. } => Ok(p),
            IntentEventV1View::LayerManifestRecorded { .. } => Ok(p),
            IntentEventV1View::OperationRequested { .. } => Ok(p),
            IntentEventV1View::OperationPrepared { .. } => Ok(p),
            IntentEventV1View::OperationResolved { .. } => Ok(p),
            IntentEventV1View::ConflictRecorded { .. } => Ok(p),
            _ => Err(event_name(e) + " is not part of intent admission"@),
        },
    }
}

/// The message for a plan whose version does not follow the last.
pub open spec fn version_message(version: u64, expected: u64) -> Seq<char> {
    "IntentPlan version "@ + crate::text::decimal(version as nat)
        + " does not follow recorded version "@ + crate::text::decimal(
        (if expected == 0 {
            0
        } else {
            (expected - 1) as nat
        }) as nat,
    )
}

/// Where a projection stands once it has read a record.
pub open spec fn cursor_at(record: SessionStreamRecordView) -> ProjectionCursorView {
    ProjectionCursorView {
        projection_schema_version: INTENT_ADMISSION_PROJECTION_SCHEMA_VERSION,
        event_id: record.event_id,
        stream_sequence: record.stream_sequence,
    }
}

/// The projection has read a record already.
pub open spec fn already_read(
    p: IntentStackProjectionV1View,
    record: SessionStreamRecordView,
) -> bool {
    p.cursor matches Some(c) && record.stream_sequence <= c.stream_sequence
}

/// The message for an acceptance whose task plan does not follow.
pub open spec fn no_task_plan_message() -> Seq<char> {
    "task-bound IntentPlan acceptance was not followed by its TaskPlan record"@
}

/// The projection after one more record.
pub open spec fn after_record(
    p: IntentStackProjectionV1View,
    record: SessionStreamRecordView,
) -> Result<IntentStackProjectionV1View, Seq<char>> {
    if already_read(p, record) {
        Ok(p)
    } else {
        match p.pending_task_acceptance {
            Some(pending) => match record.body {
                RecordBodyView::Control(ControlEntryView::TaskPlan(task_plan)) => {
                    match pending_verdict(pending.accepted, task_plan, record.stream_sequence) {
                        Err(m) => Err(m),
                        Ok(_) => Ok(
                            IntentStackProjectionV1View {
                                accepted_plans: p.accepted_plans.push(pending.accepted),
                                pending_task_acceptance: None,
                                cursor: Some(cursor_at(record)),
                                ..p
                            },
                        ),
                    }
                },
                _ => Err(no_task_plan_message()),
            },
            None => match record.body {
                RecordBodyView::Intent(e) => match after_intent_event(p, record, e) {
                    Err(m) => Err(m),
                    Ok(q) => Ok(
                        IntentStackProjectionV1View { cursor: Some(cursor_at(record)), ..q },
                    ),
                },
                RecordBodyView::ConversationForked(f) => Ok(
                    IntentStackProjectionV1View {
                        cursor: Some(cursor_at(record)),
                        fork_source_session_id: Some(f.source_session_id),
                        ..p
                    },
                ),
                _ => Ok(IntentStackProjectionV1View { cursor: Some(cursor_at(record)), ..p }),
            },
        }
    }
}

/// The projection of a stream: its records one after the other.
pub open spec fn stack_of(records: Seq<SessionStreamRecordView>) -> Result<
    IntentStackProjectionV1View,
    Seq<char>,
>
    decreases records.len(),
{
    if records.len() == 0 {
        Ok(empty_stack())
    } else {
        match stack_of(records.drop_last()) {
            Err(m) => Err(m),
            Ok(p) => after_record(p, records.last()),
        }
    }
}

/// A failure on the first records is the failure on all.
pub proof fn lemma_stack_fails(records: Seq<SessionStreamRecordView>, n: int)
    requires
        0 <= n <= records.len(),
        stack_of(records.take(n)) is Err,
    ensures
        stack_of(records) == stack_of(records.take(n)),
    decreases records.len() - n,
{
    if n < records.len() {
        assert(records.take(n + 1).drop_last() =~= records.take(n));
        lemma_stack_fails(records, n + 1);
    } else {
        assert(records.take(n) =~= records);
    }
}

/// The plan that was accepted last.
pub open spec fn latest_accepted(p: IntentStackProjectionV1View) -> Option<
    AcceptedIntentPlanProjectionV1View,
> {
    if p.accepted_plans.len() == 0 {
        None
    } else {
        Some(p.accepted_plans.last())
    }
}

/// The accepted plan of a version.
pub open spec fn accepted_version(p: IntentStackProjectionV1View, version: u64) -> Option<
    AcceptedIntentPlanProjectionV1View,
> {
    match accepted_place(p.accepted_plans, version) {
        Some(i) => Some(p.accepted_plans[i]),
        None => None,
    }
}

/// Where the last of the first `n` accepted plans stands that holds an intent and was accepted before
/// a record.
pub open spec fn accepted_with(
    plans: Seq<AcceptedIntentPlanProjectionV1View>,
    intent_ref: IntentVersionRefView,
    stream_sequence: u64,
    n: int,
) -> Option<int>
    decreases n,
{
    if n <= 0 {
        None
    } else if plans[n - 1].accepted_stream_sequence < stream_sequence && plan_refs(
        plans[n - 1].plan,
    ).contains(intent_ref) {
        Some(n - 1)
    } else {
        accepted_with(plans, intent_ref, stream_sequence, n - 1)
    }
}

/// The last accepted plan that holds an intent and was accepted before a record.
pub open spec fn accepted_for_intent(
    p: IntentStackProjectionV1View,
    intent_ref: IntentVersionRefView,
    stream_sequence: u64,
) -> Option<AcceptedIntentPlanProjectionV1View> {
    match accepted_with(
        p.accepted_plans,
        intent_ref,
        stream_sequence,
        p.accepted_plans.len() as int,
    ) {
        Some(i) => Some(p.accepted_plans[i]),
        None => None,
    }
}

/// Tells whether a plan holds an intent.
pub(crate) fn plan_holds(plan: &IntentPlanV1, intent_ref: &IntentVersionRef) -> (r: bool)
    ensures
        r == plan_refs(plan.deep_view()).contains(intent_ref.deep_view()),
{
    let ghost refs = plan_refs(plan.deep_view());
    let mut i: usize = 0;
    while i < plan.intents.len()
        invariant
            i <= plan.intents.len(),
            refs == plan_refs(plan.deep_view()),
            forall|j: int| 0 <= j < i ==> refs[j] != intent_ref.deep_view(),
        decreases plan.intents.len() - i,
    {
        assert(plan.deep_view().intents[i as int] == plan.intents@[i as int].deep_view());
        assert(refs[i as int] == plan.intents@[i as int].intent_ref.deep_view());
        if plan.intents[i].intent_ref.same(intent_ref) {
            return true;
        }
        i = i + 1;
    }
    false
}

impl IntentStackProjectionV1 {
    /// Replays the records of a stream. An acceptance that waits for its task plan at the end of the
    /// stream is kept apart: it is not the latest accepted plan.
    pub fn from_records(records: &Vec<SessionStreamRecord>) -> (r: Result<Self, KernelError>)
        ensures
            outcome(r) == stack_of(records.deep_view()),
    {
        let ghost all = records.deep_view();
        let mut p = Self::default();
        let mut i: usize = 0;
        assert(all.take(0) =~= Seq::empty());
        while i < records.len()
            invariant
                i <= records.len(),
                all == records.deep_view(),
                stack_of(all.take(i as int)) == Ok::<IntentStackProjectionV1View, Seq<char>>(
                    p.deep_view(),
                ),
            decreases records.len() - i,
        {
            assert(all.take(i + 1).drop_last() =~= all.take(i as int));
            assert(all.take(i + 1).last() == records@[i as int].deep_view());
            match p.apply_record(&records[i]) {
                Ok(_) => {},
                Err(e) => {
                    proof {
                        lemma_stack_fails(all, i + 1);
                    }
                    return Err(e);
                },
            }
            i = i + 1;
        }
        assert(all.take(i as int) =~= all);
        Ok(p)
    }

    fn advance_cursor(&mut self, record: &SessionStreamRecord)
        ensures
            final(self).deep_view() == (IntentStackProjectionV1View {
                cursor: Some(cursor_at(record.deep_view())),
                ..old(self).deep_view()
            }),
    {
        self.cursor = Some(
            ProjectionCursor {
                projection_schema_version: INTENT_ADMISSION_PROJECTION_SCHEMA_VERSION,
                event_id: record.event_id.duplicate(),
                stream_sequence: record.stream_sequence,
            },
        );
    }

    /// Takes in one more record.
    pub fn apply_record(&mut self, record: &SessionStreamRecord) -> (r: Result<(), KernelError>)
        ensures
            match after_record(old(self).deep_view(), record.deep_view()) {
                Ok(p) => r is Ok && final(self).deep_view() == p,
                Err(m) => verdict(r) == Err::<(), Seq<char>>(m),
            },
    {
        if let Some(c) = &self.cursor {
            if record.stream_sequence <= c.stream_sequence {
                return Ok(());
            }
        }
        let pending = self.pending_task_acceptance.duplicate();
        match pending {
            Some(pending) => {
                match &record.body {
                    RecordBody::Control(ControlEntry::TaskPlan(task_plan)) => {
                        validate_pending_task_plan(
                            &pending.accepted,
                            task_plan,
                            record.stream_sequence,
                        )?;
                        let ghost before = self.accepted_plans;
                        let accepted = pending.accepted;
                        self.accepted_plans.push(accepted);
                        proof {
                            lemma_push_view(before, accepted, self.accepted_plans);
                        }
                        self.pending_task_acceptance = None;
                        self.advance_cursor(record);
                        Ok(())
                    },
                    _ => reject(
                        "task-bound IntentPlan acceptance was not followed by its TaskPlan record",
                    ),
                }
            },
            None => {
                match &record.body {
                    RecordBody::Intent(e) => {
                        self.apply_intent_event(record, e)?;
                    },
                    RecordBody::ConversationForked(f) => {
                        self.fork_source_session_id = Some(f.source_session_id.duplicate());
                    },
                    _ => {},
                }
                self.advance_cursor(record);
                Ok(())
            },
        }
    }

    #[verifier::rlimit(60)]
    #[verifier::spinoff_prover]
    fn apply_intent_event(&mut self, record: &SessionStreamRecord, e: &IntentEventV1) -> (r: Result<
        (),
        KernelError,
    >)
        ensures
            match after_intent_event(old(self).deep_view(), record.deep_view(), e.deep_view()) {
                Ok(p) => r is Ok && final(self).deep_view() == p,
                Err(m) => verdict(r) == Err::<(), Seq<char>>(m),
            },
    {
        e.validate_contract()?;
        match e {
            IntentEventV1::StackCreated { stack_id, workspace_id, source_session_id, .. } => {
                if self.header.is_some() {
                    return reject("Intent Stack was created more than once");
                }
                if *source_session_id != record.session_id {
                    return reject(
                        "Intent Stack source session does not match its durable stream",
                    );
                }
                self.header = Some(
                    IntentStackHeaderV1 {
                        stack_id: stack_id.duplicate(),
                        workspace_id: workspace_id.duplicate(),
                        source_session_id: source_session_id.duplicate(),
                    },
                );
                Ok(())
            },
            IntentEventV1::PlanRecorded { schema_version, plan } => {
                assert(e.deep_view() == recorded_event(*schema_version, plan.deep_view()));
                self.record_plan(record, plan)
            },
            IntentEventV1::PlanAccepted {
                stack_id,
                stack_version,
                plan_digest,
                acceptance_kind,
                source_turn_id,
                acceptance_authority_id,
                task_plan_binding,
                ..
            } => self.accept_plan(
                record,
                stack_id,
                *stack_version,
                plan_digest,
                *acceptance_kind,
                source_turn_id,
                acceptance_authority_id,
                task_plan_binding,
                Ghost(e.deep_view()),
            ),
            IntentEventV1::ExecutionBound { .. }
            | IntentEventV1::ChangeSetBound { .. }
            | IntentEventV1::VerificationLinked { .. }
            | IntentEventV1::ArtifactBindingsRecorded { .. }
            | IntentEventV1::LayerManifestRecorded { .. }
            | IntentEventV1::OperationRequested { .. }
            | IntentEventV1::OperationPrepared { .. }
            | IntentEventV1::OperationResolved { .. }
            | IntentEventV1::ConflictRecorded { .. } => Ok(()),
            _ => Err(
                KernelError { message: joined(e.event_type(), " is not part of intent admission") },
            ),
        }
    }

    fn record_plan(&mut self, record: &SessionStreamRecord, plan: &IntentPlanV1) -> (r: Result<
        (),
        KernelError,
    >)
        ensures
            forall|schema_version: u16|
                event_verdict(
                    #[trigger] recorded_event(schema_version, plan.deep_view()),
                ) is Ok ==> match after_intent_event(
                    old(self).deep_view(),
                    record.deep_view(),
                    recorded_event(schema_version, plan.deep_view()),
                ) {
                    Ok(p) => r is Ok && final(self).deep_view() == p,
                    Err(m) => verdict(r) == Err::<(), Seq<char>>(m),
                },
    {
        match &self.header {
            None => {
                return reject("IntentPlan was recorded before Intent Stack creation");
            },
            Some(header) => {
                validate_plan_header(header, plan, &record.session_id)?;
            },
        }
        let n: usize = self.recorded_plans.len();
        let expected: u64 = if n == 0 {
            1
        } else {
            assert(self.recorded_plans.deep_view().last() == self.recorded_plans@[n - 1].deep_view());
            following(self.recorded_plans[n - 1].stack_version.get())
        };
        let version = plan.stack_version.get();
        if version != expected {
            let mut message = joined(
                "IntentPlan version ",
                crate::text::decimal_text(version).as_str(),
            );
            message.append(" does not follow recorded version ");
            let previous: u64 = if expected == 0 {
                0
            } else {
                expected - 1
            };
            let number = crate::text::decimal_text(previous);
            message.append(number.as_str());
            return Err(KernelError { message });
        }
        if find_recorded(&self.recorded_plans, version).is_some() {
            return reject("IntentPlan version was recorded more than once");
        }
        let ghost before = self.recorded_plans;
        let copy = plan.duplicate();
        self.recorded_plans.push(copy);
        proof {
            lemma_push_view(before, copy, self.recorded_plans);
        }
        Ok(())
    }

    fn validate_plan_acceptance(
        &self,
        plan: &IntentPlanV1,
        acceptance_kind: IntentAcceptanceKind,
        source_turn_id: &String,
        bound: bool,
    ) -> (r: Result<(), KernelError>)
        ensures
            verdict(r) == plan_acceptance_verdict(
                self.deep_view(),
                plan.deep_view(),
                acceptance_kind,
                source_turn_id@,
                bound,
            ),
    {
        let n: usize = self.accepted_plans.len();
        let confirmed = acceptance_kind == IntentAcceptanceKind::ExplicitUserConfirmation && if n
            == 0 {
            self.fork_source_session_id.is_some() && !bound && lacks_history(plan)
        } else {
            assert(self.accepted_plans.deep_view().last() == self.accepted_plans@[n - 1].deep_view());
            revises(&self.accepted_plans[n - 1].plan, plan, source_turn_id)
        };
        if confirmed {
            return validate_admission_identity(
                "intent acceptance source turn id",
                source_turn_id.as_str(),
            );
        }
        validate_acceptance_for_plan(plan, acceptance_kind, source_turn_id, bound)
    }

    #[verifier::rlimit(60)]
    #[verifier::spinoff_prover]
    fn accept_plan(
        &mut self,
        record: &SessionStreamRecord,
        stack_id: &IntentStackId,
        stack_version: IntentStackVersion,
        plan_digest: &IntentDigest,
        acceptance_kind: IntentAcceptanceKind,
        source_turn_id: &String,
        acceptance_authority_id: &String,
        task_plan_binding: &Option<IntentTaskPlanBindingV1>,
        Ghost(e): Ghost<IntentEventV1View>,
    ) -> (r: Result<(), KernelError>)
        requires
            event_verdict(e) is Ok,
            e matches IntentEventV1View::PlanAccepted {
                stack_id: a,
                stack_version: b,
                plan_digest: c,
                acceptance_kind: d,
                source_turn_id: f,
                acceptance_authority_id: g,
                task_plan_binding: h,
                ..
            } && a == stack_id.deep_view() && b == stack_version.deep_view() && c
                == plan_digest.deep_view() && d == acceptance_kind && f == source_turn_id@ && g
                == acceptance_authority_id@ && h == task_plan_binding.deep_view(),
        ensures
            match after_intent_event(old(self).deep_view(), record.deep_view(), e) {
                Ok(p) => r is Ok && final(self).deep_view() == p,
                Err(m) => verdict(r) == Err::<(), Seq<char>>(m),
            },
    {
        match &self.header {
            None => {
                return reject("IntentPlan was accepted before Intent Stack creation");
            },
            Some(header) => {
                if !header.stack_id.same(stack_id) {
                    return reject("IntentPlan acceptance references another stack");
                }
            },
        }
        let version = stack_version.get();
        let place = match find_recorded(&self.recorded_plans, version) {
            None => {
                return reject("IntentPlan acceptance has no recorded plan");
            },
            Some(i) => i,
        };
        let plan = self.recorded_plans[place].duplicate();
        assert(self.recorded_plans.deep_view()[place as int] == plan.deep_view());
        if !plan.plan_digest.same(plan_digest) {
            return reject("IntentPlan acceptance digest does not match the recorded plan");
        }
        if find_accepted(&self.accepted_plans, version).is_some() {
            return reject("IntentPlan version was accepted more than once");
        }
        let n: usize = self.accepted_plans.len();
        let expected: u64 = if n == 0 {
            1
        } else {
            assert(self.accepted_plans.deep_view().last() == self.accepted_plans@[n - 1].deep_view());
            following(self.accepted_plans[n - 1].plan.stack_version.get())
        };
        if version != expected {
            return reject("IntentPlan acceptance is not monotonic");
        }
        self.validate_plan_acceptance(
            &plan,
            acceptance_kind,
            source_turn_id,
            task_plan_binding.is_some(),
        )?;
        let accepted = AcceptedIntentPlanProjectionV1 {
            plan,
            acceptance_kind,
            source_turn_id: source_turn_id.duplicate(),
            acceptance_authority_id: acceptance_authority_id.duplicate(),
            task_plan_binding: task_plan_binding.duplicate(),
            accepted_event_id: record.event_id.duplicate(),
            accepted_stream_sequence: record.stream_sequence,
        };
        if task_plan_binding.is_some() {
            self.pending_task_acceptance = Some(PendingTaskIntentAcceptanceV1 { accepted });
        } else {
            let ghost before = self.accepted_plans;
            self.accepted_plans.push(accepted);
            proof {
                lemma_push_view(before, accepted, self.accepted_plans);
            }
        }
        Ok(())
    }

    /// How far the projection has read.
    pub fn cursor(&self) -> (r: Option<&ProjectionCursor>)
        ensures
            r.deep_view() == self.deep_view().cursor,
    {
        match &self.cursor {
            Some(c) => Some(c),
            None => None,
        }
    }

    /// The plan that was accepted last.
    pub fn latest_accepted_plan(&self) -> (r: Option<&AcceptedIntentPlanProjectionV1>)
        ensures
            r.deep_view() == latest_accepted(self.deep_view()),
    {
        let n: usize = self.accepted_plans.len();
        if n == 0 {
            None
        } else {
            Some(&self.accepted_plans[n - 1])
        }
    }

    /// The session that the session of the stream was forked from.
    pub fn fork_source_session_id(&self) -> (r: Option<&String>)
        ensures
            r.deep_view() == self.deep_view().fork_source_session_id,
    {
        match &self.fork_source_session_id {
            Some(id) => Some(id),
            None => None,
        }
    }

    /// The accepted plan of a version.
    pub fn accepted_plan(&self, version: IntentStackVersion) -> (r: Option<
        &AcceptedIntentPlanProjectionV1,
    >)
        ensures
            r.deep_view() == accepted_version(self.deep_view(), version.deep_view()),
    {
        match find_accepted(&self.accepted_plans, version.get()) {
            Some(i) => Some(&self.accepted_plans[i]),
            None => None,
        }
    }

    /// The last accepted plan that holds an intent and was accepted before a record.
    pub fn accepted_plan_for_intent_at(&self, intent_ref: &IntentVersionRef, stream_sequence: u64) -> (r:
        Option<&AcceptedIntentPlanProjectionV1>)
        ensures
            r.deep_view() == accepted_for_intent(
                self.deep_view(),
                intent_ref.deep_view(),
                stream_sequence,
            ),
    {
        let ghost v = self.accepted_plans.deep_view();
        let mut n: usize = self.accepted_plans.len();
        while n > 0
            invariant
                n <= self.accepted_plans.len(),
                v == self.accepted_plans.deep_view(),
                v == self.deep_view().accepted_plans,
                accepted_with(v, intent_ref.deep_view(), stream_sequence, v.len() as int)
                    == accepted_with(v, intent_ref.deep_view(), stream_sequence, n as int),
            decreases n,
        {
            assert(v[n - 1] == self.accepted_plans@[n - 1].deep_view());
            if self.accepted_plans[n - 1].accepted_stream_sequence < stream_sequence && plan_holds(
                &self.accepted_plans[n - 1].plan,
                intent_ref,
            ) {
                return Some(&self.accepted_plans[n - 1]);
            }
            n = n - 1;
        }
        None
    }

    /// Tells whether an acceptance still waits for its task plan.
    pub fn has_incomplete_task_acceptance(&self) -> (r: bool)
        ensures
            r == self.deep_view().pending_task_acceptance is Some,
    {
        self.pending_task_acceptance.is_some()
    }

    /// What the public sees of the stack, without executions.
    pub fn public_state(&self) -> (r: Result<PublicIntentStackStateV1, KernelError>)
        ensures
            outcome(r) == public_state_of(self.deep_view(), None),
    {
        self.public_state_with_optional_lineage(None)
    }

    /// What the public sees of the stack and of its executions.
    pub fn public_state_with_lineage(&self, lineage: &IntentLineageProjectionV1) -> (r: Result<
        PublicIntentStackStateV1,
        KernelError,
    >)
        ensures
            outcome(r) == public_state_of(self.deep_view(), Some(lineage.deep_view())),
    {
        self.public_state_with_optional_lineage(Some(lineage))
    }

    fn public_state_with_optional_lineage(&self, lineage: Option<&IntentLineageProjectionV1>) -> (r:
        Result<PublicIntentStackStateV1, KernelError>)
        ensures
            outcome(r) == public_state_of(self.deep_view(), lineage.deep_view()),
    {
        let header = match &self.header {
            None => {
                return Ok(
                    PublicIntentStackStateV1::HistoryUnavailable {
                        schema_version: INTENT_PUBLIC_DTO_SCHEMA_VERSION,
                        safe_message: INTENT_HISTORY_UNAVAILABLE_MESSAGE.to_owned(),
                    },
                );
            },
            Some(header) => header,
        };
        let recorded: usize = self.recorded_plans.len();
        let accepted: usize = self.accepted_plans.len();
        let complete = if recorded == 0 || accepted == 0 {
            recorded == 0 && accepted == 0
        } else {
            assert(self.deep_view().recorded_plans.last() == self.recorded_plans@[recorded
                - 1].deep_view());
            assert(self.deep_view().accepted_plans.last() == self.accepted_plans@[accepted
                - 1].deep_view());
            self.recorded_plans[recorded - 1].stack_version.get() == self.accepted_plans[accepted
                - 1].plan.stack_version.get()
        };
        if self.pending_task_acceptance.is_some() || !complete {
            return Err(
                KernelError::new(
                    "IntentPlan admission is incomplete and cannot be rendered as accepted",
                ),
            );
        }
        let latest = match self.latest_accepted_plan() {
            None => {
                return Err(KernelError::new("Intent Stack has no accepted plan"));
            },
            Some(a) => a,
        };
        let intents = public_intents(&latest.plan.intents, lineage);
        let authority_state = if any_read_only(&intents) {
            IntentAuthorityState::ReadOnlyProvenance
        } else {
            IntentAuthorityState::Active
        };
        let state = PublicIntentStackStateV1::Available {
            schema_version: INTENT_PUBLIC_DTO_SCHEMA_VERSION,
            stack: PublicIntentStackV1 {
                schema_version: INTENT_PUBLIC_DTO_SCHEMA_VERSION,
                stack_id: header.stack_id.duplicate(),
                stack_version: latest.plan.stack_version,
                authority_state,
                plan_digest: latest.plan.plan_digest.duplicate(),
                intents,
                conflicts: Vec::new(),
            },
        };
        proof {
            let s = state->stack;
            assert(s.deep_view().conflicts =~= Seq::empty());
        }
        Ok(state)
    }

    fn is_untouched(&self) -> (r: bool)
        ensures
            r == untouched(self.deep_view()),
    {
        self.header.is_none() && self.recorded_plans.len() == 0 && self.accepted_plans.len() == 0
            && self.pending_task_acceptance.is_none()
    }

    /// Tells whether the first plan of the stack may be appended.
    pub fn validate_initial_append(&self, admission: &IntentPlanAdmissionV1) -> (r: Result<
        bool,
        KernelError,
    >)
        ensures
            outcome(r) == initial_append(self.deep_view(), admission.deep_view()),
    {
        if self.is_untouched() {
            if admission.plan().stack_version.get() != 1 {
                return Err(
                    KernelError::new("initial IntentPlan admission must use stack version one"),
                );
            }
            return Ok(true);
        }
        if self.pending_task_acceptance.is_some() {
            return Err(
                KernelError::new(
                    "an incomplete task-bound IntentPlan admission requires recovery",
                ),
            );
        }
        Err(KernelError::new("a second semantic IntentPlan version is not admitted"))
    }

    /// Tells whether a version is the next one, both to be recorded and to be accepted.
    pub(crate) fn is_next_version(&self, version: u64) -> (r: bool)
        ensures
            r == (version == next_accepted(self.deep_view().accepted_plans) && version
                == next_recorded(self.deep_view().recorded_plans)),
    {
        let n: usize = self.accepted_plans.len();
        let accepted: u64 = if n == 0 {
            1
        } else {
            assert(self.accepted_plans.deep_view().last() == self.accepted_plans@[n - 1].deep_view());
            following(self.accepted_plans[n - 1].plan.stack_version.get())
        };
        let m: usize = self.recorded_plans.len();
        let recorded: u64 = if m == 0 {
            1
        } else {
            assert(self.recorded_plans.deep_view().last() == self.recorded_plans@[m - 1].deep_view());
            following(self.recorded_plans[m - 1].stack_version.get())
        };
        version == accepted && version == recorded
    }

    /// Tells whether the latest accepted plan is exactly this admission, with this binding.
    pub fn is_exact_admission(
        &self,
        admission: &IntentPlanAdmissionV1,
        binding: &Option<IntentTaskPlanBindingV1>,
    ) -> (r: bool)
        ensures
            r == exact_admission(self.deep_view(), admission.deep_view(), binding.deep_view()),
    {
        match self.latest_accepted_plan() {
            None => false,
            Some(a) => a.plan.same(admission.plan()) && a.acceptance_kind
                == admission.acceptance_kind() && same_text(
                a.source_turn_id.as_str(),
                admission.source_turn_id(),
            ) && same_text(
                a.acceptance_authority_id.as_str(),
                admission.acceptance_authority_id(),
            ) && a.task_plan_binding.same(binding),
        }
    }
}

/// An event that records a plan.
pub open spec fn recorded_event(schema_version: u16, plan: IntentPlanV1View) -> IntentEventV1View {
    IntentEventV1View::PlanRecorded { schema_version, plan }
}

// What the public sees.

/// Where an intent comes from, as the public sees it.
pub open spec fn public_source(source: IntentSourceV1View) -> PublicIntentSourceV1View {
    match source {
        IntentSourceV1View::UserTurn { source_turn_id } => PublicIntentSourceV1View::UserTurn {
            source_turn_id,
        },
        IntentSourceV1View::AcceptedSuggestion { source_turn_id, .. } => {
            PublicIntentSourceV1View::AcceptedSuggestion { source_turn_id }
        },
        IntentSourceV1View::TrustedSource { .. } => PublicIntentSourceV1View::TrustedSource {
            safe_source_label: "Trusted specification"@,
        },
    }
}

/// What is said of an intent without executions.
pub open spec fn unapplied_summary() -> IntentLineageSummaryV1View {
    IntentLineageSummaryV1View {
        application_state: Some(IntentApplicationState::Unapplied),
        advisory_criterion_count: 0,
        system_verified_criterion_count: 0,
        read_only_reason: None,
    }
}

/// What is said of the executions of an intent.
pub open spec fn summary_or_none(
    lineage: Option<IntentLineageProjectionV1View>,
    intent_ref: IntentVersionRefView,
) -> IntentLineageSummaryV1View {
    match lineage {
        Some(l) => lineage_summary(l, intent_ref),
        None => unapplied_summary(),
    }
}

/// What the public sees of an intent.
pub open spec fn public_intent(
    d: IntentDefinitionV1View,
    lineage: Option<IntentLineageProjectionV1View>,
) -> PublicIntentV1View {
    let s = summary_or_none(lineage, d.intent_ref);
    PublicIntentV1View {
        intent_ref: d.intent_ref,
        title: d.title,
        statement: d.statement,
        acceptance_criteria: d.acceptance_criteria,
        depends_on: d.depends_on,
        source: public_source(d.source),
        definition_state: IntentDefinitionState::Accepted,
        application_state: match s.application_state {
            Some(a) => a,
            None => IntentApplicationState::Unapplied,
        },
        exclusive_artifact_count: 0,
        shared_artifact_count: 0,
        unowned_artifact_count: 0,
        drifted_artifact_count: 0,
        unavailable_artifact_count: 0,
        advisory_criterion_count: s.advisory_criterion_count,
        system_verified_criterion_count: s.system_verified_criterion_count,
        artifacts: Seq::empty(),
        available_actions: Seq::empty(),
    }
}

/// What the public sees of all intents.
pub open spec fn public_intents_of(
    intents: Seq<IntentDefinitionV1View>,
    lineage: Option<IntentLineageProjectionV1View>,
) -> Seq<PublicIntentV1View> {
    Seq::new(intents.len(), |i: int| public_intent(intents[i], lineage))
}

/// One of the intents can only be read.
pub open spec fn some_read_only(intents: Seq<PublicIntentV1View>) -> bool {
    exists|i: int|
        0 <= i < intents.len() && (#[trigger] intents[i]).application_state
            == IntentApplicationState::ReadOnly
}

/// The version of the last recorded plan is the version of the last accepted plan.
pub open spec fn all_accepted(p: IntentStackProjectionV1View) -> bool {
    if p.recorded_plans.len() == 0 || p.accepted_plans.len() == 0 {
        p.recorded_plans.len() == 0 && p.accepted_plans.len() == 0
    } else {
        p.recorded_plans.last().stack_version == p.accepted_plans.last().plan.stack_version
    }
}

/// What the public sees of a stack.
pub open spec fn public_state_of(
    p: IntentStackProjectionV1View,
    lineage: Option<IntentLineageProjectionV1View>,
) -> Result<PublicIntentStackStateV1View, Seq<char>> {
    match p.header {
        None => Ok(
            PublicIntentStackStateV1View::HistoryUnavailable {
                schema_version: INTENT_PUBLIC_DTO_SCHEMA_VERSION,
                safe_message: INTENT_HISTORY_UNAVAILABLE_MESSAGE@,
            },
        ),
        Some(header) => if p.pending_task_acceptance is Some || !all_accepted(p) {
            Err("IntentPlan admission is incomplete and cannot be rendered as accepted"@)
        } else {
            match latest_accepted(p) {
                None => Err("Intent Stack has no accepted plan"@),
                Some(a) => {
                    let intents = public_intents_of(a.plan.intents, lineage);
                    Ok(
                        PublicIntentStackStateV1View::Available {
                            schema_version: INTENT_PUBLIC_DTO_SCHEMA_VERSION,
                            stack: PublicIntentStackV1View {
                                schema_version: INTENT_PUBLIC_DTO_SCHEMA_VERSION,
                                stack_id: header.stack_id,
                                stack_version: a.plan.stack_version,
                                authority_state: if some_read_only(intents) {
                                    IntentAuthorityState::ReadOnlyProvenance
                                } else {
                                    IntentAuthorityState::Active
                                },
                                plan_digest: a.plan.plan_digest,
                                intents,
                                conflicts: Seq::empty(),
                            },
                        },
                    )
                },
            }
        },
    }
}

fn any_read_only(intents: &Vec<PublicIntentV1>) -> (r: bool)
    ensures
        r == some_read_only(intents.deep_view()),
{
    let ghost v = intents.deep_view();
    let mut i: usize = 0;
    while i < intents.len()
        invariant
            i <= intents.len(),
            v == intents.deep_view(),
            forall|j: int|
                0 <= j < i ==> (#[trigger] v[j]).application_state
                    != IntentApplicationState::ReadOnly,
        decreases intents.len() - i,
    {
        assert(v[i as int] == intents@[i as int].deep_view());
        if intents[i].application_state == IntentApplicationState::ReadOnly {
            return true;
        }
        i = i + 1;
    }
    false
}

fn public_intent_from_definition(d: &IntentDefinitionV1, lineage: Option<&IntentLineageProjectionV1>) -> (r:
    PublicIntentV1)
    ensures
        r.deep_view() == public_intent(d.deep_view(), lineage.deep_view()),
{
    let source = match &d.source {
        IntentSourceV1::UserTurn { source_turn_id } => PublicIntentSourceV1::UserTurn {
            source_turn_id: source_turn_id.duplicate(),
        },
        IntentSourceV1::AcceptedSuggestion { source_turn_id, .. } => {
            PublicIntentSourceV1::AcceptedSuggestion {
                source_turn_id: source_turn_id.duplicate(),
            }
        },
        IntentSourceV1::TrustedSource { .. } => PublicIntentSourceV1::TrustedSource {
            safe_source_label: "Trusted specification".to_owned(),
        },
    };
    let summary = match lineage {
        Some(l) => l.summary_for(&d.intent_ref),
        None => IntentLineageSummaryV1 {
            application_state: Some(IntentApplicationState::Unapplied),
            advisory_criterion_count: 0,
            system_verified_criterion_count: 0,
            read_only_reason: None,
        },
    };
    let application_state = match summary.application_state {
        Some(a) => a,
        None => IntentApplicationState::Unapplied,
    };
    let r = PublicIntentV1 {
        intent_ref: d.intent_ref.duplicate(),
        title: d.title.duplicate(),
        statement: d.statement.duplicate(),
        acceptance_criteria: d.acceptance_criteria.duplicate(),
        depends_on: d.depends_on.duplicate(),
        source,
        definition_state: IntentDefinitionState::Accepted,
        application_state,
        exclusive_artifact_count: 0,
        shared_artifact_count: 0,
        unowned_artifact_count: 0,
        drifted_artifact_count: 0,
        unavailable_artifact_count: 0,
        advisory_criterion_count: summary.advisory_criterion_count,
        system_verified_criterion_count: summary.system_verified_criterion_count,
        artifacts: Vec::new(),
        available_actions: Vec::new(),
    };
    assert(r.deep_view().artifacts =~= Seq::empty());
    assert(r.deep_view().available_actions =~= Seq::empty());
    r
}

fn public_intents(intents: &Vec<IntentDefinitionV1>, lineage: Option<&IntentLineageProjectionV1>) -> (r:
    Vec<PublicIntentV1>)
    ensures
        r.deep_view() == public_intents_of(intents.deep_view(), lineage.deep_view()),
{
    let ghost all = public_intents_of(intents.deep_view(), lineage.deep_view());
    let mut r: Vec<PublicIntentV1> = Vec::new();
    let mut i: usize = 0;
    while i < intents.len()
        invariant
            i <= intents.len(),
            all == public_intents_of(intents.deep_view(), lineage.deep_view()),
            r.deep_view() =~= all.take(i as int),
        decreases intents.len() - i,
    {
        assert(intents.deep_view()[i as int] == intents@[i as int].deep_view());
        let x = public_intent_from_definition(&intents[i], lineage);
        let ghost before = r;
        r.push(x);
        proof {
            lemma_push_view(before, x, r);
        }
        i = i + 1;
    }
    assert(r.deep_view() =~= all);
    r
}

// Appending.

/// Nothing of an intent stack is in the stream yet.
pub open spec fn untouched(p: IntentStackProjectionV1View) -> bool {
    p.header is None && p.recorded_plans.len() == 0 && p.accepted_plans.len() == 0
        && p.pending_task_acceptance is None
}

/// Whether the first plan of a stack may be appended.
pub open spec fn initial_append(
    p: IntentStackProjectionV1View,
    a: IntentPlanAdmissionV1View,
) -> Result<bool, Seq<char>> {
    if untouched(p) {
        if a.plan.stack_version != 1 {
            Err("initial IntentPlan admission must use stack version one"@)
        } else {
            Ok(true)
        }
    } else if p.pending_task_acceptance is Some {
        Err("an incomplete task-bound IntentPlan admission requires recovery"@)
    } else {
        Err("a second semantic IntentPlan version is not admitted"@)
    }
}

/// The latest accepted plan is exactly an admission, with a binding.
pub open spec fn exact_admission(
    p: IntentStackProjectionV1View,
    a: IntentPlanAdmissionV1View,
    binding: Option<IntentTaskPlanBindingV1View>,
) -> bool {
    latest_accepted(p) matches Some(x) && x.plan == a.plan && x.acceptance_kind
        == a.acceptance_kind && x.source_turn_id == a.source_turn_id && x.acceptance_authority_id
        == a.acceptance_authority_id && x.task_plan_binding == binding
}

/// A record is a task plan of a binding.
pub open spec fn is_bound_task_plan(
    record: SessionStreamRecordView,
    binding: IntentTaskPlanBindingV1View,
) -> bool {
    record.body matches RecordBodyView::Control(ControlEntryView::TaskPlan(t)) && t.task_id
        == binding.task_id && t.plan_version == binding.task_plan_version
}

/// The task plan of a binding that a stream holds, or the failure where it holds two that differ.
pub open spec fn durable_task_plan_of(
    records: Seq<SessionStreamRecordView>,
    binding: IntentTaskPlanBindingV1View,
) -> Result<Option<TaskPlanEntryView>, Seq<char>>
    decreases records.len(),
{
    if records.len() == 0 {
        Ok(None)
    } else {
        match durable_task_plan_of(records.drop_last(), binding) {
            Err(m) => Err(m),
            Ok(found) => if is_bound_task_plan(records.last(), binding) {
                let t = records.last().body->Control_0->TaskPlan_0;
                if found matches Some(x) && x != t {
                    Err("durable stream contains conflicting TaskPlan entries for one version"@)
                } else {
                    Ok(Some(t))
                }
            } else {
                Ok(found)
            },
        }
    }
}

proof fn lemma_durable_plan_fails(
    records: Seq<SessionStreamRecordView>,
    binding: IntentTaskPlanBindingV1View,
    n: int,
)
    requires
        0 <= n <= records.len(),
        durable_task_plan_of(records.take(n), binding) is Err,
    ensures
        durable_task_plan_of(records, binding) == durable_task_plan_of(records.take(n), binding),
    decreases records.len() - n,
{
    if n < records.len() {
        assert(records.take(n + 1).drop_last() =~= records.take(n));
        lemma_durable_plan_fails(records, binding, n + 1);
    } else {
        assert(records.take(n) =~= records);
    }
}

/// Finds the task plan of a binding in a stream.
pub(crate) fn durable_task_plan(records: &Vec<SessionStreamRecord>, binding: &IntentTaskPlanBindingV1) -> (r:
    Result<Option<TaskPlanEntry>, KernelError>)
    ensures
        outcome(r) == durable_task_plan_of(records.deep_view(), binding.deep_view()),
{
    let ghost all = records.deep_view();
    let ghost b = binding.deep_view();
    let mut found: Option<TaskPlanEntry> = None;
    let mut i: usize = 0;
    assert(all.take(0) =~= Seq::empty());
    while i < records.len()
        invariant
            i <= records.len(),
            all == records.deep_view(),
            b == binding.deep_view(),
            durable_task_plan_of(all.take(i as int), b) == Ok::<
                Option<TaskPlanEntryView>,
                Seq<char>,
            >(found.deep_view()),
        decreases records.len() - i,
    {
        assert(all.take(i + 1).drop_last() =~= all.take(i as int));
        assert(all.take(i + 1).last() == records@[i as int].deep_view());
        if let RecordBody::Control(ControlEntry::TaskPlan(t)) = &records[i].body {
            if t.task_id == binding.task_id && t.plan_version == binding.task_plan_version {
                if let Some(x) = &found {
                    if !x.same(t) {
                        proof {
                            lemma_durable_plan_fails(all, b, i + 1);
                        }
                        return Err(
                            KernelError::new(
                                "durable stream contains conflicting TaskPlan entries for one version",
                            ),
                        );
                    }
                }
                found = Some(t.duplicate());
            }
        }
        i = i + 1;
    }
    assert(all.take(i as int) =~= all);
    Ok(found)
}

/// Whether an admission with a task plan is still to be appended to a stream.
pub open spec fn task_append(
    records: Seq<SessionStreamRecordView>,
    a: IntentPlanAdmissionV1View,
    binding: IntentTaskPlanBindingV1View,
    task_plan: TaskPlanEntryView,
) -> Result<bool, Seq<char>> {
    match stack_of(records) {
        Err(m) => Err(m),
        Ok(p) => match durable_task_plan_of(records, binding) {
            Err(m) => Err(m),
            Ok(found) => if exact_admission(p, a, Some(binding)) {
                match found {
                    None => Err("accepted IntentPlan is missing its durable TaskPlan"@),
                    Some(x) => if x != task_plan {
                        Err("durable TaskPlan conflicts with the accepted IntentPlan binding"@)
                    } else {
                        Ok(false)
                    },
                }
            } else if found is Some {
                Err("TaskPlan version already exists without the requested IntentPlan"@)
            } else {
                initial_append(p, a)
            },
        },
    }
}

/// Tells whether an admission with a task plan is still to be appended to a stream. A writer calls
/// it on the records at the moment of the append.
pub fn task_append_needed(
    records: &Vec<SessionStreamRecord>,
    admission: &IntentPlanAdmissionV1,
    binding: &IntentTaskPlanBindingV1,
    task_plan: &TaskPlanEntry,
) -> (r: Result<bool, KernelError>)
    ensures
        outcome(r) == task_append(
            records.deep_view(),
            admission.deep_view(),
            binding.deep_view(),
            task_plan.deep_view(),
        ),
{
    let projection = IntentStackProjectionV1::from_records(records)?;
    let found = durable_task_plan(records, binding)?;
    let wanted = Some(binding.duplicate());
    if projection.is_exact_admission(admission, &wanted) {
        return match &found {
            None => Err(KernelError::new("accepted IntentPlan is missing its durable TaskPlan")),
            Some(x) => if x.same(task_plan) {
                Ok(false)
            } else {
                Err(
                    KernelError::new(
                        "durable TaskPlan conflicts with the accepted IntentPlan binding",
                    ),
                )
            },
        };
    }
    if found.is_some() {
        return Err(
            KernelError::new("TaskPlan version already exists without the requested IntentPlan"),
        );
    }
    projection.validate_initial_append(admission)
}

/// Whether an admission without a task plan is still to be appended to a stream.
pub open spec fn chat_append(
    records: Seq<SessionStreamRecordView>,
    a: IntentPlanAdmissionV1View,
) -> Result<bool, Seq<char>> {
    match stack_of(records) {
        Err(m) => Err(m),
        Ok(p) => if exact_admission(p, a, None) {
            Ok(false)
        } else {
            initial_append(p, a)
        },
    }
}

/// Tells whether an admission without a task plan is still to be appended to a stream.
pub fn chat_append_needed(records: &Vec<SessionStreamRecord>, admission: &IntentPlanAdmissionV1) -> (r:
    Result<bool, KernelError>)
    ensures
        outcome(r) == chat_append(records.deep_view(), admission.deep_view()),
{
    let projection = IntentStackProjectionV1::from_records(records)?;
    let none: Option<IntentTaskPlanBindingV1> = None;
    if projection.is_exact_admission(admission, &none) {
        return Ok(false);
    }
    projection.validate_initial_append(admission)
}

/// The check that an admission belongs to a session.
pub open spec fn admission_session_verdict(
    session: SessionView,
    a: IntentPlanAdmissionV1View,
) -> Verdict {
    chain(
        plan_verdict(a.plan),
        check(
            a.plan.source_session_id == session.session_scope_id,
            "IntentPlan admission belongs to another durable session"@,
        ),
    )
}

/// Checks that an admission belongs to a session.
pub(crate) fn ensure_admission_matches_session(session: &Session, admission: &IntentPlanAdmissionV1) -> (r:
    Result<(), KernelError>)
    ensures
        verdict(r) == admission_session_verdict(session.deep_view(), admission.deep_view()),
{
    admission.plan().validate_contract()?;
    if admission.plan().source_session_id != session.session_scope_id {
        return reject("IntentPlan admission belongs to another durable session");
    }
    Ok(())
}

/// What the writer of an admission reports.
pub open spec fn write_outcome(a: IntentPlanAdmissionV1View, appended: bool) -> IntentAdmissionWriteOutcomeV1View {
    IntentAdmissionWriteOutcomeV1View {
        appended,
        stack_id: a.plan.stack_id,
        stack_version: a.plan.stack_version,
        plan_digest: a.plan.plan_digest,
    }
}

/// What the writer of an admission reports.
pub(crate) fn outcome_of(admission: &IntentPlanAdmissionV1, appended: bool) -> (r:
    IntentAdmissionWriteOutcomeV1)
    ensures
        r.deep_view() == write_outcome(admission.deep_view(), appended),
{
    IntentAdmissionWriteOutcomeV1 {
        appended,
        stack_id: admission.plan().stack_id.duplicate(),
        stack_version: admission.plan().stack_version,
        plan_digest: admission.plan().plan_digest.duplicate(),
    }
}

/// The binding of an admission to a task plan.
pub open spec fn task_binding(task_plan: TaskPlanEntryView) -> IntentTaskPlanBindingV1View {
    IntentTaskPlanBindingV1View {
        task_id: task_plan.task_id,
        task_plan_version: task_plan.plan_version,
    }
}

/// The checks of an admission with a task plan before the stream is looked at.
pub open spec fn task_admission_verdict(
    session: SessionView,
    a: IntentPlanAdmissionV1View,
    task_plan: TaskPlanEntryView,
) -> Verdict {
    chain(
        admission_session_verdict(session, a),
        chain(
            check(
                task_plan.status == TaskPlanStatus::Accepted,
                "IntentPlan task admission requires an accepted TaskPlan"@,
            ),
            chain(
                task_graph_verdict(task_plan),
                chain(
                    first_failure(steps_refs_verdicts(plan_refs(a.plan), task_plan.steps)),
                    chain(
                        admission_events_verdict(a, Some(task_binding(task_plan))),
                        check(
                            session.durable_records is Some,
                            "IntentPlan admission requires a durable session store"@,
                        ),
                    ),
                ),
            ),
        ),
    )
}

/// Where the state of a plan version stands in the state of a task.
pub open spec fn plan_state_place(plans: Seq<TaskPlanStateView>, version: u32) -> Option<int>
    decreases plans.len(),
{
    if plans.len() == 0 {
        None
    } else {
        match plan_state_place(plans.drop_last(), version) {
            Some(i) => Some(i),
            None => if plans.last().plan_version == version {
                Some(plans.len() - 1)
            } else {
                None
            },
        }
    }
}

/// Finds the state of a plan version in the state of a task.
pub(crate) fn find_plan_state(plans: &Vec<TaskPlanState>, version: u32) -> (r: Option<usize>)
    ensures
        match r {
            Some(i) => i < plans.len() && plan_state_place(plans.deep_view(), version) == Some(
                i as int,
            ),
            None => plan_state_place(plans.deep_view(), version) is None,
        },
{
    let ghost v = plans.deep_view();
    let mut found: Option<usize> = None;
    let mut i: usize = 0;
    assert(v.take(0) =~= Seq::empty());
    while i < plans.len()
        invariant
            i <= plans.len(),
            v == plans.deep_view(),
            match found {
                Some(k) => k < i && plan_state_place(v.take(i as int), version) == Some(k as int),
                None => plan_state_place(v.take(i as int), version) is None,
            },
        decreases plans.len() - i,
    {
        assert(v.take(i + 1).drop_last() =~= v.take(i as int));
        assert(v.take(i + 1).last() == plans@[i as int].deep_view());
        if found.is_none() && plans[i].plan_version == version {
            found = Some(i);
        }
        i = i + 1;
    }
    assert(v.take(i as int) =~= v);
    found
}

/// The live session holds a task plan.
pub open spec fn live_has(tasks: TaskStateProjectionView, t: TaskPlanEntryView) -> bool {
    match find_key::<TaskState>(tasks.tasks, t.task_id) {
        None => false,
        Some(i) => match plan_state_place(tasks.tasks[i].plans, t.plan_version) {
            None => false,
            Some(k) => {
                let p = tasks.tasks[i].plans[k];
                p.status == t.status && p.steps == t.steps && p.reason == t.reason
            },
        },
    }
}

/// Tells whether the live session holds a task plan.
pub(crate) fn live_session_has_task_plan(session: &Session, expected: &TaskPlanEntry) -> (r: bool)
    ensures
        r == live_has(session.deep_view().tasks, expected.deep_view()),
{
    match position_by_key(&session.tasks.tasks, expected.task_id.as_str()) {
        None => false,
        Some(i) => {
            let plans = &session.tasks.tasks[i].plans;
            assert(session.deep_view().tasks.tasks[i as int].plans == plans.deep_view());
            match find_plan_state(plans, expected.plan_version) {
                None => false,
                Some(k) => {
                    assert(plans.deep_view()[k as int] == plans@[k as int].deep_view());
                    plans[k].status == expected.status && plans[k].steps.same(&expected.steps)
                        && plans[k].reason.same(&expected.reason)
                },
            }
        },
    }
}

/// What is to be appended for an admission with a task plan.
pub open spec fn task_admission_append(
    session: SessionView,
    a: IntentPlanAdmissionV1View,
    task_plan: TaskPlanEntryView,
) -> Result<IntentAppendV1View, Seq<char>> {
    match task_admission_verdict(session, a, task_plan) {
        Err(m) => Err(m),
        Ok(_) => match task_append(
            session.durable_records->0,
            a,
            task_binding(task_plan),
            task_plan,
        ) {
            Err(m) => Err(m),
            Ok(appended) => Ok(
                IntentAppendV1View {
                    events: if appended {
                        admission_events(a, Some(task_binding(task_plan)))
                    } else {
                        Seq::empty()
                    },
                    entries: if appended {
                        seq![ControlEntryView::TaskPlan(task_plan)]
                    } else {
                        Seq::empty()
                    },
                    record_live: appended || !live_has(session.tasks, task_plan),
                    outcome: write_outcome(a, appended),
                },
            ),
        },
    }
}

/// Decides what is to be appended, in one batch and in this order, for an admission with a task plan:
/// the stack, the plan, its acceptance and, last of all, the task plan. Where the stream holds exactly
/// this admission already, there is nothing to append.
#[verifier::rlimit(40)]
pub fn append_task_intent_plan_admission(
    session: &Session,
    admission: &IntentPlanAdmissionV1,
    task_plan: TaskPlanEntry,
) -> (r: Result<IntentAppendV1, KernelError>)
    ensures
        outcome(r) == task_admission_append(
            session.deep_view(),
            admission.deep_view(),
            task_plan.deep_view(),
        ),
{
    ensure_admission_matches_session(session, admission)?;
    if task_plan.status != TaskPlanStatus::Accepted {
        return Err(KernelError::new("IntentPlan task admission requires an accepted TaskPlan"));
    }
    validate_task_graph(&task_plan)?;
    validate_task_plan_intent_refs(admission.plan(), &task_plan.steps)?;
    let binding = IntentTaskPlanBindingV1 {
        task_id: task_plan.task_id.duplicate(),
        task_plan_version: task_plan.plan_version,
    };
    let durable = admission.durable_events(Some(binding.duplicate()))?;
    let records = match &session.durable_records {
        None => {
            return Err(KernelError::new("IntentPlan admission requires a durable session store"));
        },
        Some(records) => records,
    };
    let appended = task_append_needed(records, admission, &binding, &task_plan)?;
    let record_live = appended || !live_session_has_task_plan(session, &task_plan);
    let ghost view = task_plan.deep_view();
    let none: Vec<IntentEventV1> = Vec::new();
    assert(none.deep_view() =~= Seq::empty());
    let events = if appended {
        durable
    } else {
        none
    };
    let entries = if appended {
        vec![ControlEntry::TaskPlan(task_plan)]
    } else {
        Vec::new()
    };
    proof {
        if appended {
            assert(entries.deep_view() =~= seq![ControlEntryView::TaskPlan(view)]);
        } else {
            assert(entries.deep_view() =~= Seq::empty());
        }
    }
    Ok(IntentAppendV1 { events, entries, record_live, outcome: outcome_of(admission, appended) })
}

/// The checks of an admission without a task plan before the stream is looked at.
pub open spec fn chat_admission_verdict(
    session: SessionView,
    a: IntentPlanAdmissionV1View,
) -> Verdict {
    chain(
        admission_session_verdict(session, a),
        chain(
            check(
                a.plan.kind == IntentPlanKind::UserDeclaredRoot && a.acceptance_kind
                    == IntentAcceptanceKind::UserDeclaredRootAdmission,
                "Chat admission only accepts the original user-declared root"@,
            ),
            chain(
                admission_events_verdict(a, None),
                check(
                    session.durable_records is Some,
                    "IntentPlan admission requires a durable session store"@,
                ),
            ),
        ),
    )
}

/// What is to be appended for an admission without a task plan.
pub open spec fn chat_admission_append(
    session: SessionView,
    a: IntentPlanAdmissionV1View,
) -> Result<IntentAppendV1View, Seq<char>> {
    match chat_admission_verdict(session, a) {
        Err(m) => Err(m),
        Ok(_) => match chat_append(session.durable_records->0, a) {
            Err(m) => Err(m),
            Ok(appended) => Ok(
                IntentAppendV1View {
                    events: if appended {
                        admission_events(a, None)
                    } else {
                        Seq::empty()
                    },
                    entries: Seq::empty(),
                    record_live: false,
                    outcome: write_outcome(a, appended),
                },
            ),
        },
    }
}

/// Decides what is to be appended for the root of a chat.
#[verifier::rlimit(40)]
pub fn append_chat_root_intent_admission(session: &Session, admission: &IntentPlanAdmissionV1) -> (r:
    Result<IntentAppendV1, KernelError>)
    ensures
        outcome(r) == chat_admission_append(session.deep_view(), admission.deep_view()),
{
    ensure_admission_matches_session(session, admission)?;
    if admission.plan().kind != IntentPlanKind::UserDeclaredRoot || admission.acceptance_kind()
        != IntentAcceptanceKind::UserDeclaredRootAdmission {
        return Err(KernelError::new("Chat admission only accepts the original user-declared root"));
    }
    let durable = admission.durable_events(None)?;
    let records = match &session.durable_records {
        None => {
            return Err(KernelError::new("IntentPlan admission requires a durable session store"));
        },
        Some(records) => records,
    };
    let appended = chat_append_needed(records, admission)?;
    let none: Vec<IntentEventV1> = Vec::new();
    assert(none.deep_view() =~= Seq::empty());
    let events = if appended {
        durable
    } else {
        none
    };
    let entries: Vec<ControlEntry> = Vec::new();
    assert(entries.deep_view() =~= Seq::empty());
    Ok(
        IntentAppendV1 {
            events,
            entries,
            record_live: false,
            outcome: outcome_of(admission, appended),
        },
    )
}

/// The stack of a session: a session without a durable stream has an empty one.
pub open spec fn session_stack(session: SessionView) -> Result<IntentStackProjectionV1View, Seq<char>> {
    match session.durable_records {
        None => Ok(empty_stack()),
        Some(records) => stack_of(records),
    }
}

impl Session {
    /// Replays the intent stack of the session.
    pub fn intent_stack_projection(&self) -> (r: Result<IntentStackProjectionV1, KernelError>)
        ensures
            outcome(r) == session_stack(self.deep_view()),
    {
        match &self.durable_records {
            None => Ok(IntentStackProjectionV1::default()),
            Some(records) => IntentStackProjectionV1::from_records(records),
        }
    }

    /// What the public sees of the intent stack of the session.
    pub fn public_intent_stack_state(&self) -> (r: Result<PublicIntentStackStateV1, KernelError>)
        ensures
            outcome(r) == session_public_state(self.deep_view()),
    {
        let records = match &self.durable_records {
            None => {
                return IntentStackProjectionV1::default().public_state();
            },
            Some(records) => records,
        };
        let admission = IntentStackProjectionV1::from_records(records)?;
        if admission.latest_accepted_plan().is_none() {
            return admission.public_state();
        }
        let lineage = IntentLineageProjectionV1::from_records(records, &admission, &self.tasks)?;
        admission.public_state_with_lineage(&lineage)
    }
}

/// What the public sees of the intent stack of a session.
pub open spec fn session_public_state(session: SessionView) -> Result<
    PublicIntentStackStateV1View,
    Seq<char>,
> {
    match session.durable_records {
        None => public_state_of(empty_stack(), None),
        Some(records) => match stack_of(records) {
            Err(m) => Err(m),
            Ok(p) => if latest_accepted(p) is None {
                public_state_of(p, None)
            } else {
                match lineage_of(records, p, session.tasks) {
                    Err(m) => Err(m),
                    Ok(l) => public_state_of(p, Some(l)),
                }
            },
        },
    }
}

// Laws.

/// What holds of the projection of every stream: accepted plans have the versions one, two, three and
/// so on, each was recorded with the same contents, recorded plans have the versions one, two, three
/// and so on, and each of them is valid and belongs to the stack of the stream.
pub open spec fn sound_stack(p: IntentStackProjectionV1View) -> bool {
    &&& forall|i: int|
        0 <= i < p.recorded_plans.len() ==> (#[trigger] p.recorded_plans[i]).stack_version == i + 1
    &&& forall|i: int|
        0 <= i < p.recorded_plans.len() ==> plan_verdict(#[trigger] p.recorded_plans[i]) is Ok && (
        p.header matches Some(h) && p.recorded_plans[i].stack_id == h.stack_id
            && p.recorded_plans[i].workspace_id == h.workspace_id)
    &&& forall|i: int|
        0 <= i < p.accepted_plans.len() ==> i < p.recorded_plans.len() && (
        #[trigger] p.accepted_plans[i]).plan == p.recorded_plans[i]
    &&& p.pending_task_acceptance matches Some(x) ==> p.accepted_plans.len()
        < p.recorded_plans.len() && x.accepted.plan
        == p.recorded_plans[p.accepted_plans.len() as int]
}

proof fn lemma_recorded_place(plans: Seq<IntentPlanV1View>, version: u64)
    requires
        forall|i: int| 0 <= i < plans.len() ==> (#[trigger] plans[i]).stack_version == i + 1,
    ensures
        recorded_place(plans, version) matches Some(i) ==> 0 <= i < plans.len() && version == i + 1,
    decreases plans.len(),
{
    if plans.len() > 0 {
        let rest = plans.drop_last();
        assert forall|i: int| 0 <= i < rest.len() implies (#[trigger] rest[i]).stack_version == i
            + 1 by {
            assert(rest[i] == plans[i]);
        }
        lemma_recorded_place(rest, version);
        assert(plans.last() == plans[plans.len() - 1]);
    }
}

/// Every record keeps the projection sound.
#[verifier::rlimit(60)]
pub proof fn law_records_keep_the_stack_sound(
    p: IntentStackProjectionV1View,
    record: SessionStreamRecordView,
)
    requires
        sound_stack(p),
        p.recorded_plans.len() < u64::MAX,
    ensures
        after_record(p, record) matches Ok(q) ==> sound_stack(q),
{
    if let RecordBodyView::Intent(IntentEventV1View::PlanAccepted { stack_version, .. }) =
        record.body {
        lemma_recorded_place(p.recorded_plans, stack_version);
        if p.accepted_plans.len() > 0 {
            let k = p.accepted_plans.len() - 1;
            assert(p.accepted_plans[k].plan == p.recorded_plans[k]);
            assert(p.recorded_plans[k].stack_version == k + 1);
        }
    }
    if p.recorded_plans.len() > 0 {
        let k = p.recorded_plans.len() - 1;
        assert(p.recorded_plans[k].stack_version == k + 1);
    }
    if let Ok(q) = after_record(p, record) {
        assert forall|i: int| 0 <= i < q.recorded_plans.len() implies (
        #[trigger] q.recorded_plans[i]).stack_version == i + 1 && plan_verdict(
            q.recorded_plans[i],
        ) is Ok && (q.header matches Some(h) && q.recorded_plans[i].stack_id == h.stack_id
            && q.recorded_plans[i].workspace_id == h.workspace_id) by {
            if i < p.recorded_plans.len() {
                assert(q.recorded_plans[i] == p.recorded_plans[i]);
            }
        }
        assert forall|i: int| 0 <= i < q.accepted_plans.len() implies i < q.recorded_plans.len()
            && (#[trigger] q.accepted_plans[i]).plan == q.recorded_plans[i] by {
            if i < p.accepted_plans.len() {
                assert(q.accepted_plans[i] == p.accepted_plans[i]);
                assert(p.accepted_plans[i].plan == p.recorded_plans[i]);
                assert(q.recorded_plans[i] == p.recorded_plans[i]);
            }
        }
    }
}

/// The projection of every stream is sound.
pub proof fn law_replayed_stacks_are_sound(records: Seq<SessionStreamRecordView>)
    requires
        records.len() < u64::MAX,
    ensures
        stack_of(records) matches Ok(p) ==> sound_stack(p) && p.recorded_plans.len()
            <= records.len(),
    decreases records.len(),
{
    if records.len() > 0 {
        law_replayed_stacks_are_sound(records.drop_last());
        if let Ok(p) = stack_of(records.drop_last()) {
            law_records_keep_the_stack_sound(p, records.last());
        }
    }
}

/// Accepted plans stay: whatever is read later, the plans accepted so far stay as they are.
pub proof fn law_accepted_plans_stay(
    p: IntentStackProjectionV1View,
    record: SessionStreamRecordView,
    i: int,
)
    requires
        0 <= i < p.accepted_plans.len(),
    ensures
        after_record(p, record) matches Ok(q) ==> i < q.accepted_plans.len() && q.accepted_plans[i]
            == p.accepted_plans[i],
{
}

/// A record that was read already changes nothing: replaying the stream again from its start leaves
/// the projection as it is.
pub proof fn law_reading_again_changes_nothing(
    p: IntentStackProjectionV1View,
    record: SessionStreamRecordView,
)
    requires
        already_read(p, record),
    ensures
        after_record(p, record) == Ok::<IntentStackProjectionV1View, Seq<char>>(p),
{
}

/// A plan whose task plan does not follow never becomes accepted: the only record that completes a
/// pending acceptance is its task plan, in the very next place of the stream.
pub proof fn law_pending_acceptance_needs_its_task_plan(
    p: IntentStackProjectionV1View,
    record: SessionStreamRecordView,
)
    requires
        p.pending_task_acceptance is Some,
        !already_read(p, record),
        after_record(p, record) is Ok,
    ensures
        ({
            let accepted = p.pending_task_acceptance->0.accepted;
            &&& record.body matches RecordBodyView::Control(ControlEntryView::TaskPlan(t))
                && accepted.task_plan_binding == Some(task_binding(t)) && t.status
                == TaskPlanStatus::Accepted
            &&& record.stream_sequence == next_number(accepted.accepted_stream_sequence)
            &&& after_record(p, record)->Ok_0.accepted_plans == p.accepted_plans.push(accepted)
        }),
{
    match record.body {
        RecordBodyView::Control(ControlEntryView::TaskPlan(t)) => {
            let b = p.pending_task_acceptance->0.accepted.task_plan_binding->0;
            assert(b == task_binding(t));
        },
        _ => {},
    }
}

/// A record is the task plan that an acceptance waits for, in the very next place of the stream.
pub open spec fn is_awaited(
    accepted: AcceptedIntentPlanProjectionV1View,
    record: SessionStreamRecordView,
) -> bool {
    record.body matches RecordBodyView::Control(ControlEntryView::TaskPlan(t)) && pending_verdict(
        accepted,
        t,
        record.stream_sequence,
    ) is Ok
}

/// A stream that ends in an acceptance with a task plan has not accepted the plan: the acceptance
/// waits, the latest accepted plan is the one before, and the public sees nothing. Once its task plan
/// stands right behind it, the plan is the latest accepted one and nothing waits. A stream that goes on
/// in any other way is refused.
pub proof fn law_bound_acceptances_wait_for_their_task_plans(
    records: Seq<SessionStreamRecordView>,
    accepted: SessionStreamRecordView,
    next: SessionStreamRecordView,
    lineage: Option<IntentLineageProjectionV1View>,
)
    requires
        accepted.body matches RecordBodyView::Intent(
            IntentEventV1View::PlanAccepted { task_plan_binding, .. },
        ) && task_plan_binding is Some,
        stack_of(records) matches Ok(p) && !already_read(p, accepted),
        stack_of(records.push(accepted)) is Ok,
        accepted.stream_sequence < next.stream_sequence,
    ensures
        ({
            let before = stack_of(records)->Ok_0;
            let waiting = stack_of(records.push(accepted))->Ok_0;
            let after = stack_of(records.push(accepted).push(next));
            let plan = waiting.pending_task_acceptance->0.accepted;
            &&& waiting.pending_task_acceptance is Some
            &&& plan.task_plan_binding
                == accepted.body->Intent_0->PlanAccepted_task_plan_binding
            &&& plan.accepted_event_id == accepted.event_id
            &&& latest_accepted(waiting) == latest_accepted(before)
            &&& public_state_of(waiting, lineage) is Err
            &&& after is Ok <==> is_awaited(plan, next)
            &&& after matches Ok(q) ==> latest_accepted(q) == Some(plan)
                && q.pending_task_acceptance is None
        }),
{
    let one = records.push(accepted);
    assert(one.drop_last() =~= records);
    assert(one.push(next).drop_last() =~= one);
    let p = stack_of(records)->Ok_0;
    assert(stack_of(one) == after_record(p, accepted));
    let q = stack_of(one)->Ok_0;
    assert(stack_of(one.push(next)) == after_record(q, next));
    let e = accepted.body->Intent_0;
    assert(after_intent_event(p, accepted, e) is Ok);
}

/// Appending is idempotent: where the stream holds exactly the admission and its task plan, nothing
/// is appended.
pub proof fn law_exact_admission_is_not_appended_again(
    records: Seq<SessionStreamRecordView>,
    a: IntentPlanAdmissionV1View,
    task_plan: TaskPlanEntryView,
)
    requires
        stack_of(records) matches Ok(p) && exact_admission(p, a, Some(task_binding(task_plan))),
        durable_task_plan_of(records, task_binding(task_plan)) == Ok::<
            Option<TaskPlanEntryView>,
            Seq<char>,
        >(Some(task_plan)),
    ensures
        task_append(records, a, task_binding(task_plan), task_plan) == Ok::<bool, Seq<char>>(
            false,
        ),
{
}

/// Whatever is admitted can be accepted: a root with a task plan or without, a decomposition with one.
/// The turn of the authority is a bounded identity, as it is of every authority that was made.
pub proof fn law_admitted_plans_can_be_accepted(
    context: IntentAdmissionContextV1View,
    root: UserDeclaredIntentV1View,
    proposal: IntentPlanProposalV1View,
    authority: IntentAcceptanceAuthorityV1View,
    bound: bool,
)
    requires
        admission_identity_verdict(
            "intent acceptance source turn id"@,
            authority.source_turn_id,
        ) is Ok,
    ensures
        root_admission(context, root, authority) matches Ok(a) ==> acceptance_verdict(
            a.plan,
            a.acceptance_kind,
            a.source_turn_id,
            bound,
        ) is Ok,
        suggested_admission(context, proposal, authority) matches Ok(a) ==> acceptance_verdict(
            a.plan,
            a.acceptance_kind,
            a.source_turn_id,
            true,
        ) is Ok,
{
    if let Ok(a) = suggested_admission(context, proposal, authority) {
        law_admitted_plans_are_valid(context, root, proposal, authority);
        let all = confirmed_source_verdicts(a.plan.intents, a.source_turn_id);
        assert forall|i: int| 0 <= i < all.len() implies (#[trigger] all[i]) is Ok by {
            assert(a.plan.intents[i] == suggested_definitions(context, proposal)[i]);
        }
        lemma_all_pass(all);
        assert(a.plan.intents.len() > 0) by {
            reveal(plan_shape_verdict);
        }
    }
}

/// What is appended for an admission is what a replay shows. Without a task plan the plan is accepted;
/// with one, its acceptance waits for it.
#[verifier::rlimit(60)]
proof fn lemma_admission_replays(
    records: Seq<SessionStreamRecordView>,
    p: IntentStackProjectionV1View,
    a: IntentPlanAdmissionV1View,
    binding: Option<IntentTaskPlanBindingV1View>,
    created: SessionStreamRecordView,
    recorded: SessionStreamRecordView,
    accepted: SessionStreamRecordView,
)
    requires
        stack_of(records) == Ok::<IntentStackProjectionV1View, Seq<char>>(p),
        initial_append(p, a) == Ok::<bool, Seq<char>>(true),
        admission_events_verdict(a, binding) is Ok,
        acceptance_verdict(a.plan, a.acceptance_kind, a.source_turn_id, binding is Some) is Ok,
        created.body == RecordBodyView::Intent(stack_created_event(a.plan)),
        recorded.body == RecordBodyView::Intent(plan_recorded_event(a.plan)),
        accepted.body == RecordBodyView::Intent(plan_accepted_event(a, binding)),
        created.session_id == a.plan.source_session_id,
        recorded.session_id == a.plan.source_session_id,
        p.cursor matches Some(c) ==> c.stream_sequence < created.stream_sequence,
        created.stream_sequence < recorded.stream_sequence < accepted.stream_sequence,
    ensures
        stack_of(records.push(created).push(recorded).push(accepted)) matches Ok(q) && ({
            let state = accepted_state(
                a.plan,
                a.acceptance_kind,
                a.source_turn_id,
                a.acceptance_authority_id,
                binding,
                accepted,
            );
            &&& q.cursor == Some(cursor_at(accepted))
            &&& binding is None ==> q.accepted_plans == seq![state] && q.pending_task_acceptance
                is None
            &&& binding is Some ==> q.accepted_plans.len() == 0 && q.pending_task_acceptance
                == Some(PendingTaskIntentAcceptanceV1View { accepted: state })
        }),
{
    let one = records.push(created);
    let two = one.push(recorded);
    let three = two.push(accepted);
    assert(one.drop_last() =~= records);
    assert(two.drop_last() =~= one);
    assert(three.drop_last() =~= two);
    assert(plan_verdict(a.plan) is Ok) by {
        assert(event_verdict(plan_recorded_event(a.plan)) is Ok);
        reveal(event_payload_verdict);
    }
    let p1 = after_record(p, created)->Ok_0;
    assert(stack_of(one) == Ok::<IntentStackProjectionV1View, Seq<char>>(p1));
    assert(recorded_place(p1.recorded_plans, a.plan.stack_version) is None);
    let p2 = after_record(p1, recorded)->Ok_0;
    assert(after_intent_event(p1, recorded, plan_recorded_event(a.plan)) is Ok);
    assert(stack_of(two) == Ok::<IntentStackProjectionV1View, Seq<char>>(p2));
    assert(p2.recorded_plans =~= seq![a.plan]);
    assert(p2.recorded_plans.drop_last() =~= Seq::empty());
    assert(recorded_place(p2.recorded_plans, a.plan.stack_version) == Some(0int)) by {
        reveal_with_fuel(recorded_place, 2);
    }
    assert(accepted_place(p2.accepted_plans, a.plan.stack_version) is None);
    assert(after_intent_event(p2, accepted, plan_accepted_event(a, binding)) is Ok);
    let q = after_record(p2, accepted)->Ok_0;
    assert(stack_of(three) == Ok::<IntentStackProjectionV1View, Seq<char>>(q));
    assert(p2.accepted_plans =~= Seq::empty());
}

/// The plan that a chat admits is the plan that a replay shows as accepted, with its authority, and it
/// is the only one.
pub proof fn law_chat_admissions_are_replayed(
    session: SessionView,
    a: IntentPlanAdmissionV1View,
    created: SessionStreamRecordView,
    recorded: SessionStreamRecordView,
    accepted: SessionStreamRecordView,
)
    requires
        acceptance_verdict(a.plan, a.acceptance_kind, a.source_turn_id, false) is Ok,
        chat_admission_append(session, a) matches Ok(made) && made.events.len() == 3 && created.body
            == RecordBodyView::Intent(made.events[0]) && recorded.body == RecordBodyView::Intent(
            made.events[1],
        ) && accepted.body == RecordBodyView::Intent(made.events[2]),
        created.session_id == session.session_scope_id,
        recorded.session_id == session.session_scope_id,
        stack_of(session.durable_records->0)->Ok_0.cursor matches Some(c) ==> c.stream_sequence
            < created.stream_sequence,
        created.stream_sequence < recorded.stream_sequence < accepted.stream_sequence,
    ensures
        stack_of(
            session.durable_records->0.push(created).push(recorded).push(accepted),
        ) matches Ok(q) && q.accepted_plans == seq![
            accepted_state(
                a.plan,
                a.acceptance_kind,
                a.source_turn_id,
                a.acceptance_authority_id,
                None,
                accepted,
            ),
        ] && exact_admission(q, a, None),
{
    let records = session.durable_records->0;
    let p = stack_of(records)->Ok_0;
    lemma_admission_replays(records, p, a, None, created, recorded, accepted);
}

/// The plan that is admitted with a task plan is the plan that a replay shows as accepted, once the
/// task plan stands right behind its acceptance, and it is bound to that task plan.
pub proof fn law_task_admissions_are_replayed(
    session: SessionView,
    a: IntentPlanAdmissionV1View,
    task_plan: TaskPlanEntryView,
    created: SessionStreamRecordView,
    recorded: SessionStreamRecordView,
    accepted: SessionStreamRecordView,
    planned: SessionStreamRecordView,
)
    requires
        acceptance_verdict(a.plan, a.acceptance_kind, a.source_turn_id, true) is Ok,
        task_admission_append(session, a, task_plan) matches Ok(made) && made.events.len() == 3
            && made.entries.len() == 1 && created.body == RecordBodyView::Intent(made.events[0])
            && recorded.body == RecordBodyView::Intent(made.events[1]) && accepted.body
            == RecordBodyView::Intent(made.events[2]) && planned.body == RecordBodyView::Control(
            made.entries[0],
        ),
        created.session_id == session.session_scope_id,
        recorded.session_id == session.session_scope_id,
        stack_of(session.durable_records->0)->Ok_0.cursor matches Some(c) ==> c.stream_sequence
            < created.stream_sequence,
        created.stream_sequence < recorded.stream_sequence < accepted.stream_sequence,
        planned.stream_sequence == accepted.stream_sequence + 1,
    ensures
        stack_of(
            session.durable_records->0.push(created).push(recorded).push(accepted).push(planned),
        ) matches Ok(q) && q.accepted_plans == seq![
            accepted_state(
                a.plan,
                a.acceptance_kind,
                a.source_turn_id,
                a.acceptance_authority_id,
                Some(task_binding(task_plan)),
                accepted,
            ),
        ] && exact_admission(q, a, Some(task_binding(task_plan))),
{
    let records = session.durable_records->0;
    let p = stack_of(records)->Ok_0;
    let binding = Some(task_binding(task_plan));
    lemma_admission_replays(records, p, a, binding, created, recorded, accepted);
    let three = records.push(created).push(recorded).push(accepted);
    assert(three.push(planned).drop_last() =~= three);
    let q = stack_of(three)->Ok_0;
    assert(q.accepted_plans =~= Seq::empty());
}

/// The accepted plan that came last is the one of its version.
pub proof fn lemma_latest_version(p: IntentStackProjectionV1View)
    requires
        sound_stack(p),
    ensures
        latest_accepted(p) matches Some(accepted) ==> accepted_version(
            p,
            accepted.plan.stack_version,
        ) == Some(accepted),
{
    if let Some(accepted) = latest_accepted(p) {
        let rest = p.accepted_plans.drop_last();
        lemma_accepted_place(rest, accepted.plan.stack_version);
        if let Some(i) = accepted_place(rest, accepted.plan.stack_version) {
            assert(p.accepted_plans[i].plan == p.recorded_plans[i]);
            assert(p.accepted_plans[rest.len() as int].plan == p.recorded_plans[rest.len() as int]);
        }
    }
}

} // verus!
