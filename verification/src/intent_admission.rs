//! Admission of intent plans: who may accept what, which identities the runtime gives, and how the
//! steps of task plans are bound to intents.

use vstd::prelude::*;

use crate::digest::{sha256_hex_of, sha256_lower_hex};
use crate::intent::{
    is_stable_identity, zero_digest_text, IntentAcceptanceCriterionV1,
    IntentAcceptanceCriterionV1View, IntentAcceptanceKind, IntentCriterionId, IntentDefinitionV1,
    IntentDefinitionV1View, IntentDigest, IntentEventV1, IntentEventV1View, IntentId,
    IntentPlanKind, IntentPlanProposalV1, IntentPlanProposalV1View, IntentPlanV1, IntentPlanV1View,
    IntentProposalCriterionV1, IntentProposalCriterionV1View, IntentProposalUnitV1View,
    IntentSourceV1, IntentSourceV1View, IntentStackId, IntentStackVersion, IntentTaskPlanBindingV1,
    IntentTaskPlanBindingV1View, IntentVersionRef, IntentVersionRefView,
    INTENT_CONTRACT_SCHEMA_VERSION, MAX_INTENT_CRITERIA, MAX_INTENT_STATEMENT_BYTES,
    MAX_INTENT_TITLE_BYTES,
};
use crate::intent_contract::{
    criterion_aliases, lemma_plan_digest_is_left_out, lemma_repeats_is_seen, plan_digest_of,
    plan_shape_verdict, plan_verdict, proposal_verdict,
};
use crate::intent_event_contract::event_verdict;
use crate::intent_state::{
    IntentAdmissionContextV1, IntentAdmissionContextV1View, ResolvedIntentAlias,
    ResolvedIntentAliasView, TaskStepIntentAliasBindingV1, TaskStepIntentAliasBindingV1View,
    UserDeclaredIntentV1, UserDeclaredIntentV1View,
};
use crate::lineage_facts::proposal;
use crate::records::{
    TaskPlanEntry, TaskPlanEntryView, TaskStepMode, TaskStepSpec, TaskStepSpecView,
};
use crate::text::{
    all_of, blank, byte_len, byte_length, decimal, decimal_text, every, in_class, is_blank, joined,
    lemma_ascii_byte_len, text_precedes, trim, trimmed, CharClass,
};
use crate::value::{
    chain, check, find_key, first_failure, holds, lemma_failures_begin, lemma_failures_end,
    lemma_failures_step, lemma_push_view, outcome, position_by_key, reject, repeated_at, repeats,
    verdict, yields, KernelError, Value, Verdict,
};

verus! {

/// The alias of the one root that a user declares.
pub const USER_DECLARED_ROOT_INTENT_ALIAS: &'static str = "root";

/// Non-serializable host authority proving that acceptance did not come from provider JSON.
#[derive(Debug, Clone, PartialEq, Eq)]
pub struct IntentAcceptanceAuthorityV1 {
    kind: IntentAcceptanceKind,
    source_turn_id: String,
    authority_event_id: String,
    proposal_digest: Option<IntentDigest>,
}

/// What a [`IntentAcceptanceAuthorityV1`] holds.
#[verifier::ext_equal]
pub struct IntentAcceptanceAuthorityV1View {
    pub kind: IntentAcceptanceKind,
    pub source_turn_id: Seq<char>,
    pub authority_event_id: Seq<char>,
    pub proposal_digest: Option<Seq<char>>,
}

impl DeepView for IntentAcceptanceAuthorityV1 {
    type V = IntentAcceptanceAuthorityV1View;

    closed spec fn deep_view(&self) -> IntentAcceptanceAuthorityV1View {
        IntentAcceptanceAuthorityV1View {
            kind: self.kind.deep_view(),
            source_turn_id: self.source_turn_id.deep_view(),
            authority_event_id: self.authority_event_id.deep_view(),
            proposal_digest: self.proposal_digest.deep_view(),
        }
    }
}

impl Value for IntentAcceptanceAuthorityV1 {
    fn same(&self, other: &Self) -> (r: bool) {
        self.kind.same(&other.kind)
            && self.source_turn_id.same(&other.source_turn_id)
            && self.authority_event_id.same(&other.authority_event_id)
            && self.proposal_digest.same(&other.proposal_digest)
    }

    fn duplicate(&self) -> (r: Self) {
        IntentAcceptanceAuthorityV1 {
            kind: self.kind.duplicate(),
            source_turn_id: self.source_turn_id.duplicate(),
            authority_event_id: self.authority_event_id.duplicate(),
            proposal_digest: self.proposal_digest.duplicate(),
        }
    }
}

/// Fully resolved, immutable IntentPlan plus its independent acceptance authority.
#[derive(Debug, Clone, PartialEq, Eq)]
pub struct IntentPlanAdmissionV1 {
    plan: IntentPlanV1,
    acceptance_kind: IntentAcceptanceKind,
    source_turn_id: String,
    acceptance_authority_id: String,
    resolved_aliases: Vec<ResolvedIntentAlias>,
}

/// What a [`IntentPlanAdmissionV1`] holds.
#[verifier::ext_equal]
pub struct IntentPlanAdmissionV1View {
    pub plan: IntentPlanV1View,
    pub acceptance_kind: IntentAcceptanceKind,
    pub source_turn_id: Seq<char>,
    pub acceptance_authority_id: Seq<char>,
    pub resolved_aliases: Seq<ResolvedIntentAliasView>,
}

impl DeepView for IntentPlanAdmissionV1 {
    type V = IntentPlanAdmissionV1View;

    closed spec fn deep_view(&self) -> IntentPlanAdmissionV1View {
        IntentPlanAdmissionV1View {
            plan: self.plan.deep_view(),
            acceptance_kind: self.acceptance_kind.deep_view(),
            source_turn_id: self.source_turn_id.deep_view(),
            acceptance_authority_id: self.acceptance_authority_id.deep_view(),
            resolved_aliases: self.resolved_aliases.deep_view(),
        }
    }
}

impl Value for IntentPlanAdmissionV1 {
    fn same(&self, other: &Self) -> (r: bool) {
        self.plan.same(&other.plan)
            && self.acceptance_kind.same(&other.acceptance_kind)
            && self.source_turn_id.same(&other.source_turn_id)
            && self.acceptance_authority_id.same(&other.acceptance_authority_id)
            && self.resolved_aliases.same(&other.resolved_aliases)
    }

    fn duplicate(&self) -> (r: Self) {
        IntentPlanAdmissionV1 {
            plan: self.plan.duplicate(),
            acceptance_kind: self.acceptance_kind.duplicate(),
            source_turn_id: self.source_turn_id.duplicate(),
            acceptance_authority_id: self.acceptance_authority_id.duplicate(),
            resolved_aliases: self.resolved_aliases.duplicate(),
        }
    }
}

// Identities and texts.

/// The check of an identity at admission.
pub open spec fn admission_identity_verdict(label: Seq<char>, value: Seq<char>) -> Verdict {
    let t = trimmed(value);
    check(
        t.len() > 0 && byte_len(t) <= 256 && every(CharClass::Printable, t),
        label + " is invalid"@,
    )
}

pub(crate) fn validate_admission_identity(label: &str, value: &str) -> (r: Result<(), KernelError>)
    ensures
        verdict(r) == admission_identity_verdict(label@, value@),
{
    let t = trim(value);
    if t.as_str().is_empty() || byte_length(t.as_str()) > 256 || !all_of(
        CharClass::Printable,
        t.as_str(),
    ) {
        return Err(KernelError { message: joined(label, " is invalid") });
    }
    Ok(())
}

/// The check of a text at admission.
pub open spec fn admission_text_verdict(label: Seq<char>, value: Seq<char>, max: nat) -> Verdict {
    check(
        !is_blank(value) && byte_len(value) <= max && every(CharClass::Prose, value),
        label + " is invalid"@,
    )
}

fn validate_admission_text(label: &str, value: &str, max_bytes: usize) -> (r: Result<
    (),
    KernelError,
>)
    ensures
        verdict(r) == admission_text_verdict(label@, value@, max_bytes as nat),
{
    if blank(value) || byte_length(value) > max_bytes || !all_of(CharClass::Prose, value) {
        return Err(KernelError { message: joined(label, " is invalid") });
    }
    Ok(())
}

/// The check of an alias that a draft uses.
pub open spec fn runtime_alias_verdict(label: Seq<char>, value: Seq<char>) -> Verdict {
    check(is_stable_identity(value), label + " is not a stable local alias"@)
}

fn validate_runtime_alias(label: &str, value: &str) -> (r: Result<(), KernelError>)
    ensures
        verdict(r) == runtime_alias_verdict(label@, value@),
{
    if value.is_empty() || byte_length(value) > 128 || !all_of(CharClass::ScopedName, value) {
        return Err(KernelError { message: joined(label, " is not a stable local alias") });
    }
    Ok(())
}

impl IntentAdmissionContextV1 {
    /// The context of the first plan of a stack.
    pub fn initial(stack_id: IntentStackId, workspace_id: String, source_session_id: String) -> (r:
        Result<Self, KernelError>)
        ensures
            outcome(r) == yields(
                chain(
                    admission_identity_verdict("intent admission workspace id"@, workspace_id@),
                    admission_identity_verdict(
                        "intent admission source session id"@,
                        source_session_id@,
                    ),
                ),
                IntentAdmissionContextV1View {
                    stack_id: stack_id.deep_view(),
                    stack_version: 1,
                    workspace_id: workspace_id@,
                    source_session_id: source_session_id@,
                },
            ),
    {
        validate_admission_identity("intent admission workspace id", workspace_id.as_str())?;
        validate_admission_identity(
            "intent admission source session id",
            source_session_id.as_str(),
        )?;
        let stack_version = IntentStackVersion::new(1)?;
        Ok(IntentAdmissionContextV1 { stack_id, stack_version, workspace_id, source_session_id })
    }
}

/// The checks of the identities behind an acceptance.
pub open spec fn authority_verdict(source_turn_id: Seq<char>, authority_event_id: Seq<char>) -> Verdict {
    chain(
        admission_identity_verdict("intent acceptance source turn id"@, source_turn_id),
        admission_identity_verdict("intent acceptance authority event id"@, authority_event_id),
    )
}

impl IntentAcceptanceAuthorityV1 {
    /// The authority of the user turn that declares a root.
    pub fn user_declared_root(source_turn_id: String, authority_event_id: String) -> (r: Result<
        Self,
        KernelError,
    >)
        ensures
            outcome(r) == yields(
                authority_verdict(source_turn_id@, authority_event_id@),
                IntentAcceptanceAuthorityV1View {
                    kind: IntentAcceptanceKind::UserDeclaredRootAdmission,
                    source_turn_id: source_turn_id@,
                    authority_event_id: authority_event_id@,
                    proposal_digest: None,
                },
            ),
    {
        Self::new(
            IntentAcceptanceKind::UserDeclaredRootAdmission,
            source_turn_id,
            authority_event_id,
            None,
        )
    }

    /// The authority of a user who confirms one exact proposal.
    pub fn explicit_user_confirmation(
        source_turn_id: String,
        authority_event_id: String,
        proposal_digest: IntentDigest,
    ) -> (r: Result<Self, KernelError>)
        ensures
            outcome(r) == yields(
                authority_verdict(source_turn_id@, authority_event_id@),
                IntentAcceptanceAuthorityV1View {
                    kind: IntentAcceptanceKind::ExplicitUserConfirmation,
                    source_turn_id: source_turn_id@,
                    authority_event_id: authority_event_id@,
                    proposal_digest: Some(proposal_digest.deep_view()),
                },
            ),
    {
        Self::new(
            IntentAcceptanceKind::ExplicitUserConfirmation,
            source_turn_id,
            authority_event_id,
            Some(proposal_digest),
        )
    }

    fn new(
        kind: IntentAcceptanceKind,
        source_turn_id: String,
        authority_event_id: String,
        proposal_digest: Option<IntentDigest>,
    ) -> (r: Result<Self, KernelError>)
        ensures
            outcome(r) == yields(
                authority_verdict(source_turn_id@, authority_event_id@),
                IntentAcceptanceAuthorityV1View {
                    kind,
                    source_turn_id: source_turn_id@,
                    authority_event_id: authority_event_id@,
                    proposal_digest: proposal_digest.deep_view(),
                },
            ),
    {
        validate_admission_identity("intent acceptance source turn id", source_turn_id.as_str())?;
        validate_admission_identity(
            "intent acceptance authority event id",
            authority_event_id.as_str(),
        )?;
        Ok(
            IntentAcceptanceAuthorityV1 {
                kind,
                source_turn_id,
                authority_event_id,
                proposal_digest,
            },
        )
    }
}

// Identities that the runtime gives.

/// The text behind an identity that the runtime gives: where it belongs and what it stands for, with
/// zero characters between the parts.
pub open spec fn runtime_seed(
    context: IntentAdmissionContextV1View,
    namespace: Seq<char>,
    local_key: Seq<char>,
) -> Seq<char> {
    "sigil.intent.admission.v1"@.push('\0') + context.stack_id.push('\0') + decimal(
        context.stack_version as nat,
    ).push('\0') + context.source_session_id.push('\0') + namespace.push('\0') + local_key
}

/// An identity that the runtime gives.
pub open spec fn runtime_id_text(
    prefix: Seq<char>,
    context: IntentAdmissionContextV1View,
    namespace: Seq<char>,
    local_key: Seq<char>,
) -> Seq<char> {
    prefix + "-"@ + sha256_hex_of(
        vstd::utf8::encode_utf8(runtime_seed(context, namespace, local_key)),
    )
}

/// The identity that the runtime gives an intent.
pub open spec fn intent_id_text(
    context: IntentAdmissionContextV1View,
    namespace: Seq<char>,
    local_key: Seq<char>,
) -> Seq<char> {
    runtime_id_text("intent"@, context, namespace, local_key)
}

/// The identity that the runtime gives a criterion of an intent.
pub open spec fn criterion_id_text(
    context: IntentAdmissionContextV1View,
    intent_id: Seq<char>,
    local_key: Seq<char>,
) -> Seq<char> {
    runtime_id_text("criterion"@, context, intent_id, local_key)
}

/// A short name, a dash and a SHA-256 digest make a stable identity.
pub proof fn lemma_named_digest_is_stable(prefix: Seq<char>, hex: Seq<char>)
    requires
        prefix.len() <= 32,
        every(CharClass::ScopedName, prefix),
        hex.len() <= 64,
        every(CharClass::LowerHex, hex),
    ensures
        is_stable_identity(prefix + "-"@ + hex),
{
    let s = prefix + "-"@ + hex;
    reveal_strlit("-");
    assert(s.len() == prefix.len() + 1 + hex.len());
    assert forall|i: int| 0 <= i < s.len() implies in_class(CharClass::ScopedName, #[trigger] s[i]) by {
        if i < prefix.len() {
            assert(s[i] == prefix[i]);
        } else if i == prefix.len() {
            assert(s[i] == '-');
        } else {
            let k = i - prefix.len() - 1;
            assert(s[i] == hex[k]);
            assert(in_class(CharClass::LowerHex, hex[k]));
        }
    }
    lemma_ascii_byte_len(s);
}

fn runtime_id(
    prefix: &str,
    context: &IntentAdmissionContextV1,
    namespace: &str,
    local_key: &str,
) -> (r: String)
    requires
        prefix@.len() <= 32,
        every(CharClass::ScopedName, prefix@),
    ensures
        r@ == runtime_id_text(prefix@, context.deep_view(), namespace@, local_key@),
        is_stable_identity(r@),
{
    let mut seed = "sigil.intent.admission.v1".to_owned();
    seed.push('\0');
    seed.append(context.stack_id.as_str());
    seed.push('\0');
    let version = decimal_text(context.stack_version.get());
    seed.append(version.as_str());
    seed.push('\0');
    seed.append(context.source_session_id.as_str());
    seed.push('\0');
    seed.append(namespace);
    seed.push('\0');
    seed.append(local_key);
    assert(seed@ =~= runtime_seed(context.deep_view(), namespace@, local_key@));
    let hex = sha256_lower_hex(seed.as_str().as_bytes());
    let mut r = joined(prefix, "-");
    r.append(hex.as_str());
    proof {
        lemma_named_digest_is_stable(prefix@, hex@);
    }
    r
}

/// The identity that the runtime gives an intent.
pub(crate) fn runtime_intent_id(
    context: &IntentAdmissionContextV1,
    namespace: &str,
    local_key: &str,
) -> (r: IntentId)
    ensures
        r.deep_view() == intent_id_text(context.deep_view(), namespace@, local_key@),
{
    proof {
        reveal_strlit("intent");
    }
    let text = runtime_id("intent", context, namespace, local_key);
    match IntentId::new(text) {
        Ok(id) => id,
        Err(_) => {
            assert(false);
            vstd::pervasive::unreached()
        },
    }
}

/// The identity that the runtime gives a criterion.
pub(crate) fn runtime_criterion_id(
    context: &IntentAdmissionContextV1,
    intent_id: &str,
    local_key: &str,
) -> (r: IntentCriterionId)
    ensures
        r.deep_view() == criterion_id_text(context.deep_view(), intent_id@, local_key@),
{
    proof {
        reveal_strlit("criterion");
    }
    let text = runtime_id("criterion", context, intent_id, local_key);
    match IntentCriterionId::new(text) {
        Ok(id) => id,
        Err(_) => {
            assert(false);
            vstd::pervasive::unreached()
        },
    }
}

/// A criterion with the identity that the runtime gives it.
pub open spec fn resolved_criterion(
    context: IntentAdmissionContextV1View,
    intent_id: Seq<char>,
    c: IntentProposalCriterionV1View,
) -> IntentAcceptanceCriterionV1View {
    IntentAcceptanceCriterionV1View {
        criterion_id: criterion_id_text(context, intent_id, c.criterion_alias),
        statement: c.statement,
        required: c.required,
    }
}

/// Criteria with the identities that the runtime gives them.
pub open spec fn resolved_criteria(
    context: IntentAdmissionContextV1View,
    intent_id: Seq<char>,
    criteria: Seq<IntentProposalCriterionV1View>,
) -> Seq<IntentAcceptanceCriterionV1View> {
    Seq::new(criteria.len(), |i: int| resolved_criterion(context, intent_id, criteria[i]))
}

/// Gives criteria their identities.
pub(crate) fn resolve_criteria(
    context: &IntentAdmissionContextV1,
    intent_id: &str,
    criteria: &Vec<IntentProposalCriterionV1>,
) -> (r: Vec<IntentAcceptanceCriterionV1>)
    ensures
        r.deep_view() == resolved_criteria(context.deep_view(), intent_id@, criteria.deep_view()),
{
    let ghost all = resolved_criteria(context.deep_view(), intent_id@, criteria.deep_view());
    let mut r: Vec<IntentAcceptanceCriterionV1> = Vec::new();
    let mut i: usize = 0;
    while i < criteria.len()
        invariant
            i <= criteria.len(),
            all == resolved_criteria(context.deep_view(), intent_id@, criteria.deep_view()),
            r.deep_view() =~= all.take(i as int),
        decreases criteria.len() - i,
    {
        assert(criteria.deep_view()[i as int] == criteria@[i as int].deep_view());
        let c = IntentAcceptanceCriterionV1 {
            criterion_id: runtime_criterion_id(
                context,
                intent_id,
                criteria[i].criterion_alias.as_str(),
            ),
            statement: criteria[i].statement.duplicate(),
            required: criteria[i].required,
        };
        assert(c.deep_view() == all[i as int]);
        let ghost before = r;
        r.push(c);
        proof {
            lemma_push_view(before, c, r);
        }
        i = i + 1;
    }
    r
}

// Roots that a user declares.

/// The check of the criterion at `i` of a root.
pub open spec fn root_criterion_verdict(
    criteria: Seq<IntentProposalCriterionV1View>,
    i: int,
) -> Verdict {
    chain(
        runtime_alias_verdict("intent root criterion alias"@, criteria[i].criterion_alias),
        chain(
            admission_text_verdict(
                "intent root criterion"@,
                criteria[i].statement,
                MAX_INTENT_STATEMENT_BYTES as nat,
            ),
            check(
                !repeats(criterion_aliases(criteria), i),
                "user-declared root contains duplicate criterion aliases"@,
            ),
        ),
    )
}

/// The checks of all criteria of a root.
pub open spec fn root_criteria_verdicts(criteria: Seq<IntentProposalCriterionV1View>) -> Seq<
    Verdict,
> {
    Seq::new(criteria.len(), |i: int| root_criterion_verdict(criteria, i))
}

/// The checks of a root.
pub open spec fn root_verdict(root: UserDeclaredIntentV1View) -> Verdict {
    chain(
        admission_text_verdict("intent root title"@, root.title, MAX_INTENT_TITLE_BYTES as nat),
        chain(
            admission_text_verdict(
                "intent root statement"@,
                root.statement,
                MAX_INTENT_STATEMENT_BYTES as nat,
            ),
            chain(
                check(
                    root.acceptance_criteria.len() > 0,
                    "user-declared root requires at least one acceptance criterion"@,
                ),
                chain(
                    check(
                        root.acceptance_criteria.len() <= MAX_INTENT_CRITERIA,
                        "user-declared root contains too many acceptance criteria"@,
                    ),
                    first_failure(root_criteria_verdicts(root.acceptance_criteria)),
                ),
            ),
        ),
    )
}

fn validate_root_draft(root: &UserDeclaredIntentV1) -> (r: Result<(), KernelError>)
    ensures
        verdict(r) == root_verdict(root.deep_view()),
{
    validate_admission_text("intent root title", root.title.as_str(), MAX_INTENT_TITLE_BYTES)?;
    validate_admission_text(
        "intent root statement",
        root.statement.as_str(),
        MAX_INTENT_STATEMENT_BYTES,
    )?;
    if root.acceptance_criteria.len() == 0 {
        return reject("user-declared root requires at least one acceptance criterion");
    }
    if root.acceptance_criteria.len() > MAX_INTENT_CRITERIA {
        return reject("user-declared root contains too many acceptance criteria");
    }
    let criteria = &root.acceptance_criteria;
    let ghost v = criteria.deep_view();
    let ghost all = root_criteria_verdicts(v);
    let mut seen: Vec<String> = Vec::new();
    let mut i: usize = 0;
    proof {
        lemma_failures_begin(all);
    }
    while i < criteria.len()
        invariant
            i <= criteria.len(),
            v == criteria.deep_view(),
            all == root_criteria_verdicts(v),
            root_verdict(root.deep_view()) == first_failure(all),
            seen.deep_view() =~= criterion_aliases(v).take(i as int),
            first_failure(all) == first_failure(all.skip(i as int)),
        decreases criteria.len() - i,
    {
        proof {
            lemma_failures_step(all, i as int);
        }
        assert(v[i as int] == criteria@[i as int].deep_view());
        let ghost names = criterion_aliases(v);
        assert(names[i as int] == criteria@[i as int].criterion_alias@);
        validate_runtime_alias(
            "intent root criterion alias",
            criteria[i].criterion_alias.as_str(),
        )?;
        validate_admission_text(
            "intent root criterion",
            criteria[i].statement.as_str(),
            MAX_INTENT_STATEMENT_BYTES,
        )?;
        proof {
            lemma_repeats_is_seen(names, i as int);
        }
        if holds(&seen, &criteria[i].criterion_alias) {
            return reject("user-declared root contains duplicate criterion aliases");
        }
        let ghost before = seen;
        let a = criteria[i].criterion_alias.duplicate();
        seen.push(a);
        proof {
            lemma_push_view(before, a, seen);
        }
        i = i + 1;
    }
    proof {
        lemma_failures_end(all);
    }
    Ok(())
}

/// A plan in a context, before it has its digest.
pub open spec fn plan_draft(
    context: IntentAdmissionContextV1View,
    kind: IntentPlanKind,
    intents: Seq<IntentDefinitionV1View>,
) -> IntentPlanV1View {
    IntentPlanV1View {
        schema_version: INTENT_CONTRACT_SCHEMA_VERSION,
        stack_id: context.stack_id,
        stack_version: context.stack_version,
        workspace_id: context.workspace_id,
        source_session_id: context.source_session_id,
        kind,
        intents,
        plan_digest: zero_digest_text(),
    }
}

/// A plan with the digest that it should carry.
pub open spec fn sealed_plan(p: IntentPlanV1View) -> IntentPlanV1View {
    IntentPlanV1View { plan_digest: plan_digest_of(p), ..p }
}

/// Gives a plan its digest and checks it.
pub(crate) fn seal_plan(plan: IntentPlanV1) -> (r: Result<IntentPlanV1, KernelError>)
    ensures
        outcome(r) == yields(
            plan_shape_verdict(plan.deep_view()),
            sealed_plan(plan.deep_view()),
        ),
        r matches Ok(p) ==> plan_verdict(p.deep_view()) is Ok,
{
    let mut plan = plan;
    let digest = plan.computed_digest()?;
    proof {
        lemma_plan_digest_is_left_out(plan.deep_view(), digest.deep_view());
    }
    plan.plan_digest = digest;
    plan.validate_contract()?;
    Ok(plan)
}

/// The admission of a sealed plan under an authority.
pub open spec fn admission_of(
    plan: IntentPlanV1View,
    aliases: Seq<ResolvedIntentAliasView>,
    authority: IntentAcceptanceAuthorityV1View,
) -> IntentPlanAdmissionV1View {
    IntentPlanAdmissionV1View {
        plan,
        acceptance_kind: authority.kind,
        source_turn_id: authority.source_turn_id,
        acceptance_authority_id: authority.authority_event_id,
        resolved_aliases: aliases,
    }
}

fn build_admission(
    context: &IntentAdmissionContextV1,
    kind: IntentPlanKind,
    intents: Vec<IntentDefinitionV1>,
    resolved_aliases: Vec<ResolvedIntentAlias>,
    authority: &IntentAcceptanceAuthorityV1,
) -> (r: Result<IntentPlanAdmissionV1, KernelError>)
    ensures
        ({
            let draft = plan_draft(context.deep_view(), kind, intents.deep_view());
            outcome(r) == yields(
                plan_shape_verdict(draft),
                admission_of(
                    sealed_plan(draft),
                    resolved_aliases.deep_view(),
                    authority.deep_view(),
                ),
            )
        }),
{
    let draft = IntentPlanV1 {
        schema_version: INTENT_CONTRACT_SCHEMA_VERSION,
        stack_id: context.stack_id.duplicate(),
        stack_version: context.stack_version,
        workspace_id: context.workspace_id.duplicate(),
        source_session_id: context.source_session_id.duplicate(),
        kind,
        intents,
        plan_digest: IntentDigest::zero(),
    };
    let plan = seal_plan(draft)?;
    Ok(
        IntentPlanAdmissionV1 {
            plan,
            acceptance_kind: authority.kind,
            source_turn_id: authority.source_turn_id.duplicate(),
            acceptance_authority_id: authority.authority_event_id.duplicate(),
            resolved_aliases,
        },
    )
}

/// The definition of the root that a user declares.
pub open spec fn root_definition(
    context: IntentAdmissionContextV1View,
    root: UserDeclaredIntentV1View,
    source_turn_id: Seq<char>,
) -> IntentDefinitionV1View {
    let id = intent_id_text(context, "root"@, source_turn_id);
    IntentDefinitionV1View {
        intent_ref: IntentVersionRefView { intent_id: id, version: 1 },
        title: root.title,
        statement: root.statement,
        acceptance_criteria: resolved_criteria(context, id, root.acceptance_criteria),
        depends_on: Seq::empty(),
        source: IntentSourceV1View::UserTurn { source_turn_id },
        supersedes: None,
    }
}

/// What the admission of a root comes to.
pub open spec fn root_admission(
    context: IntentAdmissionContextV1View,
    root: UserDeclaredIntentV1View,
    authority: IntentAcceptanceAuthorityV1View,
) -> Result<IntentPlanAdmissionV1View, Seq<char>> {
    let definition = root_definition(context, root, authority.source_turn_id);
    let draft = plan_draft(context, IntentPlanKind::UserDeclaredRoot, seq![definition]);
    yields(
        chain(
            check(
                context.stack_version == 1,
                "only the initial IntentPlan version can be admitted"@,
            ),
            chain(
                check(
                    authority.kind == IntentAcceptanceKind::UserDeclaredRootAdmission
                        && authority.proposal_digest is None,
                    "user-declared root admission requires original user-turn authority"@,
                ),
                chain(root_verdict(root), plan_shape_verdict(draft)),
            ),
        ),
        admission_of(
            sealed_plan(draft),
            seq![
                ResolvedIntentAliasView {
                    alias: USER_DECLARED_ROOT_INTENT_ALIAS@,
                    intent_ref: definition.intent_ref,
                },
            ],
            authority,
        ),
    )
}

/// Admits the root that a user declares: it gets its identities from the runtime, and its digest.
pub fn admit_user_declared_root(
    context: &IntentAdmissionContextV1,
    root: UserDeclaredIntentV1,
    authority: &IntentAcceptanceAuthorityV1,
) -> (r: Result<IntentPlanAdmissionV1, KernelError>)
    ensures
        outcome(r) == root_admission(
            context.deep_view(),
            root.deep_view(),
            authority.deep_view(),
        ),
{
    if context.stack_version.get() != 1 {
        return Err(KernelError::new("only the initial IntentPlan version can be admitted"));
    }
    if authority.kind != IntentAcceptanceKind::UserDeclaredRootAdmission
        || authority.proposal_digest.is_some() {
        return Err(
            KernelError::new("user-declared root admission requires original user-turn authority"),
        );
    }
    validate_root_draft(&root)?;
    let intent_id = runtime_intent_id(context, "root", authority.source_turn_id.as_str());
    let acceptance_criteria = resolve_criteria(
        context,
        intent_id.as_str(),
        &root.acceptance_criteria,
    );
    let intent_ref = IntentVersionRef::new(intent_id, 1)?;
    let alias = ResolvedIntentAlias {
        alias: USER_DECLARED_ROOT_INTENT_ALIAS.to_owned(),
        intent_ref: intent_ref.duplicate(),
    };
    let definition = IntentDefinitionV1 {
        intent_ref,
        title: root.title,
        statement: root.statement,
        acceptance_criteria,
        depends_on: Vec::new(),
        source: IntentSourceV1::UserTurn { source_turn_id: authority.source_turn_id.duplicate() },
        supersedes: None,
    };
    proof {
        assert(definition.deep_view().depends_on =~= Seq::empty());
    }
    let ghost expected = root_definition(
        context.deep_view(),
        root.deep_view(),
        authority.deep_view().source_turn_id,
    );
    assert(definition.deep_view() == expected);
    let intents = vec![definition];
    let aliases = vec![alias];
    assert(intents.deep_view() =~= seq![expected]);
    assert(aliases.deep_view() =~= seq![alias.deep_view()]);
    build_admission(context, IntentPlanKind::UserDeclaredRoot, intents, aliases, authority)
}

// Suggested decompositions.

/// The identities that the intents behind aliases get.
pub open spec fn suggested_ids(
    context: IntentAdmissionContextV1View,
    aliases: Seq<Seq<char>>,
) -> Seq<Seq<char>> {
    Seq::new(aliases.len(), |i: int| intent_id_text(context, "suggested"@, aliases[i]))
}

/// The definition of a suggested intent.
pub open spec fn suggested_definition(
    context: IntentAdmissionContextV1View,
    proposal: IntentPlanProposalV1View,
    u: IntentProposalUnitV1View,
) -> IntentDefinitionV1View {
    let id = intent_id_text(context, "suggested"@, u.intent_alias);
    IntentDefinitionV1View {
        intent_ref: IntentVersionRefView { intent_id: id, version: 1 },
        title: u.title,
        statement: u.statement,
        acceptance_criteria: resolved_criteria(context, id, u.acceptance_criteria),
        depends_on: suggested_ids(context, u.depends_on_aliases),
        source: IntentSourceV1View::AcceptedSuggestion {
            source_turn_id: proposal.source_turn_id,
            proposal_digest: proposal.proposal_digest,
        },
        supersedes: None,
    }
}

/// The definitions of all suggested intents.
pub open spec fn suggested_definitions(
    context: IntentAdmissionContextV1View,
    proposal: IntentPlanProposalV1View,
) -> Seq<IntentDefinitionV1View> {
    Seq::new(
        proposal.intents.len(),
        |i: int| suggested_definition(context, proposal, proposal.intents[i]),
    )
}

/// The intents that the aliases of a proposal stand for.
pub open spec fn suggested_aliases(
    context: IntentAdmissionContextV1View,
    proposal: IntentPlanProposalV1View,
) -> Seq<ResolvedIntentAliasView> {
    Seq::new(
        proposal.intents.len(),
        |i: int|
            ResolvedIntentAliasView {
                alias: proposal.intents[i].intent_alias,
                intent_ref: IntentVersionRefView {
                    intent_id: intent_id_text(
                        context,
                        "suggested"@,
                        proposal.intents[i].intent_alias,
                    ),
                    version: 1,
                },
            },
    )
}

/// What the admission of a suggested decomposition comes to.
pub open spec fn suggested_admission(
    context: IntentAdmissionContextV1View,
    proposal: IntentPlanProposalV1View,
    authority: IntentAcceptanceAuthorityV1View,
) -> Result<IntentPlanAdmissionV1View, Seq<char>> {
    let draft = plan_draft(
        context,
        IntentPlanKind::SuggestedDecomposition,
        suggested_definitions(context, proposal),
    );
    yields(
        chain(
            check(
                context.stack_version == 1,
                "only the initial IntentPlan version can be admitted"@,
            ),
            chain(
                proposal_verdict(proposal),
                chain(
                    check(
                        authority.kind == IntentAcceptanceKind::ExplicitUserConfirmation
                            && authority.proposal_digest == Some(proposal.proposal_digest)
                            && authority.source_turn_id == proposal.source_turn_id,
                        "suggested decomposition requires explicit authority for the exact proposal"@,
                    ),
                    plan_shape_verdict(draft),
                ),
            ),
        ),
        admission_of(sealed_plan(draft), suggested_aliases(context, proposal), authority),
    )
}

fn resolve_dependencies(context: &IntentAdmissionContextV1, aliases: &Vec<String>) -> (r: Vec<
    IntentId,
>)
    ensures
        r.deep_view() == suggested_ids(context.deep_view(), aliases.deep_view()),
{
    let ghost all = suggested_ids(context.deep_view(), aliases.deep_view());
    let mut r: Vec<IntentId> = Vec::new();
    let mut i: usize = 0;
    while i < aliases.len()
        invariant
            i <= aliases.len(),
            all == suggested_ids(context.deep_view(), aliases.deep_view()),
            r.deep_view() =~= all.take(i as int),
        decreases aliases.len() - i,
    {
        assert(aliases.deep_view()[i as int] == aliases@[i as int]@);
        let id = runtime_intent_id(context, "suggested", aliases[i].as_str());
        assert(id.deep_view() == all[i as int]);
        let ghost before = r;
        r.push(id);
        proof {
            lemma_push_view(before, id, r);
        }
        i = i + 1;
    }
    r
}

fn resolve_suggestion(
    context: &IntentAdmissionContextV1,
    proposal: &IntentPlanProposalV1,
    i: usize,
) -> (r: (IntentDefinitionV1, ResolvedIntentAlias))
    requires
        i < proposal.intents.len(),
    ensures
        r.0.deep_view() == suggested_definitions(
            context.deep_view(),
            proposal.deep_view(),
        )[i as int],
        r.1.deep_view() == suggested_aliases(context.deep_view(), proposal.deep_view())[i as int],
{
    let u = &proposal.intents[i];
    assert(proposal.deep_view().intents[i as int] == u.deep_view());
    let intent_id = runtime_intent_id(context, "suggested", u.intent_alias.as_str());
    let acceptance_criteria = resolve_criteria(
        context,
        intent_id.as_str(),
        &u.acceptance_criteria,
    );
    let depends_on = resolve_dependencies(context, &u.depends_on_aliases);
    let intent_ref = IntentVersionRef { intent_id, version: 1 };
    let alias = ResolvedIntentAlias {
        alias: u.intent_alias.duplicate(),
        intent_ref: intent_ref.duplicate(),
    };
    let definition = IntentDefinitionV1 {
        intent_ref,
        title: u.title.duplicate(),
        statement: u.statement.duplicate(),
        acceptance_criteria,
        depends_on,
        source: IntentSourceV1::AcceptedSuggestion {
            source_turn_id: proposal.source_turn_id.duplicate(),
            proposal_digest: proposal.proposal_digest.duplicate(),
        },
        supersedes: None,
    };
    (definition, alias)
}

/// Admits a decomposition that a provider suggested and a user confirmed. The aliases of the provider
/// never become identities.
pub fn admit_suggested_decomposition(
    context: &IntentAdmissionContextV1,
    proposal: &IntentPlanProposalV1,
    authority: &IntentAcceptanceAuthorityV1,
) -> (r: Result<IntentPlanAdmissionV1, KernelError>)
    ensures
        outcome(r) == suggested_admission(
            context.deep_view(),
            proposal.deep_view(),
            authority.deep_view(),
        ),
{
    if context.stack_version.get() != 1 {
        return Err(KernelError::new("only the initial IntentPlan version can be admitted"));
    }
    proposal.validate_contract()?;
    let confirms = match &authority.proposal_digest {
        Some(d) => d.same(&proposal.proposal_digest),
        None => false,
    };
    if authority.kind != IntentAcceptanceKind::ExplicitUserConfirmation || !confirms
        || authority.source_turn_id != proposal.source_turn_id {
        return Err(
            KernelError::new(
                "suggested decomposition requires explicit authority for the exact proposal",
            ),
        );
    }
    let ghost all = suggested_definitions(context.deep_view(), proposal.deep_view());
    let ghost all_aliases = suggested_aliases(context.deep_view(), proposal.deep_view());
    let mut intents: Vec<IntentDefinitionV1> = Vec::new();
    let mut aliases: Vec<ResolvedIntentAlias> = Vec::new();
    let mut i: usize = 0;
    while i < proposal.intents.len()
        invariant
            i <= proposal.intents.len(),
            all == suggested_definitions(context.deep_view(), proposal.deep_view()),
            all_aliases == suggested_aliases(context.deep_view(), proposal.deep_view()),
            intents.deep_view() =~= all.take(i as int),
            aliases.deep_view() =~= all_aliases.take(i as int),
        decreases proposal.intents.len() - i,
    {
        let (definition, alias) = resolve_suggestion(context, proposal, i);
        let ghost before = intents;
        let ghost before_aliases = aliases;
        intents.push(definition);
        aliases.push(alias);
        proof {
            lemma_push_view(before, definition, intents);
            lemma_push_view(before_aliases, alias, aliases);
        }
        i = i + 1;
    }
    assert(intents.deep_view() =~= all);
    assert(aliases.deep_view() =~= all_aliases);
    build_admission(context, IntentPlanKind::SuggestedDecomposition, intents, aliases, authority)
}

/// Whatever is admitted is a valid plan under the authority that was given: an admission never comes
/// out of a draft that fails a check.
pub proof fn law_admitted_plans_are_valid(
    context: IntentAdmissionContextV1View,
    root: UserDeclaredIntentV1View,
    proposal: IntentPlanProposalV1View,
    authority: IntentAcceptanceAuthorityV1View,
)
    ensures
        root_admission(context, root, authority) matches Ok(a) ==> plan_verdict(a.plan) is Ok
            && a.acceptance_kind == IntentAcceptanceKind::UserDeclaredRootAdmission
            && a.source_turn_id == authority.source_turn_id,
        suggested_admission(context, proposal, authority) matches Ok(a) ==> plan_verdict(a.plan)
            is Ok && a.acceptance_kind == IntentAcceptanceKind::ExplicitUserConfirmation
            && proposal_verdict(proposal) is Ok && authority.proposal_digest == Some(
            proposal.proposal_digest,
        ),
{
    let definition = root_definition(context, root, authority.source_turn_id);
    let draft = plan_draft(context, IntentPlanKind::UserDeclaredRoot, seq![definition]);
    lemma_plan_digest_is_left_out(draft, plan_digest_of(draft));
    let other = plan_draft(
        context,
        IntentPlanKind::SuggestedDecomposition,
        suggested_definitions(context, proposal),
    );
    lemma_plan_digest_is_left_out(other, plan_digest_of(other));
}

// Admissions.

/// The event that creates the stack of a plan.
pub open spec fn stack_created_event(plan: IntentPlanV1View) -> IntentEventV1View {
    IntentEventV1View::StackCreated {
        schema_version: INTENT_CONTRACT_SCHEMA_VERSION,
        stack_id: plan.stack_id,
        workspace_id: plan.workspace_id,
        source_session_id: plan.source_session_id,
    }
}

/// The event that records a plan.
pub open spec fn plan_recorded_event(plan: IntentPlanV1View) -> IntentEventV1View {
    IntentEventV1View::PlanRecorded { schema_version: INTENT_CONTRACT_SCHEMA_VERSION, plan }
}

/// The event that accepts a plan.
pub open spec fn plan_accepted_event(
    a: IntentPlanAdmissionV1View,
    task_plan_binding: Option<IntentTaskPlanBindingV1View>,
) -> IntentEventV1View {
    IntentEventV1View::PlanAccepted {
        schema_version: INTENT_CONTRACT_SCHEMA_VERSION,
        stack_id: a.plan.stack_id,
        stack_version: a.plan.stack_version,
        plan_digest: a.plan.plan_digest,
        acceptance_kind: a.acceptance_kind,
        source_turn_id: a.source_turn_id,
        acceptance_authority_id: a.acceptance_authority_id,
        task_plan_binding,
    }
}

/// The events of an admission, in the order in which they are written.
pub open spec fn admission_events(
    a: IntentPlanAdmissionV1View,
    task_plan_binding: Option<IntentTaskPlanBindingV1View>,
) -> Seq<IntentEventV1View> {
    seq![
        stack_created_event(a.plan),
        plan_recorded_event(a.plan),
        plan_accepted_event(a, task_plan_binding),
    ]
}

/// The events of an admission to a stack that is there already.
pub open spec fn successor_events(
    a: IntentPlanAdmissionV1View,
    task_plan_binding: Option<IntentTaskPlanBindingV1View>,
) -> Seq<IntentEventV1View> {
    seq![plan_recorded_event(a.plan), plan_accepted_event(a, task_plan_binding)]
}

/// The checks of the events of an admission to a stack that is there already.
pub open spec fn successor_events_verdict(
    a: IntentPlanAdmissionV1View,
    task_plan_binding: Option<IntentTaskPlanBindingV1View>,
) -> Verdict {
    chain(
        event_verdict(plan_recorded_event(a.plan)),
        event_verdict(plan_accepted_event(a, task_plan_binding)),
    )
}

/// The admission of a plan that takes the place of another.
pub open spec fn successor_admission(
    plan: IntentPlanV1View,
    acceptance_kind: IntentAcceptanceKind,
    source_turn_id: Seq<char>,
    acceptance_authority_id: Seq<char>,
) -> IntentPlanAdmissionV1View {
    IntentPlanAdmissionV1View {
        plan,
        acceptance_kind,
        source_turn_id,
        acceptance_authority_id,
        resolved_aliases: Seq::empty(),
    }
}

/// Makes the admission of a plan that takes the place of another. No alias stands for its intents.
pub(crate) fn build_successor_admission(
    plan: IntentPlanV1,
    acceptance_kind: IntentAcceptanceKind,
    source_turn_id: String,
    acceptance_authority_id: String,
) -> (r: Result<IntentPlanAdmissionV1, KernelError>)
    ensures
        outcome(r) == yields(
            plan_verdict(plan.deep_view()),
            successor_admission(
                plan.deep_view(),
                acceptance_kind,
                source_turn_id@,
                acceptance_authority_id@,
            ),
        ),
{
    match plan.validate_contract() {
        Err(e) => Err(e),
        Ok(_) => {
            let resolved_aliases: Vec<ResolvedIntentAlias> = Vec::new();
            assert(resolved_aliases.deep_view() =~= Seq::empty());
            Ok(
                IntentPlanAdmissionV1 {
                    plan,
                    acceptance_kind,
                    source_turn_id,
                    acceptance_authority_id,
                    resolved_aliases,
                },
            )
        },
    }
}

/// The checks of the events of an admission.
pub open spec fn admission_events_verdict(
    a: IntentPlanAdmissionV1View,
    task_plan_binding: Option<IntentTaskPlanBindingV1View>,
) -> Verdict {
    chain(
        event_verdict(stack_created_event(a.plan)),
        chain(
            event_verdict(plan_recorded_event(a.plan)),
            event_verdict(plan_accepted_event(a, task_plan_binding)),
        ),
    )
}

impl IntentPlanAdmissionV1 {
    /// The plan.
    pub fn plan(&self) -> (r: &IntentPlanV1)
        ensures
            r.deep_view() == self.deep_view().plan,
    {
        &self.plan
    }

    /// How the plan was accepted.
    pub fn acceptance_kind(&self) -> (r: IntentAcceptanceKind)
        ensures
            r == self.deep_view().acceptance_kind,
    {
        self.acceptance_kind
    }

    /// The turn in which the plan was accepted.
    pub(crate) fn source_turn_id(&self) -> (r: &str)
        ensures
            r@ == self.deep_view().source_turn_id,
    {
        self.source_turn_id.as_str()
    }

    /// The event that accepted the plan.
    pub(crate) fn acceptance_authority_id(&self) -> (r: &str)
        ensures
            r@ == self.deep_view().acceptance_authority_id,
    {
        self.acceptance_authority_id.as_str()
    }

    /// The intent that an alias stands for.
    pub fn intent_ref_for_alias(&self, alias: &str) -> (r: Option<&IntentVersionRef>)
        ensures
            r.deep_view() == alias_target(self.deep_view(), alias@),
    {
        match position_by_key(&self.resolved_aliases, alias) {
            Some(i) => Some(&self.resolved_aliases[i].intent_ref),
            None => None,
        }
    }

    /// The events that make the admission durable: the stack, the plan and its acceptance.
    pub fn durable_events(&self, task_plan_binding: Option<IntentTaskPlanBindingV1>) -> (r: Result<
        Vec<IntentEventV1>,
        KernelError,
    >)
        ensures
            outcome(r) == yields(
                admission_events_verdict(self.deep_view(), task_plan_binding.deep_view()),
                admission_events(self.deep_view(), task_plan_binding.deep_view()),
            ),
    {
        let created = IntentEventV1::StackCreated {
            schema_version: INTENT_CONTRACT_SCHEMA_VERSION,
            stack_id: self.plan.stack_id.duplicate(),
            workspace_id: self.plan.workspace_id.duplicate(),
            source_session_id: self.plan.source_session_id.duplicate(),
        };
        let recorded = IntentEventV1::PlanRecorded {
            schema_version: INTENT_CONTRACT_SCHEMA_VERSION,
            plan: self.plan.duplicate(),
        };
        let accepted = IntentEventV1::PlanAccepted {
            schema_version: INTENT_CONTRACT_SCHEMA_VERSION,
            stack_id: self.plan.stack_id.duplicate(),
            stack_version: self.plan.stack_version,
            plan_digest: self.plan.plan_digest.duplicate(),
            acceptance_kind: self.acceptance_kind,
            source_turn_id: self.source_turn_id.duplicate(),
            acceptance_authority_id: self.acceptance_authority_id.duplicate(),
            task_plan_binding,
        };
        created.validate_contract()?;
        recorded.validate_contract()?;
        accepted.validate_contract()?;
        let events = vec![created, recorded, accepted];
        assert(events.deep_view() =~= admission_events(
            self.deep_view(),
            task_plan_binding.deep_view(),
        ));
        Ok(events)
    }

    /// The events that make the admission durable in a stack that is there already: the plan and its
    /// acceptance.
    pub(crate) fn durable_successor_events(&self, task_plan_binding: Option<IntentTaskPlanBindingV1>) -> (r:
        Result<Vec<IntentEventV1>, KernelError>)
        ensures
            outcome(r) == yields(
                successor_events_verdict(self.deep_view(), task_plan_binding.deep_view()),
                successor_events(self.deep_view(), task_plan_binding.deep_view()),
            ),
    {
        let recorded = IntentEventV1::PlanRecorded {
            schema_version: INTENT_CONTRACT_SCHEMA_VERSION,
            plan: self.plan.duplicate(),
        };
        let accepted = IntentEventV1::PlanAccepted {
            schema_version: INTENT_CONTRACT_SCHEMA_VERSION,
            stack_id: self.plan.stack_id.duplicate(),
            stack_version: self.plan.stack_version,
            plan_digest: self.plan.plan_digest.duplicate(),
            acceptance_kind: self.acceptance_kind,
            source_turn_id: self.source_turn_id.duplicate(),
            acceptance_authority_id: self.acceptance_authority_id.duplicate(),
            task_plan_binding,
        };
        recorded.validate_contract()?;
        accepted.validate_contract()?;
        let events = vec![recorded, accepted];
        assert(events.deep_view() =~= successor_events(
            self.deep_view(),
            task_plan_binding.deep_view(),
        ));
        Ok(events)
    }
}

/// The intent that an alias of an admission stands for.
pub open spec fn alias_target(a: IntentPlanAdmissionV1View, alias: Seq<char>) -> Option<
    IntentVersionRefView,
> {
    match find_key::<ResolvedIntentAlias>(a.resolved_aliases, alias) {
        Some(i) => Some(a.resolved_aliases[i].intent_ref),
        None => None,
    }
}

// Task plans.

/// What the task module found wrong with the graph of a task plan.
pub open spec fn task_graph_verdict(plan: TaskPlanEntryView) -> Verdict {
    match plan.graph_validation_error {
        Some(e) => Err(e),
        None => Ok(()),
    }
}

pub(crate) fn validate_task_graph(plan: &TaskPlanEntry) -> (r: Result<(), KernelError>)
    ensures
        verdict(r) == task_graph_verdict(plan.deep_view()),
{
    match &plan.graph_validation_error {
        Some(e) => Err(KernelError { message: e.duplicate() }),
        None => Ok(()),
    }
}

/// The references of the intents of a plan.
pub open spec fn plan_refs(plan: IntentPlanV1View) -> Seq<IntentVersionRefView> {
    plan.intents.map_values(|d: IntentDefinitionV1View| d.intent_ref)
}

/// The references of the intents of a plan.
pub(crate) fn refs_of_plan(plan: &IntentPlanV1) -> (r: Vec<IntentVersionRef>)
    ensures
        r.deep_view() == plan_refs(plan.deep_view()),
        r.len() == plan.intents.len(),
{
    let ghost all = plan_refs(plan.deep_view());
    let mut r: Vec<IntentVersionRef> = Vec::new();
    let mut i: usize = 0;
    while i < plan.intents.len()
        invariant
            i <= plan.intents.len(),
            all == plan_refs(plan.deep_view()),
            r.len() == i,
            r.deep_view() =~= all.take(i as int),
        decreases plan.intents.len() - i,
    {
        assert(plan.deep_view().intents[i as int] == plan.intents@[i as int].deep_view());
        let x = plan.intents[i].intent_ref.duplicate();
        let ghost before = r;
        r.push(x);
        proof {
            lemma_push_view(before, x, r);
        }
        i = i + 1;
    }
    r
}

/// Every item of `items` is one of `allowed`.
pub open spec fn all_among(items: Seq<IntentVersionRefView>, allowed: Seq<IntentVersionRefView>) -> bool {
    forall|i: int| 0 <= i < items.len() ==> allowed.contains(#[trigger] items[i])
}

fn are_all_among(items: &Vec<IntentVersionRef>, allowed: &Vec<IntentVersionRef>) -> (r: bool)
    ensures
        r == all_among(items.deep_view(), allowed.deep_view()),
{
    let mut i: usize = 0;
    while i < items.len()
        invariant
            i <= items.len(),
            forall|j: int|
                0 <= j < i ==> allowed.deep_view().contains(#[trigger] items.deep_view()[j]),
        decreases items.len() - i,
    {
        assert(items.deep_view()[i as int] == items@[i as int].deep_view());
        if !holds(allowed, &items[i]) {
            return false;
        }
        i = i + 1;
    }
    true
}

/// The message for a write step that does not bind exactly one intent.
pub open spec fn write_step_message(step_id: Seq<char>) -> Seq<char> {
    "Intent-enabled write task step "@ + step_id + " must bind exactly one accepted intent"@
}

/// The check of the references of one step.
pub open spec fn step_refs_verdict(
    refs: Seq<IntentVersionRefView>,
    step: TaskStepSpecView,
) -> Verdict {
    chain(
        check(
            all_among(step.intent_refs, refs),
            "task step "@ + step.step_id
                + " references an intent outside the accepted IntentPlan"@,
        ),
        check(
            step.mode != TaskStepMode::Write || step.intent_refs.len() == 1,
            write_step_message(step.step_id),
        ),
    )
}

/// The checks of the references of all steps.
pub open spec fn steps_refs_verdicts(
    refs: Seq<IntentVersionRefView>,
    steps: Seq<TaskStepSpecView>,
) -> Seq<Verdict> {
    Seq::new(steps.len(), |i: int| step_refs_verdict(refs, steps[i]))
}

fn reject_write_step(step_id: &str) -> (r: Result<(), KernelError>)
    ensures
        verdict(r) == Err::<(), Seq<char>>(write_step_message(step_id@)),
{
    let mut message = joined("Intent-enabled write task step ", step_id);
    message.append(" must bind exactly one accepted intent");
    Err(KernelError { message })
}

pub(crate) fn validate_task_plan_intent_refs(plan: &IntentPlanV1, steps: &Vec<TaskStepSpec>) -> (r: Result<
    (),
    KernelError,
>)
    ensures
        verdict(r) == first_failure(
            steps_refs_verdicts(plan_refs(plan.deep_view()), steps.deep_view()),
        ),
{
    let refs = refs_of_plan(plan);
    let ghost all = steps_refs_verdicts(refs.deep_view(), steps.deep_view());
    let mut i: usize = 0;
    proof {
        lemma_failures_begin(all);
    }
    while i < steps.len()
        invariant
            i <= steps.len(),
            refs.deep_view() == plan_refs(plan.deep_view()),
            all == steps_refs_verdicts(refs.deep_view(), steps.deep_view()),
            first_failure(all) == first_failure(all.skip(i as int)),
        decreases steps.len() - i,
    {
        proof {
            lemma_failures_step(all, i as int);
        }
        let step = &steps[i];
        assert(steps.deep_view()[i as int] == step.deep_view());
        if !are_all_among(&step.intent_refs, &refs) {
            let mut message = joined("task step ", step.step_id.as_str());
            message.append(" references an intent outside the accepted IntentPlan");
            return Err(KernelError { message });
        }
        if step.mode == TaskStepMode::Write && step.intent_refs.len() != 1 {
            return reject_write_step(step.step_id.as_str());
        }
        i = i + 1;
    }
    proof {
        lemma_failures_end(all);
    }
    Ok(())
}

/// The intents that the aliases of a binding stand for, where all of them stand for one.
pub open spec fn binding_refs(
    a: IntentPlanAdmissionV1View,
    aliases: Seq<Seq<char>>,
) -> Seq<IntentVersionRefView> {
    Seq::new(aliases.len(), |i: int| alias_target(a, aliases[i])->0)
}

/// The check of the alias at `k` of a binding.
pub open spec fn alias_verdict(
    a: IntentPlanAdmissionV1View,
    b: TaskStepIntentAliasBindingV1View,
    k: int,
) -> Verdict {
    chain(
        check(
            !repeats(b.intent_aliases, k),
            "task step "@ + b.step_id + " repeats intent alias "@ + b.intent_aliases[k],
        ),
        check(
            alias_target(a, b.intent_aliases[k]) is Some,
            "task step references unknown intent alias "@ + b.intent_aliases[k],
        ),
    )
}

/// The checks of the aliases of a binding.
pub open spec fn alias_verdicts(
    a: IntentPlanAdmissionV1View,
    b: TaskStepIntentAliasBindingV1View,
) -> Seq<Verdict> {
    Seq::new(b.intent_aliases.len(), |k: int| alias_verdict(a, b, k))
}

/// The steps that bindings name.
pub open spec fn bound_step_ids(bindings: Seq<TaskStepIntentAliasBindingV1View>) -> Seq<Seq<char>> {
    bindings.map_values(|b: TaskStepIntentAliasBindingV1View| b.step_id)
}

/// The check of the binding at `i`.
pub open spec fn alias_binding_verdict(
    a: IntentPlanAdmissionV1View,
    bindings: Seq<TaskStepIntentAliasBindingV1View>,
    i: int,
) -> Verdict {
    let b = bindings[i];
    chain(
        check(
            !repeats(bound_step_ids(bindings), i),
            "task step "@ + b.step_id + " has more than one intent alias mapping"@,
        ),
        chain(
            first_failure(alias_verdicts(a, b)),
            check(
                crate::value::distinct(binding_refs(a, b.intent_aliases)),
                "task step "@ + b.step_id + " aliases resolve to duplicate intent refs"@,
            ),
        ),
    )
}

/// The checks of all bindings.
pub open spec fn alias_binding_verdicts(
    a: IntentPlanAdmissionV1View,
    bindings: Seq<TaskStepIntentAliasBindingV1View>,
) -> Seq<Verdict> {
    Seq::new(bindings.len(), |i: int| alias_binding_verdict(a, bindings, i))
}

/// The identities of steps.
pub open spec fn step_ids(steps: Seq<TaskStepSpecView>) -> Seq<Seq<char>> {
    steps.map_values(|s: TaskStepSpecView| s.step_id)
}

/// The step at `i` with the intents that its binding names; a step without a binding, and one whose
/// identity occurred before, binds none.
pub open spec fn bound_step(
    a: IntentPlanAdmissionV1View,
    steps: Seq<TaskStepSpecView>,
    bindings: Seq<TaskStepIntentAliasBindingV1View>,
    i: int,
) -> TaskStepSpecView {
    TaskStepSpecView {
        intent_refs: if repeats(step_ids(steps), i) {
            Seq::empty()
        } else {
            match find_key::<TaskStepIntentAliasBindingV1>(bindings, steps[i].step_id) {
                Some(k) => binding_refs(a, bindings[k].intent_aliases),
                None => Seq::empty(),
            }
        },
        ..steps[i]
    }
}

/// All steps with the intents that their bindings name.
pub open spec fn bound_steps(
    a: IntentPlanAdmissionV1View,
    steps: Seq<TaskStepSpecView>,
    bindings: Seq<TaskStepIntentAliasBindingV1View>,
) -> Seq<TaskStepSpecView> {
    Seq::new(steps.len(), |i: int| bound_step(a, steps, bindings, i))
}

/// The checks that write steps bind exactly one intent.
pub open spec fn write_step_verdicts(steps: Seq<TaskStepSpecView>) -> Seq<Verdict> {
    Seq::new(
        steps.len(),
        |i: int|
            check(
                steps[i].mode != TaskStepMode::Write || steps[i].intent_refs.len() == 1,
                write_step_message(steps[i].step_id),
            ),
    )
}

/// The steps that bindings name and a task plan does not have, without the bindings behind `n`.
pub open spec fn unknown_steps(
    bindings: Seq<TaskStepIntentAliasBindingV1View>,
    steps: Seq<TaskStepSpecView>,
    n: int,
) -> Seq<Seq<char>>
    decreases n,
{
    if n <= 0 {
        Seq::empty()
    } else {
        let s = unknown_steps(bindings, steps, n - 1);
        if step_ids(steps).contains(bindings[n - 1].step_id) {
            s
        } else {
            s.push(bindings[n - 1].step_id)
        }
    }
}

/// The text of a list that no other of the list precedes.
pub open spec fn least(items: Seq<Seq<char>>) -> Seq<char>
    decreases items.len(),
{
    if items.len() <= 1 {
        items[0]
    } else {
        let m = least(items.drop_last());
        if crate::text::precedes(items.last(), m) {
            items.last()
        } else {
            m
        }
    }
}

/// The check that every binding names a step of the task plan.
pub open spec fn unknown_step_verdict(
    bindings: Seq<TaskStepIntentAliasBindingV1View>,
    steps: Seq<TaskStepSpecView>,
) -> Verdict {
    let unknown = unknown_steps(bindings, steps, bindings.len() as int);
    check(
        unknown.len() == 0,
        "intent alias mapping references unknown task step "@ + least(unknown),
    )
}

/// What binding the steps of a task plan to intents comes to.
pub open spec fn bound_task_plan(
    a: IntentPlanAdmissionV1View,
    task_plan: TaskPlanEntryView,
    bindings: Seq<TaskStepIntentAliasBindingV1View>,
) -> Result<TaskPlanEntryView, Seq<char>> {
    let steps = bound_steps(a, task_plan.steps, bindings);
    yields(
        chain(
            task_graph_verdict(task_plan),
            chain(
                first_failure(alias_binding_verdicts(a, bindings)),
                chain(
                    first_failure(write_step_verdicts(steps)),
                    chain(
                        unknown_step_verdict(bindings, task_plan.steps),
                        first_failure(steps_refs_verdicts(plan_refs(a.plan), steps)),
                    ),
                ),
            ),
        ),
        TaskPlanEntryView { steps, ..task_plan },
    )
}

fn resolve_aliases(admission: &IntentPlanAdmissionV1, binding: &TaskStepIntentAliasBindingV1) -> (r:
    Result<Vec<IntentVersionRef>, KernelError>)
    ensures
        outcome(r) == yields(
            first_failure(alias_verdicts(admission.deep_view(), binding.deep_view())),
            binding_refs(admission.deep_view(), binding.deep_view().intent_aliases),
        ),
{
    let ghost a = admission.deep_view();
    let ghost b = binding.deep_view();
    let ghost all = alias_verdicts(a, b);
    let ghost whole = binding_refs(a, b.intent_aliases);
    let mut refs: Vec<IntentVersionRef> = Vec::new();
    let mut k: usize = 0;
    proof {
        lemma_failures_begin(all);
    }
    while k < binding.intent_aliases.len()
        invariant
            k <= binding.intent_aliases.len(),
            a == admission.deep_view(),
            b == binding.deep_view(),
            all == alias_verdicts(a, b),
            whole == binding_refs(a, b.intent_aliases),
            refs.deep_view() =~= whole.take(k as int),
            first_failure(all) == first_failure(all.skip(k as int)),
        decreases binding.intent_aliases.len() - k,
    {
        proof {
            lemma_failures_step(all, k as int);
        }
        assert(b.intent_aliases[k as int] == binding.intent_aliases@[k as int]@);
        let alias = binding.intent_aliases[k].as_str();
        if repeated_at(&binding.intent_aliases, k) {
            let mut message = joined("task step ", binding.step_id.as_str());
            message.append(" repeats intent alias ");
            message.append(alias);
            return Err(KernelError { message });
        }
        match admission.intent_ref_for_alias(alias) {
            Some(x) => {
                let x = x.duplicate();
                assert(x.deep_view() == whole[k as int]);
                let ghost before = refs;
                refs.push(x);
                proof {
                    lemma_push_view(before, x, refs);
                }
            },
            None => {
                return Err(
                    KernelError {
                        message: joined("task step references unknown intent alias ", alias),
                    },
                );
            },
        }
        k = k + 1;
    }
    proof {
        lemma_failures_end(all);
    }
    assert(refs.deep_view() =~= whole);
    Ok(refs)
}

fn validate_alias_bindings(
    admission: &IntentPlanAdmissionV1,
    bindings: &Vec<TaskStepIntentAliasBindingV1>,
) -> (r: Result<Vec<Vec<IntentVersionRef>>, KernelError>)
    ensures
        ({
            let all = alias_binding_verdicts(admission.deep_view(), bindings.deep_view());
            match first_failure(all) {
                Ok(_) => r is Ok && r->Ok_0.len() == bindings.len() && forall|i: int|
                    0 <= i < bindings.len() ==> (#[trigger] r->Ok_0@[i]).deep_view()
                        == binding_refs(
                        admission.deep_view(),
                        bindings.deep_view()[i].intent_aliases,
                    ),
                Err(e) => r is Err && r->Err_0.deep_view() == e,
            }
        }),
{
    let ghost a = admission.deep_view();
    let ghost v = bindings.deep_view();
    let ghost all = alias_binding_verdicts(a, v);
    let mut out: Vec<Vec<IntentVersionRef>> = Vec::new();
    let mut seen: Vec<String> = Vec::new();
    let mut i: usize = 0;
    proof {
        lemma_failures_begin(all);
    }
    while i < bindings.len()
        invariant
            i <= bindings.len(),
            a == admission.deep_view(),
            v == bindings.deep_view(),
            all == alias_binding_verdicts(a, v),
            out.len() == i,
            forall|j: int|
                0 <= j < i ==> (#[trigger] out@[j]).deep_view() == binding_refs(
                    a,
                    v[j].intent_aliases,
                ),
            seen.deep_view() =~= bound_step_ids(v).take(i as int),
            first_failure(all) == first_failure(all.skip(i as int)),
        decreases bindings.len() - i,
    {
        proof {
            lemma_failures_step(all, i as int);
            lemma_repeats_is_seen(bound_step_ids(v), i as int);
        }
        let b = &bindings[i];
        assert(v[i as int] == b.deep_view());
        if holds(&seen, &b.step_id) {
            let mut message = joined("task step ", b.step_id.as_str());
            message.append(" has more than one intent alias mapping");
            return Err(KernelError { message });
        }
        let refs = resolve_aliases(admission, b)?;
        if !crate::value::all_distinct(&refs) {
            let mut message = joined("task step ", b.step_id.as_str());
            message.append(" aliases resolve to duplicate intent refs");
            return Err(KernelError { message });
        }
        let ghost before = seen;
        let id = b.step_id.duplicate();
        seen.push(id);
        proof {
            lemma_push_view(before, id, seen);
        }
        out.push(refs);
        i = i + 1;
    }
    proof {
        lemma_failures_end(all);
    }
    Ok(out)
}

fn step_repeats(steps: &Vec<TaskStepSpec>, i: usize) -> (r: bool)
    requires
        i < steps.len(),
    ensures
        r == repeats(step_ids(steps.deep_view()), i as int),
{
    let ghost ids = step_ids(steps.deep_view());
    let mut j: usize = 0;
    while j < i
        invariant
            j <= i < steps.len(),
            ids == step_ids(steps.deep_view()),
            forall|k: int| 0 <= k < j ==> ids[k] != ids[i as int],
        decreases i - j,
    {
        assert(ids[j as int] == steps@[j as int].step_id@);
        assert(ids[i as int] == steps@[i as int].step_id@);
        if steps[j].step_id == steps[i].step_id {
            return true;
        }
        j = j + 1;
    }
    false
}

fn bind_steps(
    steps: &Vec<TaskStepSpec>,
    bindings: &Vec<TaskStepIntentAliasBindingV1>,
    resolved: &Vec<Vec<IntentVersionRef>>,
    Ghost(a): Ghost<IntentPlanAdmissionV1View>,
) -> (r: Result<Vec<TaskStepSpec>, KernelError>)
    requires
        resolved.len() == bindings.len(),
        forall|i: int|
            0 <= i < bindings.len() ==> (#[trigger] resolved@[i]).deep_view() == binding_refs(
                a,
                bindings.deep_view()[i].intent_aliases,
            ),
    ensures
        ({
            let bound = bound_steps(a, steps.deep_view(), bindings.deep_view());
            outcome(r) == yields(first_failure(write_step_verdicts(bound)), bound)
        }),
{
    let ghost bound = bound_steps(a, steps.deep_view(), bindings.deep_view());
    let ghost all = write_step_verdicts(bound);
    let mut out: Vec<TaskStepSpec> = Vec::new();
    let mut i: usize = 0;
    proof {
        lemma_failures_begin(all);
    }
    while i < steps.len()
        invariant
            i <= steps.len(),
            bound == bound_steps(a, steps.deep_view(), bindings.deep_view()),
            all == write_step_verdicts(bound),
            resolved.len() == bindings.len(),
            forall|i: int|
                0 <= i < bindings.len() ==> (#[trigger] resolved@[i]).deep_view() == binding_refs(
                    a,
                    bindings.deep_view()[i].intent_aliases,
                ),
            out.deep_view() =~= bound.take(i as int),
            first_failure(all) == first_failure(all.skip(i as int)),
        decreases steps.len() - i,
    {
        proof {
            lemma_failures_step(all, i as int);
        }
        assert(steps.deep_view()[i as int] == steps@[i as int].deep_view());
        let refs = if step_repeats(steps, i) {
            Vec::new()
        } else {
            match position_by_key(bindings, steps[i].step_id.as_str()) {
                Some(k) => {
                    assert(resolved@[k as int].deep_view() == binding_refs(
                        a,
                        bindings.deep_view()[k as int].intent_aliases,
                    ));
                    resolved[k].duplicate()
                },
                None => Vec::new(),
            }
        };
        let step = TaskStepSpec {
            step_id: steps[i].step_id.duplicate(),
            mode: steps[i].mode,
            intent_refs: refs,
        };
        assert(step.deep_view().intent_refs =~= bound[i as int].intent_refs);
        assert(step.deep_view() == bound[i as int]);
        if step.mode == TaskStepMode::Write && step.intent_refs.len() != 1 {
            match reject_write_step(steps[i].step_id.as_str()) {
                Ok(_) => {},
                Err(e) => {
                    return Err(e);
                },
            }
        }
        let ghost before = out;
        out.push(step);
        proof {
            lemma_push_view(before, step, out);
        }
        i = i + 1;
    }
    proof {
        lemma_failures_end(all);
    }
    assert(out.deep_view() =~= bound);
    Ok(out)
}

fn has_step(steps: &Vec<TaskStepSpec>, id: &String) -> (r: bool)
    ensures
        r == step_ids(steps.deep_view()).contains(id@),
{
    let ghost ids = step_ids(steps.deep_view());
    let mut j: usize = 0;
    while j < steps.len()
        invariant
            j <= steps.len(),
            ids == step_ids(steps.deep_view()),
            forall|k: int| 0 <= k < j ==> ids[k] != id@,
        decreases steps.len() - j,
    {
        assert(ids[j as int] == steps@[j as int].step_id@);
        if steps[j].step_id == *id {
            return true;
        }
        j = j + 1;
    }
    false
}

fn validate_bound_steps_exist(
    bindings: &Vec<TaskStepIntentAliasBindingV1>,
    steps: &Vec<TaskStepSpec>,
) -> (r: Result<(), KernelError>)
    ensures
        verdict(r) == unknown_step_verdict(bindings.deep_view(), steps.deep_view()),
{
    let ghost v = bindings.deep_view();
    let ghost s = steps.deep_view();
    let mut found: Option<String> = None;
    let mut i: usize = 0;
    while i < bindings.len()
        invariant
            i <= bindings.len(),
            v == bindings.deep_view(),
            s == steps.deep_view(),
            match found {
                None => unknown_steps(v, s, i as int).len() == 0,
                Some(m) => unknown_steps(v, s, i as int).len() > 0 && m@ == least(
                    unknown_steps(v, s, i as int),
                ),
            },
        decreases bindings.len() - i,
    {
        assert(v[i as int] == bindings@[i as int].deep_view());
        let ghost before = unknown_steps(v, s, i as int);
        let id = &bindings[i].step_id;
        if !has_step(steps, id) {
            assert(before.push(id@).drop_last() =~= before);
            let better = match &found {
                None => true,
                Some(m) => text_precedes(id.as_str(), m.as_str()),
            };
            if better {
                found = Some(id.duplicate());
            }
        }
        i = i + 1;
    }
    match found {
        None => Ok(()),
        Some(m) => Err(
            KernelError {
                message: joined(
                    "intent alias mapping references unknown task step ",
                    m.as_str(),
                ),
            },
        ),
    }
}

/// Binds the steps of a task plan to the intents that aliases stand for. Every write step binds
/// exactly one accepted intent.
pub fn bind_task_plan_intents(
    admission: &IntentPlanAdmissionV1,
    task_plan: TaskPlanEntry,
    bindings: &Vec<TaskStepIntentAliasBindingV1>,
) -> (r: Result<TaskPlanEntry, KernelError>)
    ensures
        outcome(r) == bound_task_plan(
            admission.deep_view(),
            task_plan.deep_view(),
            bindings.deep_view(),
        ),
{
    validate_task_graph(&task_plan)?;
    let resolved = validate_alias_bindings(admission, bindings)?;
    let steps = bind_steps(&task_plan.steps, bindings, &resolved, Ghost(admission.deep_view()))?;
    validate_bound_steps_exist(bindings, &task_plan.steps)?;
    validate_task_plan_intent_refs(admission.plan(), &steps)?;
    Ok(
        TaskPlanEntry {
            task_id: task_plan.task_id,
            plan_version: task_plan.plan_version,
            status: task_plan.status,
            steps,
            reason: task_plan.reason,
            graph_validation_error: task_plan.graph_validation_error,
        },
    )
}

/// A task plan that was bound keeps everything but the intents of its steps, and every write step of
/// it binds exactly one intent, which the plan holds.
pub proof fn law_bound_write_steps_have_one_accepted_intent(
    a: IntentPlanAdmissionV1View,
    task_plan: TaskPlanEntryView,
    bindings: Seq<TaskStepIntentAliasBindingV1View>,
)
    requires
        bound_task_plan(a, task_plan, bindings) is Ok,
    ensures
        ({
            let bound = bound_task_plan(a, task_plan, bindings)->Ok_0;
            &&& bound.task_id == task_plan.task_id
            &&& bound.plan_version == task_plan.plan_version
            &&& step_ids(bound.steps) == step_ids(task_plan.steps)
            &&& forall|i: int|
                0 <= i < bound.steps.len() && (#[trigger] bound.steps[i]).mode
                    == TaskStepMode::Write ==> bound.steps[i].intent_refs.len() == 1
                    && plan_refs(a.plan).contains(bound.steps[i].intent_refs[0])
        }),
{
    let bound = bound_task_plan(a, task_plan, bindings)->Ok_0;
    let refs = plan_refs(a.plan);
    crate::value::lemma_all_pass(steps_refs_verdicts(refs, bound.steps));
    assert(step_ids(bound.steps) =~= step_ids(task_plan.steps));
    assert forall|i: int|
        0 <= i < bound.steps.len() && (#[trigger] bound.steps[i]).mode
            == TaskStepMode::Write implies bound.steps[i].intent_refs.len() == 1 && refs.contains(
        bound.steps[i].intent_refs[0],
    ) by {
        assert(steps_refs_verdicts(refs, bound.steps)[i] is Ok);
        assert(step_refs_verdict(refs, bound.steps[i]) is Ok);
    }
}

} // verus!
