//! The contracts of intent plans, layers, operation previews and events: digests and checks.

use vstd::prelude::*;

use crate::dag::{acyclic, has_no_cycle};
use crate::intent::{
    labelled, reject_labelled, stable_identity_verdict, text_digest_of, validate_stable_identity,
    zero_digest_text, IntentAcceptanceCriterionV1, IntentAcceptanceCriterionV1View,
    IntentDefinitionV1, IntentDefinitionV1View, IntentDigest, IntentDigestDomain,
    IntentExecutionBindingV1, IntentExecutionBindingV1View, IntentExecutionOriginV1,
    IntentExecutionOriginV1View, IntentId, IntentPlanKind, IntentPlanProposalV1,
    IntentPlanProposalV1View, IntentPlanV1, IntentPlanV1View, IntentProposalCriterionV1,
    IntentProposalCriterionV1View, IntentProposalUnitV1, IntentProposalUnitV1View, IntentSourceV1,
    IntentSourceV1View, IntentVersionRef, IntentVersionRefView, INTENT_CONTRACT_SCHEMA_VERSION,
    MAX_INTENTS_PER_PLAN, MAX_INTENT_CRITERIA, MAX_INTENT_DEPENDENCIES, MAX_INTENT_STATEMENT_BYTES,
    MAX_INTENT_TITLE_BYTES,
};
use crate::json::{add_member, close_object, member, object, quote, quoted, Encode};
use crate::text::{
    all_of, blank, byte_len, byte_length, decimal, decimal_text, every, is_blank,
    is_plain_relative_path, joined, plain_relative_path, trim, trimmed, CharClass,
};
use crate::value::{
    chain, check, distinct, first_failure, holds, lemma_all_pass, lemma_failures_begin,
    lemma_failures_end, lemma_failures_step, lemma_push_view, outcome, reject, repeated_at, repeats,
    verdict, KernelError, Value, Verdict,
};

verus! {

/// The name of a digest domain.
pub open spec fn domain_name(domain: IntentDigestDomain) -> Seq<char> {
    match domain {
        IntentDigestDomain::Plan => "sigil.intent.plan.v1"@,
        IntentDigestDomain::Proposal => "sigil.intent.proposal.v1"@,
        IntentDigestDomain::LayerCore => "sigil.intent.layer_core.v1"@,
        IntentDigestDomain::LayerManifest => "sigil.intent.layer_manifest.v1"@,
        IntentDigestDomain::ArtifactManifest => "sigil.intent.artifact_manifest.v1"@,
        IntentDigestDomain::OperationPreview => "sigil.intent.operation_preview.v1"@,
    }
}

impl IntentDigestDomain {
    /// The name of the domain, as it enters the digest.
    pub fn as_domain(self) -> (r: &'static str)
        ensures
            r@ == domain_name(self),
    {
        match self {
            IntentDigestDomain::Plan => "sigil.intent.plan.v1",
            IntentDigestDomain::Proposal => "sigil.intent.proposal.v1",
            IntentDigestDomain::LayerCore => "sigil.intent.layer_core.v1",
            IntentDigestDomain::LayerManifest => "sigil.intent.layer_manifest.v1",
            IntentDigestDomain::ArtifactManifest => "sigil.intent.artifact_manifest.v1",
            IntentDigestDomain::OperationPreview => "sigil.intent.operation_preview.v1",
        }
    }
}

/// The canonical text that a digest covers: the domain, the payload and the schema version.
pub open spec fn envelope(domain: IntentDigestDomain, payload: Seq<char>) -> Seq<char> {
    let t = member(Seq::empty(), "domain"@, quoted(domain_name(domain)));
    let t = member(t, "payload"@, payload);
    object(member(t, "schema_version"@, decimal(INTENT_CONTRACT_SCHEMA_VERSION as nat)))
}

/// The digest of a payload in a domain.
pub open spec fn canonical_digest(domain: IntentDigestDomain, payload: Seq<char>) -> Seq<char> {
    text_digest_of(envelope(domain, payload))
}

/// The digest of a canonical payload text.
pub fn canonical_text_digest(domain: IntentDigestDomain, payload: &String) -> (r: IntentDigest)
    ensures
        r.deep_view() == canonical_digest(domain, payload@),
{
    let mut t = String::new();
    add_member(&mut t, "domain", &quote(domain.as_domain()));
    add_member(&mut t, "payload", payload);
    add_member(&mut t, "schema_version", &decimal_text(INTENT_CONTRACT_SCHEMA_VERSION as u64));
    close_object(&mut t);
    IntentDigest::of_text(t.as_str())
}

/// The digest of a value's canonical text, separated by domain. Every value has one.
pub fn canonical_intent_digest<T: Encode>(domain: IntentDigestDomain, value: &T) -> (r: Result<
    IntentDigest,
    KernelError,
>)
    ensures
        outcome(r) == Ok::<Seq<char>, Seq<char>>(
            canonical_digest(domain, T::json(value.deep_view())),
        ),
{
    let payload = value.to_json();
    Ok(canonical_text_digest(domain, &payload))
}

/// The check of a schema version.
pub open spec fn schema_verdict(version: u16) -> Verdict {
    check(
        version == INTENT_CONTRACT_SCHEMA_VERSION,
        "unsupported intent contract schema version "@ + decimal(version as nat),
    )
}

/// Checks a schema version.
pub fn validate_schema_version(version: u16) -> (r: Result<(), KernelError>)
    ensures
        verdict(r) == schema_verdict(version),
{
    if version != INTENT_CONTRACT_SCHEMA_VERSION {
        let number = decimal_text(version as u64);
        return Err(
            KernelError {
                message: joined("unsupported intent contract schema version ", number.as_str()),
            },
        );
    }
    Ok(())
}

/// The check of a bounded identity. White space round it does not count: what is left is not empty,
/// at most 256 bytes long and free of control characters.
pub open spec fn bounded_identity_verdict(label: Seq<char>, value: Seq<char>) -> Verdict {
    let t = trimmed(value);
    chain(
        check(t.len() > 0, labelled(label, " cannot be empty"@)),
        chain(
            check(byte_len(t) <= 256, labelled(label, " is too long"@)),
            check(every(CharClass::Printable, t), labelled(label, " contains control characters"@)),
        ),
    )
}

/// Checks a bounded identity.
pub fn validate_bounded_identity(label: &str, value: &str) -> (r: Result<(), KernelError>)
    ensures
        verdict(r) == bounded_identity_verdict(label@, value@),
{
    let t = trim(value);
    if t.as_str().is_empty() {
        return reject_labelled(label, " cannot be empty");
    }
    if byte_length(t.as_str()) > 256 {
        return reject_labelled(label, " is too long");
    }
    if !all_of(CharClass::Printable, t.as_str()) {
        return reject_labelled(label, " contains control characters");
    }
    Ok(())
}

/// The check of a bounded text: not blank, at most `max` bytes, and free of control characters other
/// than line feed, carriage return and tab.
pub open spec fn bounded_text_verdict(label: Seq<char>, value: Seq<char>, max: nat) -> Verdict {
    chain(
        check(!is_blank(value), labelled(label, " cannot be empty"@)),
        chain(
            check(
                byte_len(value) <= max,
                labelled(label, " exceeds "@) + decimal(max) + " bytes"@,
            ),
            check(
                every(CharClass::Prose, value),
                labelled(label, " contains unsupported control characters"@),
            ),
        ),
    )
}

/// Checks a bounded text.
pub fn validate_bounded_text(label: &str, value: &str, max: usize) -> (r: Result<(), KernelError>)
    ensures
        verdict(r) == bounded_text_verdict(label@, value@, max as nat),
{
    if blank(value) {
        return reject_labelled(label, " cannot be empty");
    }
    if byte_length(value) > max {
        let mut message = joined(label, " exceeds ");
        let number = decimal_text(max as u64);
        message.append(number.as_str());
        message.append(" bytes");
        return Err(KernelError { message });
    }
    if !all_of(CharClass::Prose, value) {
        return reject_labelled(label, " contains unsupported control characters");
    }
    Ok(())
}

/// The check of an artifact path.
pub open spec fn relative_path_verdict(value: Seq<char>) -> Verdict {
    chain(
        check(
            is_plain_relative_path(value),
            "intent artifact path must be a normalized relative path"@,
        ),
        check(
            every(CharClass::Printable, value),
            "intent artifact path contains control characters"@,
        ),
    )
}

/// Checks an artifact path.
pub fn validate_normalized_relative_path(value: &str) -> (r: Result<(), KernelError>)
    ensures
        verdict(r) == relative_path_verdict(value@),
{
    if !plain_relative_path(value) {
        return reject("intent artifact path must be a normalized relative path");
    }
    if !all_of(CharClass::Printable, value) {
        return reject("intent artifact path contains control characters");
    }
    Ok(())
}

/// The check of a version reference.
pub open spec fn ref_verdict(r: IntentVersionRefView) -> Verdict {
    check(r.version != 0, "intent version must be non-zero"@)
}

impl IntentVersionRef {
    /// Makes a reference to a version other than zero.
    pub fn new(intent_id: IntentId, version: u64) -> (r: Result<Self, KernelError>)
        ensures
            outcome(r) == if version == 0 {
                Err::<IntentVersionRefView, Seq<char>>("intent version must be non-zero"@)
            } else {
                Ok((IntentVersionRefView { intent_id: intent_id.deep_view(), version }))
            },
    {
        if version == 0 {
            return Err(KernelError::new("intent version must be non-zero"));
        }
        Ok(IntentVersionRef { intent_id, version })
    }

    /// Checks that the version is not zero.
    pub fn validate(&self) -> (r: Result<(), KernelError>)
        ensures
            verdict(r) == ref_verdict(self.deep_view()),
    {
        if self.version == 0 {
            return reject("intent version must be non-zero");
        }
        Ok(())
    }
}

/// The check of an optional identity: it counts only where there is one.
pub open spec fn optional_identity_verdict(label: Seq<char>, value: Option<Seq<char>>) -> Verdict {
    match value {
        Some(v) => bounded_identity_verdict(label, v),
        None => Ok(()),
    }
}

pub(crate) fn validate_optional_identity(label: &str, value: &Option<String>) -> (r: Result<(), KernelError>)
    ensures
        verdict(r) == optional_identity_verdict(label@, value.deep_view()),
{
    match value {
        Some(v) => validate_bounded_identity(label, v.as_str()),
        None => Ok(()),
    }
}

/// The attempt that an execution origin names.
pub open spec fn origin_attempt(origin: IntentExecutionOriginV1View) -> Option<Seq<char>> {
    match origin {
        IntentExecutionOriginV1View::Task { attempt_id, .. } => attempt_id,
        IntentExecutionOriginV1View::Chat { attempt_id, .. } => attempt_id,
    }
}

/// The check of an execution origin.
pub open spec fn origin_verdict(
    origin: IntentExecutionOriginV1View,
    require_attempt: bool,
) -> Verdict {
    chain(
        match origin {
            IntentExecutionOriginV1View::Task {
                task_id,
                task_plan_version,
                step_id,
                attempt_id,
            } => chain(
                bounded_identity_verdict("intent task id"@, task_id),
                chain(
                    check(task_plan_version != 0, "intent task plan version must be non-zero"@),
                    chain(
                        bounded_identity_verdict("intent task step id"@, step_id),
                        optional_identity_verdict("intent task attempt id"@, attempt_id),
                    ),
                ),
            ),
            IntentExecutionOriginV1View::Chat {
                root_logical_run_id,
                source_turn_id,
                attempt_id,
            } => chain(
                bounded_identity_verdict("intent root logical run id"@, root_logical_run_id),
                chain(
                    bounded_identity_verdict("intent chat source turn id"@, source_turn_id),
                    optional_identity_verdict("intent chat attempt id"@, attempt_id),
                ),
            ),
        },
        check(
            !require_attempt || origin_attempt(origin) is Some,
            "executable intent layer requires a concrete terminal attempt"@,
        ),
    )
}

/// Checks an execution origin.
pub fn validate_execution_origin(origin: &IntentExecutionOriginV1, require_attempt: bool) -> (r:
    Result<(), KernelError>)
    ensures
        verdict(r) == origin_verdict(origin.deep_view(), require_attempt),
{
    let has_attempt = match origin {
        IntentExecutionOriginV1::Task { task_id, task_plan_version, step_id, attempt_id } => {
            validate_bounded_identity("intent task id", task_id.as_str())?;
            if *task_plan_version == 0 {
                return reject("intent task plan version must be non-zero");
            }
            validate_bounded_identity("intent task step id", step_id.as_str())?;
            validate_optional_identity("intent task attempt id", attempt_id)?;
            attempt_id.is_some()
        },
        IntentExecutionOriginV1::Chat { root_logical_run_id, source_turn_id, attempt_id } => {
            validate_bounded_identity("intent root logical run id", root_logical_run_id.as_str())?;
            validate_bounded_identity("intent chat source turn id", source_turn_id.as_str())?;
            validate_optional_identity("intent chat attempt id", attempt_id)?;
            attempt_id.is_some()
        },
    };
    if require_attempt && !has_attempt {
        return reject("executable intent layer requires a concrete terminal attempt");
    }
    Ok(())
}

/// The check of an execution binding.
pub open spec fn binding_verdict(binding: IntentExecutionBindingV1View) -> Verdict {
    chain(
        ref_verdict(binding.intent_ref),
        chain(
            bounded_identity_verdict(
                "intent execution source event id"@,
                binding.source_event_id,
            ),
            origin_verdict(binding.origin, false),
        ),
    )
}

/// Checks an execution binding.
pub fn validate_execution_binding(binding: &IntentExecutionBindingV1) -> (r: Result<
    (),
    KernelError,
>)
    ensures
        verdict(r) == binding_verdict(binding.deep_view()),
{
    binding.intent_ref.validate()?;
    validate_bounded_identity(
        "intent execution source event id",
        binding.source_event_id.as_str(),
    )?;
    validate_execution_origin(&binding.origin, false)
}

/// The check of where an intent comes from.
pub open spec fn source_verdict(source: IntentSourceV1View) -> Verdict {
    match source {
        IntentSourceV1View::UserTurn { source_turn_id } => bounded_identity_verdict(
            "intent source turn id"@,
            source_turn_id,
        ),
        IntentSourceV1View::AcceptedSuggestion { source_turn_id, .. } => bounded_identity_verdict(
            "intent source turn id"@,
            source_turn_id,
        ),
        IntentSourceV1View::TrustedSource { source_ref, .. } => bounded_identity_verdict(
            "intent trusted spec source ref"@,
            source_ref,
        ),
    }
}

/// Checks where an intent comes from.
pub fn validate_intent_source(source: &IntentSourceV1) -> (r: Result<(), KernelError>)
    ensures
        verdict(r) == source_verdict(source.deep_view()),
{
    match source {
        IntentSourceV1::UserTurn { source_turn_id } => validate_bounded_identity(
            "intent source turn id",
            source_turn_id.as_str(),
        ),
        IntentSourceV1::AcceptedSuggestion { source_turn_id, .. } => validate_bounded_identity(
            "intent source turn id",
            source_turn_id.as_str(),
        ),
        IntentSourceV1::TrustedSource { source_ref, .. } => validate_bounded_identity(
            "intent trusted spec source ref",
            source_ref.as_str(),
        ),
    }
}

// Proposals.

/// The aliases of the intents of a proposal.
pub open spec fn proposal_aliases(intents: Seq<IntentProposalUnitV1View>) -> Seq<Seq<char>> {
    intents.map_values(|u: IntentProposalUnitV1View| u.intent_alias)
}

/// The aliases that each intent of a proposal depends on.
pub open spec fn proposal_needs(intents: Seq<IntentProposalUnitV1View>) -> Seq<Seq<Seq<char>>> {
    intents.map_values(|u: IntentProposalUnitV1View| u.depends_on_aliases)
}

/// The aliases of the criteria of a proposed intent.
pub open spec fn criterion_aliases(criteria: Seq<IntentProposalCriterionV1View>) -> Seq<
    Seq<char>,
> {
    criteria.map_values(|c: IntentProposalCriterionV1View| c.criterion_alias)
}

/// The check of the criterion at `i`.
pub open spec fn proposal_criterion_verdict(
    criteria: Seq<IntentProposalCriterionV1View>,
    i: int,
) -> Verdict {
    chain(
        stable_identity_verdict("intent proposal criterion alias"@, criteria[i].criterion_alias),
        chain(
            bounded_text_verdict(
                "intent proposal criterion"@,
                criteria[i].statement,
                MAX_INTENT_STATEMENT_BYTES as nat,
            ),
            check(
                !repeats(criterion_aliases(criteria), i),
                "intent proposal contains duplicate criterion aliases"@,
            ),
        ),
    )
}

/// The checks of all criteria of a proposed intent.
pub open spec fn proposal_criteria_verdicts(
    criteria: Seq<IntentProposalCriterionV1View>,
) -> Seq<Verdict> {
    Seq::new(criteria.len(), |i: int| proposal_criterion_verdict(criteria, i))
}

/// The check of the proposed intent at `i`.
pub open spec fn proposal_intent_verdict(
    intents: Seq<IntentProposalUnitV1View>,
    i: int,
) -> Verdict {
    let u = intents[i];
    chain(
        stable_identity_verdict("intent proposal alias"@, u.intent_alias),
        chain(
            bounded_text_verdict("intent title"@, u.title, MAX_INTENT_TITLE_BYTES as nat),
            chain(
                bounded_text_verdict(
                    "intent statement"@,
                    u.statement,
                    MAX_INTENT_STATEMENT_BYTES as nat,
                ),
                chain(
                    check(
                        u.acceptance_criteria.len() > 0,
                        "intent proposal must contain at least one acceptance criterion"@,
                    ),
                    chain(
                        check(
                            u.acceptance_criteria.len() <= MAX_INTENT_CRITERIA,
                            "intent proposal contains too many acceptance criteria"@,
                        ),
                        chain(
                            check(
                                u.depends_on_aliases.len() <= MAX_INTENT_DEPENDENCIES,
                                "intent proposal contains too many dependencies"@,
                            ),
                            chain(
                                check(
                                    !repeats(proposal_aliases(intents), i),
                                    "intent proposal contains duplicate aliases"@,
                                ),
                                first_failure(proposal_criteria_verdicts(u.acceptance_criteria)),
                            ),
                        ),
                    ),
                ),
            ),
        ),
    )
}

/// The checks of all proposed intents.
pub open spec fn proposal_intent_verdicts(intents: Seq<IntentProposalUnitV1View>) -> Seq<Verdict> {
    Seq::new(intents.len(), |i: int| proposal_intent_verdict(intents, i))
}

/// The messages of the checks on dependencies.
pub struct DependencyMessages {
    pub on_itself: Seq<char>,
    pub unknown: Seq<char>,
    pub repeated: Seq<char>,
}

/// The check of the dependency at `k` of the item named `own`.
pub open spec fn dependency_verdict(
    names: Seq<Seq<char>>,
    own: Seq<char>,
    needs: Seq<Seq<char>>,
    k: int,
    m: DependencyMessages,
) -> Verdict {
    chain(
        check(needs[k] != own, m.on_itself),
        chain(
            check(names.contains(needs[k]), m.unknown),
            check(!repeats(needs, k), m.repeated),
        ),
    )
}

/// The checks of all dependencies of the item at `i`.
pub open spec fn own_dependency_verdicts(
    names: Seq<Seq<char>>,
    needs: Seq<Seq<Seq<char>>>,
    i: int,
    m: DependencyMessages,
) -> Seq<Verdict> {
    Seq::new(needs[i].len(), |k: int| dependency_verdict(names, names[i], needs[i], k, m))
}

/// The checks of the dependencies of every item.
pub open spec fn dependency_verdicts(
    names: Seq<Seq<char>>,
    needs: Seq<Seq<Seq<char>>>,
    m: DependencyMessages,
) -> Seq<Verdict> {
    Seq::new(needs.len(), |i: int| first_failure(own_dependency_verdicts(names, needs, i, m)))
}

/// Checks that each item depends on other items of the list, on none of them twice.
fn validate_dependencies(
    names: &Vec<String>,
    needs: &Vec<Vec<String>>,
    on_itself: &str,
    unknown: &str,
    repeated: &str,
) -> (r: Result<(), KernelError>)
    requires
        names.len() == needs.len(),
    ensures
        verdict(r) == first_failure(
            dependency_verdicts(
                names.deep_view(),
                needs.deep_view(),
                DependencyMessages {
                    on_itself: on_itself@,
                    unknown: unknown@,
                    repeated: repeated@,
                },
            ),
        ),
{
    let ghost m = DependencyMessages {
        on_itself: on_itself@,
        unknown: unknown@,
        repeated: repeated@,
    };
    let ghost n = names.deep_view();
    let ghost d = needs.deep_view();
    let ghost all = dependency_verdicts(n, d, m);
    let mut i: usize = 0;
    proof {
        lemma_failures_begin(all);
    }
    while i < needs.len()
        invariant
            i <= needs.len(),
            names.len() == needs.len(),
            n == names.deep_view(),
            d == needs.deep_view(),
            all == dependency_verdicts(n, d, m),
            m == (DependencyMessages {
                on_itself: on_itself@,
                unknown: unknown@,
                repeated: repeated@,
            }),
            first_failure(all) == first_failure(all.skip(i as int)),
        decreases needs.len() - i,
    {
        proof {
            lemma_failures_step(all, i as int);
        }
        let ghost each = own_dependency_verdicts(n, d, i as int, m);
        assert(all[i as int] == first_failure(each));
        let own = &needs[i];
        assert(d[i as int] == own.deep_view());
        assert(n[i as int] == names@[i as int]@);
        let mut k: usize = 0;
        proof {
            lemma_failures_begin(each);
        }
        while k < own.len()
            invariant
                k <= own.len(),
                i < needs.len(),
                names.len() == needs.len(),
                n == names.deep_view(),
                d == needs.deep_view(),
                d[i as int] == own.deep_view(),
                n[i as int] == names@[i as int]@,
                each == own_dependency_verdicts(n, d, i as int, m),
                all == dependency_verdicts(n, d, m),
                first_failure(all) == chain(
                    first_failure(each),
                    first_failure(all.skip(i + 1)),
                ),
                m == (DependencyMessages {
                    on_itself: on_itself@,
                    unknown: unknown@,
                    repeated: repeated@,
                }),
                first_failure(each) == first_failure(each.skip(k as int)),
            decreases own.len() - k,
        {
            proof {
                lemma_failures_step(each, k as int);
            }
            assert(d[i as int][k as int] == own@[k as int]@);
            if own[k] == names[i] {
                return reject(on_itself);
            }
            if !holds(names, &own[k]) {
                return reject(unknown);
            }
            if repeated_at(own, k) {
                return reject(repeated);
            }
            k = k + 1;
        }
        proof {
            lemma_failures_end(each);
        }
        i = i + 1;
    }
    proof {
        lemma_failures_end(all);
    }
    Ok(())
}

/// The messages of the dependency checks of a proposal.
pub open spec fn proposal_dependency_messages() -> DependencyMessages {
    DependencyMessages {
        on_itself: "intent proposal cannot depend on itself"@,
        unknown: "intent proposal dependency alias does not exist"@,
        repeated: "intent proposal contains duplicate dependency aliases"@,
    }
}

/// The checks of a proposal, all but that of its digest.
#[verifier::opaque]
pub open spec fn proposal_shape_verdict(p: IntentPlanProposalV1View) -> Verdict {
    chain(
        schema_verdict(p.schema_version),
        chain(
            bounded_identity_verdict("intent proposal id"@, p.proposal_id),
            chain(
                bounded_identity_verdict("intent proposal source turn id"@, p.source_turn_id),
                chain(
                    check(
                        p.intents.len() > 0,
                        "intent proposal must contain at least one intent"@,
                    ),
                    chain(
                        check(
                            p.intents.len() <= MAX_INTENTS_PER_PLAN,
                            "intent proposal contains too many intents"@,
                        ),
                        chain(
                            first_failure(proposal_intent_verdicts(p.intents)),
                            chain(
                                first_failure(
                                    dependency_verdicts(
                                        proposal_aliases(p.intents),
                                        proposal_needs(p.intents),
                                        proposal_dependency_messages(),
                                    ),
                                ),
                                check(
                                    acyclic(
                                        proposal_aliases(p.intents),
                                        proposal_needs(p.intents),
                                    ),
                                    "intent proposal dependency graph contains a cycle"@,
                                ),
                            ),
                        ),
                    ),
                ),
            ),
        ),
    )
}

/// The digest that a proposal should carry.
#[verifier::opaque]
pub open spec fn proposal_digest_of(p: IntentPlanProposalV1View) -> Seq<char> {
    canonical_digest(IntentDigestDomain::Proposal, IntentPlanProposalV1::payload_json(p))
}

/// The checks of a proposal.
pub open spec fn proposal_verdict(p: IntentPlanProposalV1View) -> Verdict {
    chain(
        proposal_shape_verdict(p),
        check(
            p.proposal_digest == proposal_digest_of(p),
            "intent proposal canonical digest mismatch"@,
        ),
    )
}

fn proposal_names(intents: &Vec<IntentProposalUnitV1>) -> (r: (Vec<String>, Vec<Vec<String>>))
    ensures
        r.0.deep_view() == proposal_aliases(intents.deep_view()),
        r.1.deep_view() == proposal_needs(intents.deep_view()),
        r.0.len() == intents.len(),
        r.1.len() == intents.len(),
{
    let mut names: Vec<String> = Vec::new();
    let mut needs: Vec<Vec<String>> = Vec::new();
    let ghost v = intents.deep_view();
    let mut i: usize = 0;
    while i < intents.len()
        invariant
            i <= intents.len(),
            v == intents.deep_view(),
            names.len() == i,
            needs.len() == i,
            names.deep_view() =~= proposal_aliases(v).take(i as int),
            needs.deep_view() =~= proposal_needs(v).take(i as int),
        decreases intents.len() - i,
    {
        let ghost n0 = names;
        let ghost d0 = needs;
        let a = intents[i].intent_alias.duplicate();
        let d = intents[i].depends_on_aliases.duplicate();
        assert(v[i as int] == intents@[i as int].deep_view());
        names.push(a);
        needs.push(d);
        proof {
            lemma_push_view(n0, a, names);
            lemma_push_view(d0, d, needs);
        }
        i = i + 1;
    }
    (names, needs)
}

fn validate_proposal_criteria(criteria: &Vec<IntentProposalCriterionV1>) -> (r: Result<
    (),
    KernelError,
>)
    ensures
        verdict(r) == first_failure(proposal_criteria_verdicts(criteria.deep_view())),
{
    let ghost v = criteria.deep_view();
    let ghost all = proposal_criteria_verdicts(v);
    let mut seen: Vec<String> = Vec::new();
    let mut i: usize = 0;
    proof {
        lemma_failures_begin(all);
    }
    while i < criteria.len()
        invariant
            i <= criteria.len(),
            v == criteria.deep_view(),
            all == proposal_criteria_verdicts(v),
            seen.deep_view() =~= criterion_aliases(v).take(i as int),
            first_failure(all) == first_failure(all.skip(i as int)),
        decreases criteria.len() - i,
    {
        proof {
            lemma_failures_step(all, i as int);
        }
        assert(v[i as int] == criteria@[i as int].deep_view());
        let ghost names = criterion_aliases(v);
        assert(names[i as int] == criteria@[i as int].criterion_alias@);
        validate_stable_identity(
            "intent proposal criterion alias",
            criteria[i].criterion_alias.as_str(),
        )?;
        validate_bounded_text(
            "intent proposal criterion",
            criteria[i].statement.as_str(),
            MAX_INTENT_STATEMENT_BYTES,
        )?;
        proof {
            lemma_repeats_is_seen(names, i as int);
        }
        if holds(&seen, &criteria[i].criterion_alias) {
            return reject("intent proposal contains duplicate criterion aliases");
        }
        let ghost s0 = seen;
        let a = criteria[i].criterion_alias.duplicate();
        seen.push(a);
        proof {
            lemma_push_view(s0, a, seen);
        }
        i = i + 1;
    }
    proof {
        lemma_failures_end(all);
    }
    Ok(())
}

/// An item repeats exactly if the items before it hold it.
pub proof fn lemma_repeats_is_seen<A>(s: Seq<A>, i: int)
    requires
        0 <= i < s.len(),
    ensures
        repeats(s, i) == s.take(i).contains(s[i]),
{
    if repeats(s, i) {
        let j = choose|j: int| 0 <= j < i && #[trigger] s[j] == s[i];
        assert(s.take(i)[j] == s[i]);
    }
    if s.take(i).contains(s[i]) {
        let j = choose|j: int| 0 <= j < s.take(i).len() && s.take(i)[j] == s[i];
        assert(s[j] == s[i]);
    }
}

fn validate_proposal_intent(
    intents: &Vec<IntentProposalUnitV1>,
    names: &Vec<String>,
    i: usize,
) -> (r: Result<(), KernelError>)
    requires
        i < intents.len(),
        names.len() == intents.len(),
        names.deep_view() == proposal_aliases(intents.deep_view()),
    ensures
        verdict(r) == proposal_intent_verdict(intents.deep_view(), i as int),
{
    let u = &intents[i];
    assert(intents.deep_view()[i as int] == u.deep_view());
    validate_stable_identity("intent proposal alias", u.intent_alias.as_str())?;
    validate_bounded_text("intent title", u.title.as_str(), MAX_INTENT_TITLE_BYTES)?;
    validate_bounded_text("intent statement", u.statement.as_str(), MAX_INTENT_STATEMENT_BYTES)?;
    if u.acceptance_criteria.len() == 0 {
        return reject("intent proposal must contain at least one acceptance criterion");
    }
    if u.acceptance_criteria.len() > MAX_INTENT_CRITERIA {
        return reject("intent proposal contains too many acceptance criteria");
    }
    if u.depends_on_aliases.len() > MAX_INTENT_DEPENDENCIES {
        return reject("intent proposal contains too many dependencies");
    }
    if repeated_at(names, i) {
        return reject("intent proposal contains duplicate aliases");
    }
    validate_proposal_criteria(&u.acceptance_criteria)
}

impl IntentPlanProposalV1 {
    /// Makes a proposal of what a provider suggests; its digest is computed here. It grants nothing.
    pub fn new(
        proposal_id: String,
        source_turn_id: String,
        intents: Vec<IntentProposalUnitV1>,
    ) -> (r: Result<Self, KernelError>)
        ensures
            ({
                let draft = IntentPlanProposalV1View {
                    schema_version: INTENT_CONTRACT_SCHEMA_VERSION,
                    proposal_id: proposal_id@,
                    source_turn_id: source_turn_id@,
                    intents: intents.deep_view(),
                    proposal_digest: zero_digest_text(),
                };
                match proposal_shape_verdict(draft) {
                    Ok(_) => outcome(r) == Ok::<IntentPlanProposalV1View, Seq<char>>(
                        (IntentPlanProposalV1View {
                            proposal_digest: proposal_digest_of(draft),
                            ..draft
                        }),
                    ),
                    Err(e) => outcome(r) == Err::<IntentPlanProposalV1View, Seq<char>>(e),
                }
            }),
            r matches Ok(p) ==> proposal_verdict(p.deep_view()) is Ok,
    {
        let mut proposal = IntentPlanProposalV1 {
            schema_version: INTENT_CONTRACT_SCHEMA_VERSION,
            proposal_id,
            source_turn_id,
            intents,
            proposal_digest: IntentDigest::zero(),
        };
        let digest = proposal.computed_digest()?;
        proof {
            lemma_proposal_digest_is_left_out(proposal.deep_view(), digest.deep_view());
        }
        proposal.proposal_digest = digest;
        proposal.validate_contract()?;
        Ok(proposal)
    }

    /// The digest of the proposal, its own digest left out.
    pub fn computed_digest(&self) -> (r: Result<IntentDigest, KernelError>)
        ensures
            outcome(r) == Ok::<Seq<char>, Seq<char>>(proposal_digest_of(self.deep_view())),
    {
        let payload = self.to_payload_json();
        proof {
            reveal(proposal_digest_of);
        }
        Ok(canonical_text_digest(IntentDigestDomain::Proposal, &payload))
    }

    /// Checks the shape of the proposal and its digest.
    pub fn validate_contract(&self) -> (r: Result<(), KernelError>)
        ensures
            verdict(r) == proposal_verdict(self.deep_view()),
    {
        proof {
            reveal(proposal_shape_verdict);
        }
        validate_schema_version(self.schema_version)?;
        validate_bounded_identity("intent proposal id", self.proposal_id.as_str())?;
        validate_bounded_identity("intent proposal source turn id", self.source_turn_id.as_str())?;
        if self.intents.len() == 0 {
            return reject("intent proposal must contain at least one intent");
        }
        if self.intents.len() > MAX_INTENTS_PER_PLAN {
            return reject("intent proposal contains too many intents");
        }
        let graph = proposal_names(&self.intents);
        let ghost v = self.intents.deep_view();
        let ghost all = proposal_intent_verdicts(v);
        let ghost rest = chain(
            first_failure(
                dependency_verdicts(
                    proposal_aliases(v),
                    proposal_needs(v),
                    proposal_dependency_messages(),
                ),
            ),
            check(
                acyclic(proposal_aliases(v), proposal_needs(v)),
                "intent proposal dependency graph contains a cycle"@,
            ),
        );
        let mut i: usize = 0;
        proof {
            lemma_failures_begin(all);
        }
        while i < self.intents.len()
            invariant
                i <= self.intents.len(),
                v == self.intents.deep_view(),
                all == proposal_intent_verdicts(v),
                graph.0.deep_view() == proposal_aliases(v),
                graph.0.len() == self.intents.len(),
                proposal_shape_verdict(self.deep_view()) == chain(first_failure(all), rest),
                first_failure(all) == first_failure(all.skip(i as int)),
            decreases self.intents.len() - i,
        {
            proof {
                lemma_failures_step(all, i as int);
            }
            validate_proposal_intent(&self.intents, &graph.0, i)?;
            i = i + 1;
        }
        proof {
            lemma_failures_end(all);
        }
        validate_dependencies(
            &graph.0,
            &graph.1,
            "intent proposal cannot depend on itself",
            "intent proposal dependency alias does not exist",
            "intent proposal contains duplicate dependency aliases",
        )?;
        if !has_no_cycle(&graph.0, &graph.1) {
            return reject("intent proposal dependency graph contains a cycle");
        }
        let digest = self.computed_digest()?;
        if !digest.same(&self.proposal_digest) {
            return reject("intent proposal canonical digest mismatch");
        }
        Ok(())
    }
}

// Plans.

/// The identities of the intents of a plan.
pub open spec fn plan_ids(intents: Seq<IntentDefinitionV1View>) -> Seq<Seq<char>> {
    intents.map_values(|d: IntentDefinitionV1View| d.intent_ref.intent_id)
}

/// The identities that each intent of a plan depends on.
pub open spec fn plan_needs(intents: Seq<IntentDefinitionV1View>) -> Seq<Seq<Seq<char>>> {
    intents.map_values(|d: IntentDefinitionV1View| d.depends_on)
}

/// The identities of the criteria of an intent.
pub open spec fn criterion_ids(criteria: Seq<IntentAcceptanceCriterionV1View>) -> Seq<Seq<char>> {
    criteria.map_values(|c: IntentAcceptanceCriterionV1View| c.criterion_id)
}

/// The check of the criterion at `i`.
pub open spec fn criterion_verdict(
    criteria: Seq<IntentAcceptanceCriterionV1View>,
    i: int,
) -> Verdict {
    chain(
        bounded_text_verdict(
            "intent acceptance criterion"@,
            criteria[i].statement,
            MAX_INTENT_STATEMENT_BYTES as nat,
        ),
        check(
            !repeats(criterion_ids(criteria), i),
            "intent contains duplicate acceptance criterion ids"@,
        ),
    )
}

/// The checks of all criteria of an intent.
pub open spec fn criteria_verdicts(criteria: Seq<IntentAcceptanceCriterionV1View>) -> Seq<
    Verdict,
> {
    Seq::new(criteria.len(), |i: int| criterion_verdict(criteria, i))
}

/// The check of what an intent supersedes: an earlier version of the same intent.
pub open spec fn supersedes_verdict(d: IntentDefinitionV1View) -> Verdict {
    match d.supersedes {
        Some(s) => chain(
            ref_verdict(s),
            check(
                s.intent_id == d.intent_ref.intent_id && s.version < d.intent_ref.version,
                "intent supersedes must reference an earlier version of the same intent"@,
            ),
        ),
        None => Ok(()),
    }
}

/// The check of the intent at `i` of a plan.
pub open spec fn definition_verdict(intents: Seq<IntentDefinitionV1View>, i: int) -> Verdict {
    let d = intents[i];
    chain(
        ref_verdict(d.intent_ref),
        chain(
            bounded_text_verdict("intent title"@, d.title, MAX_INTENT_TITLE_BYTES as nat),
            chain(
                bounded_text_verdict(
                    "intent statement"@,
                    d.statement,
                    MAX_INTENT_STATEMENT_BYTES as nat,
                ),
                chain(
                    check(
                        d.acceptance_criteria.len() > 0,
                        "intent must contain at least one acceptance criterion"@,
                    ),
                    chain(
                        check(
                            d.acceptance_criteria.len() <= MAX_INTENT_CRITERIA,
                            "intent contains too many acceptance criteria"@,
                        ),
                        chain(
                            check(
                                d.depends_on.len() <= MAX_INTENT_DEPENDENCIES,
                                "intent contains too many dependencies"@,
                            ),
                            chain(
                                first_failure(criteria_verdicts(d.acceptance_criteria)),
                                chain(
                                    check(
                                        !repeats(plan_ids(intents), i),
                                        "intent plan contains duplicate intent ids"@,
                                    ),
                                    chain(source_verdict(d.source), supersedes_verdict(d)),
                                ),
                            ),
                        ),
                    ),
                ),
            ),
        ),
    )
}

/// The checks of all intents of a plan.
pub open spec fn definition_verdicts(intents: Seq<IntentDefinitionV1View>) -> Seq<Verdict> {
    Seq::new(intents.len(), |i: int| definition_verdict(intents, i))
}

/// The check that the kind of a plan fits where its intents come from.
pub open spec fn plan_kind_verdict(p: IntentPlanV1View) -> Verdict {
    match p.kind {
        IntentPlanKind::UserDeclaredRoot => chain(
            check(
                p.intents.len() == 1,
                "user-declared root plan must contain exactly one intent"@,
            ),
            check(
                p.intents[0].source is UserTurn,
                "user-declared root plan must use user-turn provenance"@,
            ),
        ),
        IntentPlanKind::SuggestedDecomposition => check(
            forall|i: int| 0 <= i < p.intents.len() ==> !((#[trigger] p.intents[i]).source is UserTurn),
            "suggested decomposition cannot use direct user-root provenance"@,
        ),
    }
}

/// The messages of the dependency checks of a plan.
pub open spec fn plan_dependency_messages() -> DependencyMessages {
    DependencyMessages {
        on_itself: "intent cannot depend on itself"@,
        unknown: "intent dependency does not exist in the same plan"@,
        repeated: "intent contains duplicate dependencies"@,
    }
}

/// The checks of the intents of a plan and of their dependencies.
pub open spec fn plan_graph_verdict(intents: Seq<IntentDefinitionV1View>) -> Verdict {
    chain(
        first_failure(definition_verdicts(intents)),
        chain(
            first_failure(
                dependency_verdicts(
                    plan_ids(intents),
                    plan_needs(intents),
                    plan_dependency_messages(),
                ),
            ),
            check(
                acyclic(plan_ids(intents), plan_needs(intents)),
                "intent dependency graph contains a cycle"@,
            ),
        ),
    )
}

/// The checks of a plan, all but that of its digest.
#[verifier::opaque]
pub open spec fn plan_shape_verdict(p: IntentPlanV1View) -> Verdict {
    chain(
        schema_verdict(p.schema_version),
        chain(
            bounded_identity_verdict("intent workspace id"@, p.workspace_id),
            chain(
                bounded_identity_verdict("intent source session id"@, p.source_session_id),
                chain(
                    check(p.intents.len() > 0, "intent plan must contain at least one intent"@),
                    chain(
                        check(
                            p.intents.len() <= MAX_INTENTS_PER_PLAN,
                            "intent plan contains too many intents"@,
                        ),
                        chain(plan_kind_verdict(p), plan_graph_verdict(p.intents)),
                    ),
                ),
            ),
        ),
    )
}

/// The digest that a plan should carry.
#[verifier::opaque]
pub open spec fn plan_digest_of(p: IntentPlanV1View) -> Seq<char> {
    canonical_digest(IntentDigestDomain::Plan, IntentPlanV1::payload_json(p))
}

/// The checks of a plan.
pub open spec fn plan_verdict(p: IntentPlanV1View) -> Verdict {
    chain(
        plan_shape_verdict(p),
        check(p.plan_digest == plan_digest_of(p), "intent plan canonical digest mismatch"@),
    )
}

fn plan_names(intents: &Vec<IntentDefinitionV1>) -> (r: (Vec<String>, Vec<Vec<String>>))
    ensures
        r.0.deep_view() == plan_ids(intents.deep_view()),
        r.1.deep_view() == plan_needs(intents.deep_view()),
        r.0.len() == intents.len(),
        r.1.len() == intents.len(),
{
    let mut names: Vec<String> = Vec::new();
    let mut needs: Vec<Vec<String>> = Vec::new();
    let ghost v = intents.deep_view();
    let mut i: usize = 0;
    while i < intents.len()
        invariant
            i <= intents.len(),
            v == intents.deep_view(),
            names.len() == i,
            needs.len() == i,
            names.deep_view() =~= plan_ids(v).take(i as int),
            needs.deep_view() =~= plan_needs(v).take(i as int),
        decreases intents.len() - i,
    {
        let ghost n0 = names;
        let ghost d0 = needs;
        assert(v[i as int] == intents@[i as int].deep_view());
        let a = intents[i].intent_ref.intent_id.as_str().to_owned();
        let d = id_texts(&intents[i].depends_on);
        names.push(a);
        needs.push(d);
        proof {
            lemma_push_view(n0, a, names);
            lemma_push_view(d0, d, needs);
        }
        i = i + 1;
    }
    (names, needs)
}

/// The texts of identities.
pub(crate) fn id_texts(ids: &Vec<IntentId>) -> (r: Vec<String>)
    ensures
        r.deep_view() == ids.deep_view(),
{
    let mut r: Vec<String> = Vec::new();
    let mut i: usize = 0;
    while i < ids.len()
        invariant
            i <= ids.len(),
            r.deep_view() =~= ids.deep_view().take(i as int),
        decreases ids.len() - i,
    {
        let ghost r0 = r;
        let t = ids[i].as_str().to_owned();
        r.push(t);
        proof {
            lemma_push_view(r0, t, r);
        }
        i = i + 1;
    }
    r
}

fn validate_criteria(criteria: &Vec<IntentAcceptanceCriterionV1>) -> (r: Result<(), KernelError>)
    ensures
        verdict(r) == first_failure(criteria_verdicts(criteria.deep_view())),
{
    let ghost v = criteria.deep_view();
    let ghost all = criteria_verdicts(v);
    let mut seen: Vec<String> = Vec::new();
    let mut i: usize = 0;
    proof {
        lemma_failures_begin(all);
    }
    while i < criteria.len()
        invariant
            i <= criteria.len(),
            v == criteria.deep_view(),
            all == criteria_verdicts(v),
            seen.deep_view() =~= criterion_ids(v).take(i as int),
            first_failure(all) == first_failure(all.skip(i as int)),
        decreases criteria.len() - i,
    {
        proof {
            lemma_failures_step(all, i as int);
        }
        assert(v[i as int] == criteria@[i as int].deep_view());
        let ghost names = criterion_ids(v);
        validate_bounded_text(
            "intent acceptance criterion",
            criteria[i].statement.as_str(),
            MAX_INTENT_STATEMENT_BYTES,
        )?;
        let a = criteria[i].criterion_id.as_str().to_owned();
        assert(names[i as int] == a@);
        proof {
            lemma_repeats_is_seen(names, i as int);
        }
        if holds(&seen, &a) {
            return reject("intent contains duplicate acceptance criterion ids");
        }
        let ghost s0 = seen;
        seen.push(a);
        proof {
            lemma_push_view(s0, a, seen);
        }
        i = i + 1;
    }
    proof {
        lemma_failures_end(all);
    }
    Ok(())
}

fn validate_definition(intents: &Vec<IntentDefinitionV1>, names: &Vec<String>, i: usize) -> (r:
    Result<(), KernelError>)
    requires
        i < intents.len(),
        names.len() == intents.len(),
        names.deep_view() == plan_ids(intents.deep_view()),
    ensures
        verdict(r) == definition_verdict(intents.deep_view(), i as int),
{
    let d = &intents[i];
    assert(intents.deep_view()[i as int] == d.deep_view());
    d.intent_ref.validate()?;
    validate_bounded_text("intent title", d.title.as_str(), MAX_INTENT_TITLE_BYTES)?;
    validate_bounded_text("intent statement", d.statement.as_str(), MAX_INTENT_STATEMENT_BYTES)?;
    if d.acceptance_criteria.len() == 0 {
        return reject("intent must contain at least one acceptance criterion");
    }
    if d.acceptance_criteria.len() > MAX_INTENT_CRITERIA {
        return reject("intent contains too many acceptance criteria");
    }
    if d.depends_on.len() > MAX_INTENT_DEPENDENCIES {
        return reject("intent contains too many dependencies");
    }
    validate_criteria(&d.acceptance_criteria)?;
    if repeated_at(names, i) {
        return reject("intent plan contains duplicate intent ids");
    }
    validate_intent_source(&d.source)?;
    if let Some(s) = &d.supersedes {
        s.validate()?;
        if !s.intent_id.same(&d.intent_ref.intent_id) || s.version >= d.intent_ref.version {
            return reject("intent supersedes must reference an earlier version of the same intent");
        }
    }
    Ok(())
}

fn validate_plan_kind(plan: &IntentPlanV1) -> (r: Result<(), KernelError>)
    requires
        plan.intents.len() > 0,
    ensures
        verdict(r) == plan_kind_verdict(plan.deep_view()),
{
    let ghost v = plan.intents.deep_view();
    match plan.kind {
        IntentPlanKind::UserDeclaredRoot => {
            if plan.intents.len() != 1 {
                return reject("user-declared root plan must contain exactly one intent");
            }
            assert(v[0] == plan.intents@[0].deep_view());
            match &plan.intents[0].source {
                IntentSourceV1::UserTurn { .. } => Ok(()),
                _ => reject("user-declared root plan must use user-turn provenance"),
            }
        },
        IntentPlanKind::SuggestedDecomposition => {
            let mut i: usize = 0;
            while i < plan.intents.len()
                invariant
                    i <= plan.intents.len(),
                    v == plan.intents.deep_view(),
                    v == plan.deep_view().intents,
                    plan.kind == IntentPlanKind::SuggestedDecomposition,
                    forall|j: int| 0 <= j < i ==> !((#[trigger] v[j]).source is UserTurn),
                decreases plan.intents.len() - i,
            {
                assert(v[i as int] == plan.intents@[i as int].deep_view());
                if matches!(&plan.intents[i].source, IntentSourceV1::UserTurn { .. }) {
                    return reject("suggested decomposition cannot use direct user-root provenance");
                }
                i = i + 1;
            }
            Ok(())
        },
    }
}

/// Checks the intents of a plan and their dependencies.
fn validate_plan_graph(intents: &Vec<IntentDefinitionV1>) -> (r: Result<(), KernelError>)
    ensures
        verdict(r) == plan_graph_verdict(intents.deep_view()),
{
    let graph = plan_names(intents);
    let ghost v = intents.deep_view();
    let ghost all = definition_verdicts(v);
    let mut i: usize = 0;
    proof {
        lemma_failures_begin(all);
    }
    while i < intents.len()
        invariant
            i <= intents.len(),
            v == intents.deep_view(),
            all == definition_verdicts(v),
            graph.0.deep_view() == plan_ids(v),
            graph.0.len() == intents.len(),
            first_failure(all) == first_failure(all.skip(i as int)),
        decreases intents.len() - i,
    {
        proof {
            lemma_failures_step(all, i as int);
        }
        validate_definition(intents, &graph.0, i)?;
        i = i + 1;
    }
    proof {
        lemma_failures_end(all);
    }
    validate_dependencies(
        &graph.0,
        &graph.1,
        "intent cannot depend on itself",
        "intent dependency does not exist in the same plan",
        "intent contains duplicate dependencies",
    )?;
    if !has_no_cycle(&graph.0, &graph.1) {
        return reject("intent dependency graph contains a cycle");
    }
    Ok(())
}

impl IntentPlanV1 {
    /// The digest of the plan, its own digest left out.
    pub fn computed_digest(&self) -> (r: Result<IntentDigest, KernelError>)
        ensures
            outcome(r) == Ok::<Seq<char>, Seq<char>>(plan_digest_of(self.deep_view())),
    {
        let payload = self.to_payload_json();
        proof {
            reveal(plan_digest_of);
        }
        Ok(canonical_text_digest(IntentDigestDomain::Plan, &payload))
    }

    /// Checks the shape of the plan and its digest.
    pub fn validate_contract(&self) -> (r: Result<(), KernelError>)
        ensures
            verdict(r) == plan_verdict(self.deep_view()),
    {
        proof {
            reveal(plan_shape_verdict);
        }
        validate_schema_version(self.schema_version)?;
        validate_bounded_identity("intent workspace id", self.workspace_id.as_str())?;
        validate_bounded_identity("intent source session id", self.source_session_id.as_str())?;
        if self.intents.len() == 0 {
            return reject("intent plan must contain at least one intent");
        }
        if self.intents.len() > MAX_INTENTS_PER_PLAN {
            return reject("intent plan contains too many intents");
        }
        validate_plan_kind(self)?;
        validate_plan_graph(&self.intents)?;
        let digest = self.computed_digest()?;
        if !digest.same(&self.plan_digest) {
            return reject("intent plan canonical digest mismatch");
        }
        Ok(())
    }
}

/// A valid plan is a graph without cycles: its intents have different identities, each depends on
/// other intents of the same plan, on none of them twice, and they can be ordered so that every
/// intent stands behind those it depends on.
pub proof fn law_valid_plan_is_a_dependency_order(p: IntentPlanV1View)
    requires
        plan_verdict(p) is Ok,
    ensures
        distinct(plan_ids(p.intents)),
        forall|i: int, k: int|
            0 <= i < p.intents.len() && 0 <= k < p.intents[i].depends_on.len() ==> {
                let d = #[trigger] p.intents[i].depends_on[k];
                d != p.intents[i].intent_ref.intent_id && plan_ids(p.intents).contains(d)
            },
        forall|i: int| 0 <= i < p.intents.len() ==> distinct((#[trigger] p.intents[i]).depends_on),
        acyclic(plan_ids(p.intents), plan_needs(p.intents)),
        p.plan_digest == plan_digest_of(p),
{
    reveal(plan_shape_verdict);
    let ids = plan_ids(p.intents);
    let needs = plan_needs(p.intents);
    let m = plan_dependency_messages();
    lemma_all_pass(definition_verdicts(p.intents));
    lemma_all_pass(dependency_verdicts(ids, needs, m));
    assert forall|i: int, j: int| 0 <= i < j < ids.len() implies #[trigger] ids[i] != #[trigger] ids[j] by {
        assert(definition_verdicts(p.intents)[j] is Ok);
        assert(definition_verdict(p.intents, j) is Ok);
        assert(!repeats(ids, j));
    }
    assert forall|i: int, k: int|
        0 <= i < p.intents.len() && 0 <= k < p.intents[i].depends_on.len() implies {
        let d = #[trigger] p.intents[i].depends_on[k];
        d != p.intents[i].intent_ref.intent_id && ids.contains(d)
    } by {
        lemma_own_dependencies(ids, needs, m, i);
        assert(own_dependency_verdicts(ids, needs, i, m)[k] is Ok);
        assert(needs[i] == p.intents[i].depends_on);
    }
    assert forall|i: int| 0 <= i < p.intents.len() implies distinct(
        (#[trigger] p.intents[i]).depends_on,
    ) by {
        let own = p.intents[i].depends_on;
        assert(needs[i] == own);
        lemma_own_dependencies(ids, needs, m, i);
        assert forall|a: int, b: int| 0 <= a < b < own.len() implies #[trigger] own[a]
            != #[trigger] own[b] by {
            assert(own_dependency_verdicts(ids, needs, i, m)[b] is Ok);
            assert(!repeats(own, b));
        }
    }
}

proof fn lemma_own_dependencies(
    names: Seq<Seq<char>>,
    needs: Seq<Seq<Seq<char>>>,
    m: DependencyMessages,
    i: int,
)
    requires
        first_failure(dependency_verdicts(names, needs, m)) is Ok,
        0 <= i < needs.len(),
    ensures
        forall|k: int|
            0 <= k < needs[i].len() ==> (#[trigger] own_dependency_verdicts(
                names,
                needs,
                i,
                m,
            )[k]) is Ok,
{
    lemma_all_pass(dependency_verdicts(names, needs, m));
    assert(dependency_verdicts(names, needs, m)[i] is Ok);
    lemma_all_pass(own_dependency_verdicts(names, needs, i, m));
}

/// The digest of a proposal does not cover the digest that the proposal carries, nor does the check
/// of its shape.
pub proof fn lemma_proposal_digest_is_left_out(p: IntentPlanProposalV1View, digest: Seq<char>)
    ensures
        proposal_digest_of((IntentPlanProposalV1View { proposal_digest: digest, ..p }))
            == proposal_digest_of(p),
        proposal_shape_verdict((IntentPlanProposalV1View { proposal_digest: digest, ..p }))
            == proposal_shape_verdict(p),
{
    reveal(proposal_digest_of);
    reveal(proposal_shape_verdict);
}

/// The digest of a plan does not cover the digest that the plan carries, nor does the check of its
/// shape.
pub proof fn lemma_plan_digest_is_left_out(p: IntentPlanV1View, digest: Seq<char>)
    ensures
        plan_digest_of((IntentPlanV1View { plan_digest: digest, ..p })) == plan_digest_of(p),
        plan_shape_verdict((IntentPlanV1View { plan_digest: digest, ..p }))
            == plan_shape_verdict(p),
{
    reveal(plan_digest_of);
    reveal(plan_shape_verdict);
}

/// A plan that carries its own digest fails for its shape alone.
pub proof fn law_plan_with_its_digest_has_the_verdict_of_its_shape(p: IntentPlanV1View)
    ensures
        plan_verdict((IntentPlanV1View { plan_digest: plan_digest_of(p), ..p }))
            == plan_shape_verdict(p),
{
    lemma_plan_digest_is_left_out(p, plan_digest_of(p));
    match plan_shape_verdict(p) {
        Ok(u) => {
            assert(u == ());
        },
        Err(_) => {},
    }
}

} // verus!
