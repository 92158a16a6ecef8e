//! What the revision or the replacement of an intent would touch, without any change.

use vstd::prelude::*;
use vstd::utf8::encode_utf8;

use crate::batch_evidence::add_new;
use crate::digest::{sha256_hex_of, sha256_lower_hex};
use crate::intent::{
    labelled, reject_labelled, zero_digest_text, IntentApplicationState, IntentConflictV1,
    IntentDefinitionV1, IntentDefinitionV1View, IntentDigest, IntentDigestDomain, IntentId,
    IntentOperationFileSummaryV1, IntentOperationId, IntentOperationKind, IntentOperationPreviewV1,
    IntentOperationPreviewV1View, IntentPlanV1, IntentPlanV1View, IntentProposalCriterionV1,
    IntentProposalCriterionV1View, IntentVerificationImpact, IntentVerificationImpactV1,
    IntentVerificationImpactV1View, IntentVersionRef, IntentVersionRefView,
    INTENT_CONTRACT_SCHEMA_VERSION, MAX_INTENT_CRITERIA, MAX_INTENT_DEPENDENCIES,
    MAX_INTENT_STATEMENT_BYTES, MAX_INTENT_TITLE_BYTES,
};
use crate::intent_admission::{lemma_named_digest_is_stable, plan_refs, refs_of_plan};
use crate::intent_contract::{
    canonical_digest, canonical_text_digest, criterion_aliases, ref_verdict,
};
use crate::intent_drop::{frontier_of, frontier_sequence};
use crate::intent_layer_contract::{preview_digest_of, preview_verdict};
use crate::intent_lineage::{
    current_receipts, lineage_of, IntentLineageProjectionV1, IntentLineageProjectionV1View,
};
use crate::intent_operation::{
    lemma_with_new_members, runtime_identity_verdict, validate_runtime_identity,
};
use crate::intent_stack::{latest_accepted, plan_holds, stack_of, IntentStackProjectionV1};
use crate::intent_state::{
    IntentApplicationImpactV1, IntentApplicationImpactV1View, IntentImpactPreviewV1,
    IntentImpactPreviewV1View, IntentRevisionProposalV1, IntentRevisionProposalV1View,
};
use crate::lineage_facts::{member_of, proposal};
use crate::records::{Session, SessionView};
use crate::search::{find_first, lemma_first_where, selected};
use crate::text::{
    all_of, ascending_of, ascending_texts, blank, byte_len, byte_length, every, is_blank, joined,
    lemma_ascending_of, same_text, CharClass,
};
use crate::value::{
    chain, check, first_failure, holds, lemma_failures_begin, lemma_failures_end,
    lemma_failures_step, lemma_push_view, outcome, reject, repeated_at, repeats, verdict, yields,
    KernelError, Value, Verdict,
};

verus! {

// Texts of a revision.

/// The check of a text that the running host takes.
pub open spec fn runtime_text_verdict(label: Seq<char>, value: Seq<char>, max: nat) -> Verdict {
    check(
        !is_blank(value) && byte_len(value) <= max && every(CharClass::Printable, value),
        labelled(label, " is empty, too long, or contains control characters"@),
    )
}

fn validate_text(label: &str, value: &str, max_bytes: usize) -> (r: Result<(), KernelError>)
    ensures
        verdict(r) == runtime_text_verdict(label@, value@, max_bytes as nat),
{
    if blank(value) || byte_length(value) > max_bytes || !all_of(CharClass::Printable, value) {
        return reject_labelled(label, " is empty, too long, or contains control characters");
    }
    Ok(())
}

// Proposals of revisions.

/// The check of the criterion at `i` of a revision.
pub open spec fn revision_criterion_verdict(
    criteria: Seq<IntentProposalCriterionV1View>,
    i: int,
) -> Verdict {
    chain(
        runtime_identity_verdict(
            "intent revision criterion alias"@,
            criteria[i].criterion_alias,
        ),
        chain(
            runtime_text_verdict(
                "intent revision criterion"@,
                criteria[i].statement,
                MAX_INTENT_STATEMENT_BYTES as nat,
            ),
            check(
                !repeats(criterion_aliases(criteria), i),
                "intent revision repeats a criterion alias"@,
            ),
        ),
    )
}

/// The checks of all criteria of a revision.
pub open spec fn revision_criterion_verdicts(criteria: Seq<IntentProposalCriterionV1View>) -> Seq<
    Verdict,
> {
    Seq::new(criteria.len(), |i: int| revision_criterion_verdict(criteria, i))
}

/// The checks of the dependencies of a revision.
pub open spec fn revision_dependency_verdicts(
    intent_id: Seq<char>,
    depends_on: Seq<Seq<char>>,
) -> Seq<Verdict> {
    Seq::new(
        depends_on.len(),
        |i: int|
            check(
                depends_on[i] != intent_id && !repeats(depends_on, i),
                "intent revision contains a self or duplicate dependency"@,
            ),
    )
}

/// The checks of the sets of a revision.
pub open spec fn revision_sets_verdict(p: IntentRevisionProposalV1View) -> Verdict {
    chain(
        check(
            0 < p.acceptance_criteria.len() <= MAX_INTENT_CRITERIA,
            "intent revision requires a bounded non-empty criterion set"@,
        ),
        chain(
            check(
                p.depends_on.len() <= MAX_INTENT_DEPENDENCIES,
                "intent revision contains too many dependencies"@,
            ),
            chain(
                first_failure(revision_criterion_verdicts(p.acceptance_criteria)),
                first_failure(
                    revision_dependency_verdicts(p.target_intent_ref.intent_id, p.depends_on),
                ),
            ),
        ),
    )
}

/// The checks of a proposal of a revision, all but that of its digest.
pub open spec fn revision_shape_verdict(p: IntentRevisionProposalV1View) -> Verdict {
    chain(
        check(
            p.schema_version == INTENT_CONTRACT_SCHEMA_VERSION,
            "unsupported intent revision proposal schema"@,
        ),
        chain(
            runtime_identity_verdict("intent revision proposal id"@, p.proposal_id),
            chain(
                runtime_identity_verdict("intent revision source turn id"@, p.source_turn_id),
                chain(
                    ref_verdict(p.target_intent_ref),
                    chain(
                        runtime_text_verdict(
                            "intent revision title"@,
                            p.title,
                            MAX_INTENT_TITLE_BYTES as nat,
                        ),
                        chain(
                            runtime_text_verdict(
                                "intent revision statement"@,
                                p.statement,
                                MAX_INTENT_STATEMENT_BYTES as nat,
                            ),
                            revision_sets_verdict(p),
                        ),
                    ),
                ),
            ),
        ),
    )
}

/// The digest that a proposal of a revision should carry.
#[verifier::opaque]
pub open spec fn revision_digest_of(p: IntentRevisionProposalV1View) -> Seq<char> {
    canonical_digest(IntentDigestDomain::Proposal, IntentRevisionProposalV1::payload_json(p))
}

/// The checks of a proposal of a revision.
pub open spec fn revision_verdict(p: IntentRevisionProposalV1View) -> Verdict {
    chain(
        revision_shape_verdict(p),
        check(
            p.proposal_digest == revision_digest_of(p),
            "intent revision proposal canonical digest mismatch"@,
        ),
    )
}

/// A proposal of a revision before it has its digest.
pub open spec fn revision_draft(
    proposal_id: Seq<char>,
    source_turn_id: Seq<char>,
    target_intent_ref: IntentVersionRefView,
    title: Seq<char>,
    statement: Seq<char>,
    acceptance_criteria: Seq<IntentProposalCriterionV1View>,
    depends_on: Seq<Seq<char>>,
) -> IntentRevisionProposalV1View {
    IntentRevisionProposalV1View {
        schema_version: INTENT_CONTRACT_SCHEMA_VERSION,
        proposal_id,
        source_turn_id,
        target_intent_ref,
        title,
        statement,
        acceptance_criteria,
        depends_on,
        proposal_digest: zero_digest_text(),
    }
}

/// A proposal of a revision with its digest.
pub open spec fn sealed_revision(p: IntentRevisionProposalV1View) -> IntentRevisionProposalV1View {
    IntentRevisionProposalV1View { proposal_digest: revision_digest_of(p), ..p }
}

/// The digest of a proposal does not depend on the digest that it carries.
pub proof fn lemma_revision_digest_is_left_out(p: IntentRevisionProposalV1View, digest: Seq<char>)
    ensures
        revision_digest_of(IntentRevisionProposalV1View { proposal_digest: digest, ..p })
            == revision_digest_of(p),
        revision_shape_verdict(IntentRevisionProposalV1View { proposal_digest: digest, ..p })
            == revision_shape_verdict(p),
{
    reveal(revision_digest_of);
}

/// The same intent, one version later.
pub open spec fn next_ref(target: IntentVersionRefView) -> IntentVersionRefView {
    IntentVersionRefView { intent_id: target.intent_id, version: (target.version + 1) as u64 }
}

/// The definition that a revision makes out of its target, where a next version can be written.
pub open spec fn revised_ref(target: IntentVersionRefView) -> Result<
    IntentVersionRefView,
    Seq<char>,
> {
    if target.version == u64::MAX {
        Err("intent revision target has no next version"@)
    } else {
        Ok(next_ref(target))
    }
}

fn validate_revision_criteria(criteria: &Vec<IntentProposalCriterionV1>) -> (r: Result<
    (),
    KernelError,
>)
    ensures
        verdict(r) == first_failure(revision_criterion_verdicts(criteria.deep_view())),
{
    let ghost all = revision_criterion_verdicts(criteria.deep_view());
    let mut aliases: Vec<String> = Vec::new();
    let mut k: usize = 0;
    while k < criteria.len()
        invariant
            k <= criteria.len(),
            aliases.deep_view() =~= criterion_aliases(criteria.deep_view()).take(k as int),
        decreases criteria.len() - k,
    {
        let alias = criteria[k].criterion_alias.duplicate();
        assert(criterion_aliases(criteria.deep_view())[k as int] == alias@);
        let ghost had = aliases;
        aliases.push(alias);
        proof {
            lemma_push_view(had, alias, aliases);
        }
        k = k + 1;
    }
    assert(aliases.deep_view() =~= criterion_aliases(criteria.deep_view()));
    let mut i: usize = 0;
    proof {
        lemma_failures_begin(all);
    }
    while i < criteria.len()
        invariant
            i <= criteria.len(),
            aliases.len() == criteria.len(),
            aliases.deep_view() == criterion_aliases(criteria.deep_view()),
            all == revision_criterion_verdicts(criteria.deep_view()),
            first_failure(all) == first_failure(all.skip(i as int)),
        decreases criteria.len() - i,
    {
        proof {
            lemma_failures_step(all, i as int);
        }
        assert(criteria.deep_view()[i as int] == criteria@[i as int].deep_view());
        validate_runtime_identity(
            "intent revision criterion alias",
            criteria[i].criterion_alias.as_str(),
        )?;
        validate_text(
            "intent revision criterion",
            criteria[i].statement.as_str(),
            MAX_INTENT_STATEMENT_BYTES,
        )?;
        if repeated_at(&aliases, i) {
            return reject("intent revision repeats a criterion alias");
        }
        i = i + 1;
    }
    proof {
        lemma_failures_end(all);
    }
    Ok(())
}

fn validate_revision_dependencies(intent_id: &IntentId, depends_on: &Vec<IntentId>) -> (r: Result<
    (),
    KernelError,
>)
    ensures
        verdict(r) == first_failure(
            revision_dependency_verdicts(intent_id.deep_view(), depends_on.deep_view()),
        ),
{
    let ghost all = revision_dependency_verdicts(intent_id.deep_view(), depends_on.deep_view());
    let mut i: usize = 0;
    proof {
        lemma_failures_begin(all);
    }
    while i < depends_on.len()
        invariant
            i <= depends_on.len(),
            all == revision_dependency_verdicts(intent_id.deep_view(), depends_on.deep_view()),
            first_failure(all) == first_failure(all.skip(i as int)),
        decreases depends_on.len() - i,
    {
        proof {
            lemma_failures_step(all, i as int);
        }
        assert(depends_on.deep_view()[i as int] == depends_on@[i as int].deep_view());
        if depends_on[i].same(intent_id) || repeated_at(depends_on, i) {
            return reject("intent revision contains a self or duplicate dependency");
        }
        i = i + 1;
    }
    proof {
        lemma_failures_end(all);
    }
    Ok(())
}

impl IntentRevisionProposalV1 {
    /// Makes a proposal that is bound to its contents. It grants nothing.
    pub fn new(
        proposal_id: String,
        source_turn_id: String,
        target_intent_ref: IntentVersionRef,
        title: String,
        statement: String,
        acceptance_criteria: Vec<IntentProposalCriterionV1>,
        depends_on: Vec<IntentId>,
    ) -> (r: Result<Self, KernelError>)
        ensures
            ({
                let draft = revision_draft(
                    proposal_id@,
                    source_turn_id@,
                    target_intent_ref.deep_view(),
                    title@,
                    statement@,
                    acceptance_criteria.deep_view(),
                    depends_on.deep_view(),
                );
                outcome(r) == yields(revision_shape_verdict(draft), sealed_revision(draft))
            }),
    {
        let mut proposal = IntentRevisionProposalV1 {
            schema_version: INTENT_CONTRACT_SCHEMA_VERSION,
            proposal_id,
            source_turn_id,
            target_intent_ref,
            title,
            statement,
            acceptance_criteria,
            depends_on,
            proposal_digest: IntentDigest::zero(),
        };
        let ghost draft = proposal.deep_view();
        let digest = proposal.computed_digest()?;
        proof {
            lemma_revision_digest_is_left_out(draft, digest.deep_view());
        }
        proposal.proposal_digest = digest;
        proposal.validate_contract()?;
        Ok(proposal)
    }

    /// The digest of the proposal, its own digest left out.
    pub fn computed_digest(&self) -> (r: Result<IntentDigest, KernelError>)
        ensures
            outcome(r) == Ok::<Seq<char>, Seq<char>>(revision_digest_of(self.deep_view())),
    {
        let payload = self.to_payload_json();
        proof {
            reveal(revision_digest_of);
        }
        Ok(canonical_text_digest(IntentDigestDomain::Proposal, &payload))
    }

    /// The definition that the acceptance of the proposal would make. There is none where the version
    /// of the target is the last that can be written.
    pub fn replacement_ref(&self) -> (r: Result<IntentVersionRef, KernelError>)
        ensures
            outcome(r) == revised_ref(self.deep_view().target_intent_ref),
    {
        if self.target_intent_ref.version == u64::MAX {
            return Err(KernelError::new("intent revision target has no next version"));
        }
        IntentVersionRef::new(
            self.target_intent_ref.intent_id.duplicate(),
            self.target_intent_ref.version + 1,
        )
    }

    /// Checks the shape of the proposal and its digest.
    #[verifier::rlimit(40)]
    pub fn validate_contract(&self) -> (r: Result<(), KernelError>)
        ensures
            verdict(r) == revision_verdict(self.deep_view()),
    {
        if self.schema_version != INTENT_CONTRACT_SCHEMA_VERSION {
            return reject("unsupported intent revision proposal schema");
        }
        validate_runtime_identity("intent revision proposal id", self.proposal_id.as_str())?;
        validate_runtime_identity("intent revision source turn id", self.source_turn_id.as_str())?;
        self.target_intent_ref.validate()?;
        validate_text("intent revision title", self.title.as_str(), MAX_INTENT_TITLE_BYTES)?;
        validate_text(
            "intent revision statement",
            self.statement.as_str(),
            MAX_INTENT_STATEMENT_BYTES,
        )?;
        if self.acceptance_criteria.len() == 0 || self.acceptance_criteria.len()
            > MAX_INTENT_CRITERIA {
            return reject("intent revision requires a bounded non-empty criterion set");
        }
        if self.depends_on.len() > MAX_INTENT_DEPENDENCIES {
            return reject("intent revision contains too many dependencies");
        }
        validate_revision_criteria(&self.acceptance_criteria)?;
        validate_revision_dependencies(&self.target_intent_ref.intent_id, &self.depends_on)?;
        let digest = self.computed_digest()?;
        if !digest.same(&self.proposal_digest) {
            return reject("intent revision proposal canonical digest mismatch");
        }
        Ok(())
    }
}

// Previews of impacts.

/// The check of the impact at `i` of a preview.
pub open spec fn transition_verdict(p: IntentImpactPreviewV1View, i: int) -> Verdict {
    let x = p.application_impacts[i];
    check(
        x.intent_ref == p.operation.target_intents[i] && (x.application_state
            == IntentApplicationState::NeedsReview || x.application_state
            == IntentApplicationState::NeedsRebuild),
        "intent impact preview contains an invalid application transition"@,
    )
}

/// The checks of all impacts of a preview.
pub open spec fn transition_verdicts(p: IntentImpactPreviewV1View) -> Seq<Verdict> {
    Seq::new(p.application_impacts.len(), |i: int| transition_verdict(p, i))
}

/// The kinds of operations that change nothing.
pub open spec fn is_impact_kind(kind: IntentOperationKind) -> bool {
    kind == IntentOperationKind::ReviseImpactPreview || kind
        == IntentOperationKind::ReplaceImpactPreview
}

/// The checks of a preview of an impact.
pub open spec fn impact_preview_verdict(p: IntentImpactPreviewV1View) -> Verdict {
    chain(
        preview_verdict(p.operation),
        chain(
            check(
                is_impact_kind(p.operation.operation_kind) && p.operation.file_effects.len() == 0
                    && p.application_impacts.len() == p.operation.target_intents.len(),
                "intent impact preview is not a read-only closure preview"@,
            ),
            first_failure(transition_verdicts(p)),
        ),
    )
}

impl IntentImpactPreviewV1 {
    /// Checks that the preview changes nothing and that its impacts belong to its targets.
    pub fn validate_contract(&self) -> (r: Result<(), KernelError>)
        ensures
            verdict(r) == impact_preview_verdict(self.deep_view()),
    {
        self.operation.validate_contract()?;
        let kind = self.operation.operation_kind;
        if (kind != IntentOperationKind::ReviseImpactPreview && kind
            != IntentOperationKind::ReplaceImpactPreview) || self.operation.file_effects.len() != 0
            || self.application_impacts.len() != self.operation.target_intents.len() {
            return reject("intent impact preview is not a read-only closure preview");
        }
        self.validate_transitions()
    }

    fn validate_transitions(&self) -> (r: Result<(), KernelError>)
        requires
            self.application_impacts.len() == self.operation.target_intents.len(),
        ensures
            verdict(r) == first_failure(transition_verdicts(self.deep_view())),
    {
        let ghost all = transition_verdicts(self.deep_view());
        let mut i: usize = 0;
        proof {
            lemma_failures_begin(all);
        }
        while i < self.application_impacts.len()
            invariant
                i <= self.application_impacts.len(),
                self.application_impacts.len() == self.operation.target_intents.len(),
                all == transition_verdicts(self.deep_view()),
                first_failure(all) == first_failure(all.skip(i as int)),
            decreases self.application_impacts.len() - i,
        {
            proof {
                lemma_failures_step(all, i as int);
            }
            let x = &self.application_impacts[i];
            assert(self.application_impacts.deep_view()[i as int] == x.deep_view());
            assert(self.operation.target_intents.deep_view()[i as int]
                == self.operation.target_intents@[i as int].deep_view());
            if !x.intent_ref.same(&self.operation.target_intents[i]) || (x.application_state
                != IntentApplicationState::NeedsReview && x.application_state
                != IntentApplicationState::NeedsRebuild) {
                return reject("intent impact preview contains an invalid application transition");
            }
            i = i + 1;
        }
        proof {
            lemma_failures_end(all);
        }
        Ok(())
    }
}

// What depends on an intent.

/// An intent depends on a target over at most `n` steps.
pub open spec fn reaches(
    intents: Seq<IntentDefinitionV1View>,
    target: Seq<char>,
    id: Seq<char>,
    n: nat,
) -> bool
    decreases n,
{
    if n == 0 {
        id == target
    } else {
        reaches(intents, target, id, (n - 1) as nat) || exists|i: int, k: int|
            0 <= i < intents.len() && (#[trigger] intents[i]).intent_ref.intent_id == id && 0 <= k
                < intents[i].depends_on.len() && reaches(
                intents,
                target,
                #[trigger] intents[i].depends_on[k],
                (n - 1) as nat,
            )
    }
}

/// An intent is the target, or depends on it over whatever steps.
pub open spec fn in_closure(
    intents: Seq<IntentDefinitionV1View>,
    target: Seq<char>,
    id: Seq<char>,
) -> bool {
    exists|n: nat| #[trigger] reaches(intents, target, id, n)
}

proof fn lemma_reaches_further(
    intents: Seq<IntentDefinitionV1View>,
    target: Seq<char>,
    i: int,
    k: int,
)
    requires
        0 <= i < intents.len(),
        0 <= k < intents[i].depends_on.len(),
        in_closure(intents, target, intents[i].depends_on[k]),
    ensures
        in_closure(intents, target, intents[i].intent_ref.intent_id),
{
    let n = choose|n: nat| #[trigger] reaches(intents, target, intents[i].depends_on[k], n);
    assert(reaches(intents, target, intents[i].intent_ref.intent_id, (n + 1) as nat));
}

/// A list holds a target and, with whatever intent it holds, all that depend on it.
pub open spec fn is_closed(
    intents: Seq<IntentDefinitionV1View>,
    target: Seq<char>,
    ids: Seq<Seq<char>>,
) -> bool {
    &&& ids.contains(target)
    &&& forall|i: int, k: int|
        0 <= i < intents.len() && 0 <= k < intents[i].depends_on.len() && ids.contains(
            #[trigger] intents[i].depends_on[k],
        ) ==> ids.contains(intents[i].intent_ref.intent_id)
}

proof fn lemma_closed_holds_all(
    intents: Seq<IntentDefinitionV1View>,
    target: Seq<char>,
    ids: Seq<Seq<char>>,
    id: Seq<char>,
    n: nat,
)
    requires
        is_closed(intents, target, ids),
        reaches(intents, target, id, n),
    ensures
        ids.contains(id),
    decreases n,
{
    if n > 0 {
        if reaches(intents, target, id, (n - 1) as nat) {
            lemma_closed_holds_all(intents, target, ids, id, (n - 1) as nat);
        } else {
            let (i, k) = choose|i: int, k: int|
                0 <= i < intents.len() && (#[trigger] intents[i]).intent_ref.intent_id == id && 0
                    <= k < intents[i].depends_on.len() && reaches(
                    intents,
                    target,
                    #[trigger] intents[i].depends_on[k],
                    (n - 1) as nat,
                );
            lemma_closed_holds_all(
                intents,
                target,
                ids,
                intents[i].depends_on[k],
                (n - 1) as nat,
            );
        }
    }
}

/// How many intents a list does not hold.
spec fn left_out(intents: Seq<IntentDefinitionV1View>, ids: Seq<Seq<char>>) -> nat
    decreases intents.len(),
{
    if intents.len() == 0 {
        0
    } else {
        left_out(intents.drop_last(), ids) + if ids.contains(intents.last().intent_ref.intent_id) {
            0nat
        } else {
            1nat
        }
    }
}

proof fn lemma_left_out_shrinks(
    intents: Seq<IntentDefinitionV1View>,
    ids: Seq<Seq<char>>,
    more: Seq<Seq<char>>,
)
    requires
        forall|x: Seq<char>| ids.contains(x) ==> #[trigger] more.contains(x),
    ensures
        left_out(intents, more) <= left_out(intents, ids),
        forall|i: int|
            0 <= i < intents.len() && !ids.contains((#[trigger] intents[i]).intent_ref.intent_id)
                && more.contains(intents[i].intent_ref.intent_id) ==> left_out(intents, more)
                < left_out(intents, ids),
    decreases intents.len(),
{
    if intents.len() > 0 {
        let rest = intents.drop_last();
        lemma_left_out_shrinks(rest, ids, more);
        assert forall|i: int|
            0 <= i < intents.len() && !ids.contains((#[trigger] intents[i]).intent_ref.intent_id)
                && more.contains(intents[i].intent_ref.intent_id) implies left_out(intents, more)
            < left_out(intents, ids) by {
            if i < rest.len() {
                assert(rest[i] == intents[i]);
            }
        }
    }
}

/// Adds what directly depends on the members of a list, in one pass over the intents.
fn widen(intents: &Vec<IntentDefinitionV1>, ids: &mut Vec<IntentId>, Ghost(target): Ghost<Seq<char>>) -> (r:
    bool)
    requires
        forall|x: Seq<char>| #[trigger]
            old(ids).deep_view().contains(x) ==> in_closure(intents.deep_view(), target, x),
    ensures
        forall|x: Seq<char>| #[trigger]
            final(ids).deep_view().contains(x) ==> in_closure(intents.deep_view(), target, x),
        forall|x: Seq<char>|
            old(ids).deep_view().contains(x) ==> #[trigger] final(ids).deep_view().contains(x),
        r ==> left_out(intents.deep_view(), final(ids).deep_view()) < left_out(
            intents.deep_view(),
            old(ids).deep_view(),
        ),
        !r ==> final(ids).deep_view() == old(ids).deep_view(),
        !r ==> forall|i: int, k: int|
            0 <= i < intents.len() && 0 <= k < intents.deep_view()[i].depends_on.len()
                && final(ids).deep_view().contains(
                #[trigger] intents.deep_view()[i].depends_on[k],
            ) ==> final(ids).deep_view().contains(intents.deep_view()[i].intent_ref.intent_id),
{
    let ghost v = intents.deep_view();
    let ghost start = ids.deep_view();
    let mut changed = false;
    let mut i: usize = 0;
    while i < intents.len()
        invariant
            i <= intents.len(),
            v == intents.deep_view(),
            forall|x: Seq<char>| #[trigger]
                ids.deep_view().contains(x) ==> in_closure(v, target, x),
            forall|x: Seq<char>| start.contains(x) ==> #[trigger] ids.deep_view().contains(x),
            changed ==> left_out(v, ids.deep_view()) < left_out(v, start),
            !changed ==> ids.deep_view() == start,
            !changed ==> forall|a: int, k: int|
                0 <= a < i && 0 <= k < v[a].depends_on.len() && start.contains(
                    #[trigger] v[a].depends_on[k],
                ) ==> start.contains(v[a].intent_ref.intent_id),
        decreases intents.len() - i,
    {
        assert(v[i as int] == intents@[i as int].deep_view());
        let d = &intents[i];
        if !holds(ids, &d.intent_ref.intent_id) {
            let ghost p = member_of(ids.deep_view());
            let touched = find_first(
                &d.depends_on,
                |x: &IntentId| -> (b: bool)
                    ensures
                        b == p(x.deep_view())
                    { holds(ids, x) },
                Ghost(p),
            );
            match touched {
                Some(k) => {
                    proof {
                        lemma_first_where(d.depends_on.deep_view(), p);
                        assert(p(v[i as int].depends_on[k as int]));
                        lemma_reaches_further(v, target, i as int, k as int);
                    }
                    let ghost had = ids.deep_view();
                    let ghost list = *ids;
                    let item = d.intent_ref.intent_id.duplicate();
                    ids.push(item);
                    proof {
                        lemma_push_view(list, item, *ids);
                        assert(ids.deep_view() == had.push(item.deep_view()));
                        assert forall|x: Seq<char>| had.contains(x) implies #[trigger]
                            ids.deep_view().contains(x) by {
                            let k = choose|k: int| 0 <= k < had.len() && had[k] == x;
                            assert(ids.deep_view()[k] == x);
                        }
                        assert(ids.deep_view()[had.len() as int] == item.deep_view());
                        assert forall|x: Seq<char>| #[trigger]
                            ids.deep_view().contains(x) implies in_closure(v, target, x) by {
                            let k = choose|k: int|
                                0 <= k < ids.deep_view().len() && ids.deep_view()[k] == x;
                            if k < had.len() {
                                assert(had[k] == x);
                                assert(had.contains(x));
                            }
                        }
                        lemma_left_out_shrinks(v, had, ids.deep_view());
                        lemma_left_out_shrinks(v, start, had);
                    }
                    changed = true;
                },
                None => {
                    proof {
                        lemma_first_where(d.depends_on.deep_view(), p);
                    }
                },
            }
        }
        i = i + 1;
    }
    changed
}

/// The identities of a target and of all intents that depend on it.
pub(crate) fn dependency_closure(plan: &IntentPlanV1, target: &IntentId) -> (r: Vec<IntentId>)
    ensures
        forall|x: Seq<char>| #[trigger]
            r.deep_view().contains(x) == in_closure(
                plan.deep_view().intents,
                target.deep_view(),
                x,
            ),
{
    let ghost v = plan.intents.deep_view();
    let ghost t = target.deep_view();
    let mut ids: Vec<IntentId> = Vec::new();
    let first = target.duplicate();
    ids.push(first);
    proof {
        assert(ids.deep_view() =~= seq![t]);
        assert(ids.deep_view()[0] == t);
        assert(reaches(v, t, t, 0));
    }
    let mut changed = true;
    while changed
        invariant
            v == plan.intents.deep_view(),
            t == target.deep_view(),
            ids.deep_view().contains(t),
            forall|x: Seq<char>| #[trigger] ids.deep_view().contains(x) ==> in_closure(v, t, x),
            !changed ==> is_closed(v, t, ids.deep_view()),
        decreases
                left_out(v, ids.deep_view()),
                if changed {
                    1int
                } else {
                    0int
                },
    {
        changed = widen(&plan.intents, &mut ids, Ghost(t));
    }
    proof {
        assert forall|x: Seq<char>| #[trigger] ids.deep_view().contains(x) == in_closure(v, t, x) by {
            if in_closure(v, t, x) {
                let n = choose|n: nat| #[trigger] reaches(v, t, x, n);
                lemma_closed_holds_all(v, t, ids.deep_view(), x, n);
            }
        }
    }
    ids
}

/// The intent is the target or depends on it.
pub open spec fn is_touched(intents: Seq<IntentDefinitionV1View>, target: Seq<char>) -> spec_fn(
    IntentVersionRefView,
) -> bool {
    |r: IntentVersionRefView| in_closure(intents, target, r.intent_id)
}

/// The intent is not the target and does not depend on it.
pub open spec fn is_spared(intents: Seq<IntentDefinitionV1View>, target: Seq<char>) -> spec_fn(
    IntentVersionRefView,
) -> bool {
    |r: IntentVersionRefView| !in_closure(intents, target, r.intent_id)
}

fn select_refs(plan: &IntentPlanV1, ids: &Vec<IntentId>, wanted: bool, Ghost(p): Ghost<
    spec_fn(IntentVersionRefView) -> bool,
>) -> (r: Vec<IntentVersionRef>)
    requires
        forall|x: IntentVersionRefView| #[trigger]
            p(x) == (ids.deep_view().contains(x.intent_id) == wanted),
    ensures
        r.deep_view() == selected(plan_refs(plan.deep_view()), p),
{
    let refs = refs_of_plan(plan);
    let ghost v = refs.deep_view();
    let mut r: Vec<IntentVersionRef> = Vec::new();
    let mut i: usize = 0;
    assert(v.take(0) =~= Seq::empty());
    assert(r.deep_view() =~= Seq::empty());
    while i < refs.len()
        invariant
            i <= refs.len(),
            v == refs.deep_view(),
            forall|x: IntentVersionRefView| #[trigger]
                p(x) == (ids.deep_view().contains(x.intent_id) == wanted),
            r.deep_view() == selected(v.take(i as int), p),
        decreases refs.len() - i,
    {
        proof {
            assert(v.take(i + 1).drop_last() =~= v.take(i as int));
            assert(v.take(i + 1).last() == refs@[i as int].deep_view());
        }
        if holds(ids, &refs[i].intent_id) == wanted {
            let item = refs[i].duplicate();
            let ghost had = r;
            r.push(item);
            proof {
                lemma_push_view(had, item, r);
            }
        }
        i = i + 1;
    }
    assert(v.take(i as int) =~= v);
    r
}

// The identity of a preview.

/// The bytes of a number, the lowest first.
pub open spec fn low_bytes(n: nat, count: nat) -> Seq<u8>
    decreases count,
{
    if count == 0 {
        Seq::empty()
    } else {
        seq![(n % 256) as u8] + low_bytes(n / 256, (count - 1) as nat)
    }
}

fn add_low_bytes(bytes: &mut Vec<u8>, n: u64)
    ensures
        final(bytes)@ == old(bytes)@ + low_bytes(n as nat, 8),
{
    let ghost start = bytes@;
    let ghost total = low_bytes(n as nat, 8);
    let mut rest: u64 = n;
    let mut i: usize = 0;
    assert(start + low_bytes(rest as nat, 8) =~= bytes@ + low_bytes(rest as nat, 8));
    while i < 8
        invariant
            i <= 8,
            start + total == bytes@ + low_bytes(rest as nat, (8 - i) as nat),
        decreases 8 - i,
    {
        let ghost left = low_bytes(rest as nat, (8 - i) as nat);
        let ghost had = bytes@;
        let low: u8 = (rest % 256) as u8;
        bytes.push(low);
        rest = rest / 256;
        i = i + 1;
        assert(left =~= seq![low] + low_bytes(rest as nat, (8 - i) as nat));
        assert(bytes@ + low_bytes(rest as nat, (8 - i) as nat) =~= had + left);
    }
    assert(bytes@ + low_bytes(rest as nat, 0) =~= bytes@);
}

fn add_text_bytes(bytes: &mut Vec<u8>, text: &str)
    ensures
        final(bytes)@ == old(bytes)@ + encode_utf8(text@),
{
    let slice = text.as_bytes();
    let ghost start = bytes@;
    let mut i: usize = 0;
    assert(start + slice@.take(0) =~= start);
    while i < slice.len()
        invariant
            i <= slice.len(),
            bytes@ == start + slice@.take(i as int),
        decreases slice.len() - i,
    {
        bytes.push(slice[i]);
        i = i + 1;
        assert(bytes@ =~= start + slice@.take(i as int));
    }
    assert(slice@.take(i as int) =~= slice@);
}

/// The name of a kind of operation as it enters the identity of a preview.
pub open spec fn kind_name(kind: IntentOperationKind) -> Seq<char> {
    match kind {
        IntentOperationKind::Drop => "Drop"@,
        IntentOperationKind::ReviseImpactPreview => "ReviseImpactPreview"@,
        IntentOperationKind::ReplaceImpactPreview => "ReplaceImpactPreview"@,
        IntentOperationKind::Adopt => "Adopt"@,
    }
}

fn name_of_kind(kind: IntentOperationKind) -> (r: &'static str)
    ensures
        r@ == kind_name(kind),
{
    match kind {
        IntentOperationKind::Drop => "Drop",
        IntentOperationKind::ReviseImpactPreview => "ReviseImpactPreview",
        IntentOperationKind::ReplaceImpactPreview => "ReplaceImpactPreview",
        IntentOperationKind::Adopt => "Adopt",
    }
}

/// The bytes that the identity of a preview is derived from.
pub open spec fn impact_bytes(
    plan_digest: Seq<char>,
    intent_ref: IntentVersionRefView,
    kind: IntentOperationKind,
    proposal_digest: Option<Seq<char>>,
    workspace_revision: u64,
    frontier: u64,
) -> Seq<u8> {
    encode_utf8("sigil.intent.impact.v1"@) + seq![0u8] + encode_utf8(plan_digest) + seq![0u8]
        + encode_utf8(intent_ref.intent_id) + low_bytes(intent_ref.version as nat, 8) + encode_utf8(
        kind_name(kind),
    ) + encode_utf8(
        match proposal_digest {
            Some(d) => d,
            None => "no-proposal"@,
        },
    ) + low_bytes(workspace_revision as nat, 8) + low_bytes(frontier as nat, 8)
}

/// The identity of a preview.
pub open spec fn impact_operation_id(
    plan_digest: Seq<char>,
    intent_ref: IntentVersionRefView,
    kind: IntentOperationKind,
    proposal_digest: Option<Seq<char>>,
    workspace_revision: u64,
    frontier: u64,
) -> Seq<char> {
    "intent-impact"@ + "-"@ + sha256_hex_of(
        impact_bytes(plan_digest, intent_ref, kind, proposal_digest, workspace_revision, frontier),
    )
}

fn make_impact_operation_id(
    plan_digest: &IntentDigest,
    intent_ref: &IntentVersionRef,
    kind: IntentOperationKind,
    proposal_digest: Option<&IntentDigest>,
    workspace_revision: u64,
    frontier: u64,
) -> (r: IntentOperationId)
    ensures
        r.deep_view() == impact_operation_id(
            plan_digest.deep_view(),
            intent_ref.deep_view(),
            kind,
            proposal_digest.deep_view(),
            workspace_revision,
            frontier,
        ),
{
    let mut bytes: Vec<u8> = Vec::new();
    add_text_bytes(&mut bytes, "sigil.intent.impact.v1");
    bytes.push(0);
    add_text_bytes(&mut bytes, plan_digest.as_str());
    bytes.push(0);
    add_text_bytes(&mut bytes, intent_ref.intent_id.as_str());
    add_low_bytes(&mut bytes, intent_ref.version);
    add_text_bytes(&mut bytes, name_of_kind(kind));
    match proposal_digest {
        Some(d) => {
            add_text_bytes(&mut bytes, d.as_str());
        },
        None => {
            add_text_bytes(&mut bytes, "no-proposal");
        },
    }
    add_low_bytes(&mut bytes, workspace_revision);
    add_low_bytes(&mut bytes, frontier);
    assert(bytes@ =~= impact_bytes(
        plan_digest.deep_view(),
        intent_ref.deep_view(),
        kind,
        proposal_digest.deep_view(),
        workspace_revision,
        frontier,
    ));
    let hex = sha256_lower_hex(bytes.as_slice());
    let start = joined("intent-impact", "-");
    let id = joined(start.as_str(), hex.as_str());
    proof {
        reveal_strlit("intent-impact");
        lemma_named_digest_is_stable("intent-impact"@, hex@);
    }
    let made = IntentOperationId::new(id);
    assert(made is Ok);
    made.unwrap()
}

// The preview of an impact.

/// The receipts of the current evidence on intents, one intent after the other.
pub open spec fn touched_receipts(
    lineage: IntentLineageProjectionV1View,
    targets: Seq<IntentVersionRefView>,
) -> Seq<Seq<char>>
    decreases targets.len(),
{
    if targets.len() == 0 {
        Seq::empty()
    } else {
        touched_receipts(lineage, targets.drop_last()) + current_receipts(lineage, targets.last())
    }
}

/// The impact on receipts: each becomes stale.
pub open spec fn stale_receipts(receipts: Seq<Seq<char>>) -> Seq<IntentVerificationImpactV1View> {
    Seq::new(
        receipts.len(),
        |i: int|
            IntentVerificationImpactV1View {
                receipt_id: receipts[i],
                impact: IntentVerificationImpact::BecomesStale,
            },
    )
}

/// The impact on one intent: what is replaced must be rebuilt, and what is revised must be rebuilt
/// itself; the rest must be reviewed.
pub open spec fn application_impact(
    kind: IntentOperationKind,
    intent_ref: IntentVersionRefView,
    target: IntentVersionRefView,
) -> IntentApplicationImpactV1View {
    IntentApplicationImpactV1View {
        intent_ref: target,
        application_state: if kind == IntentOperationKind::ReplaceImpactPreview || target
            == intent_ref {
            IntentApplicationState::NeedsRebuild
        } else {
            IntentApplicationState::NeedsReview
        },
    }
}

/// The preview of an impact on the intents of a plan.
pub open spec fn impact_in_plan(
    plan: IntentPlanV1View,
    lineage: IntentLineageProjectionV1View,
    workspace_revision: u64,
    frontier: u64,
    intent_ref: IntentVersionRefView,
    kind: IntentOperationKind,
    proposal_digest: Option<Seq<char>>,
) -> IntentImpactPreviewV1View {
    let targets = selected(plan_refs(plan), is_touched(plan.intents, intent_ref.intent_id));
    let bare = IntentOperationPreviewV1View {
        schema_version: INTENT_CONTRACT_SCHEMA_VERSION,
        operation_id: impact_operation_id(
            plan.plan_digest,
            intent_ref,
            kind,
            proposal_digest,
            workspace_revision,
            frontier,
        ),
        operation_kind: kind,
        stack_id: plan.stack_id,
        stack_version: plan.stack_version,
        target_intents: targets,
        target_is_leaf: targets.len() == 1,
        workspace_revision,
        expires_at_ms: None,
        file_effects: Seq::empty(),
        retained_intents: selected(plan_refs(plan), is_spared(plan.intents, intent_ref.intent_id)),
        verification_impacts: stale_receipts(ascending_of(touched_receipts(lineage, targets))),
        conflicts: Seq::empty(),
        preview_digest: zero_digest_text(),
    };
    IntentImpactPreviewV1View {
        operation: IntentOperationPreviewV1View { preview_digest: preview_digest_of(bare), ..bare },
        application_impacts: Seq::new(
            targets.len(),
            |i: int| application_impact(kind, intent_ref, targets[i]),
        ),
    }
}

/// The preview of an impact on the intents of a session.
pub open spec fn impact_preview(
    session: SessionView,
    workspace_id: Seq<char>,
    workspace_revision: Option<u64>,
    intent_ref: IntentVersionRefView,
    kind: IntentOperationKind,
    proposal_digest: Option<Seq<char>>,
) -> Result<IntentImpactPreviewV1View, Seq<char>> {
    match session.durable_records {
        None => Err("Intent impact requires a durable session"@),
        Some(records) => match stack_of(records) {
            Err(m) => Err(m),
            Ok(admission) => match latest_accepted(admission) {
                None => Err("Intent impact preview requires an accepted plan"@),
                Some(accepted) => if workspace_id != accepted.plan.workspace_id {
                    Err("Intent impact preview workspace is out of scope"@)
                } else if !plan_refs(accepted.plan).contains(intent_ref) {
                    Err("Intent impact preview target is stale or unknown"@)
                } else {
                    match lineage_of(records, admission, session.tasks) {
                        Err(m) => Err(m),
                        Ok(lineage) => match workspace_revision {
                            None => Err(
                                "Intent impact preview requires mutation workspace evidence"@,
                            ),
                            Some(revision) => {
                                let preview = impact_in_plan(
                                    accepted.plan,
                                    lineage,
                                    revision,
                                    frontier_of(records),
                                    intent_ref,
                                    kind,
                                    proposal_digest,
                                );
                                yields(impact_preview_verdict(preview), preview)
                            },
                        },
                    }
                },
            },
        },
    }
}

fn list_touched_receipts(
    lineage: &IntentLineageProjectionV1,
    targets: &Vec<IntentVersionRef>,
) -> (r: Vec<String>)
    ensures
        r.deep_view() == ascending_of(
            touched_receipts(lineage.deep_view(), targets.deep_view()),
        ),
{
    let ghost v = targets.deep_view();
    let ghost l = lineage.deep_view();
    let mut list: Vec<String> = Vec::new();
    let mut i: usize = 0;
    assert(v.take(0) =~= Seq::empty());
    assert(list.deep_view() =~= Seq::empty());
    while i < targets.len()
        invariant
            i <= targets.len(),
            v == targets.deep_view(),
            l == lineage.deep_view(),
            list.deep_view().to_set() =~= touched_receipts(l, v.take(i as int)).to_set(),
        decreases targets.len() - i,
    {
        proof {
            assert(v.take(i + 1).drop_last() =~= v.take(i as int));
            assert(v.take(i + 1).last() == targets@[i as int].deep_view());
        }
        let own = lineage.current_system_verification_receipt_ids(&targets[i]);
        let ghost had = list.deep_view();
        list = add_new(list, &own);
        proof {
            let before = touched_receipts(l, v.take(i as int));
            let added = current_receipts(l, v[i as int]);
            let all = touched_receipts(l, v.take(i + 1));
            assert forall|x: Seq<char>| #[trigger]
                list.deep_view().to_set().contains(x) == all.to_set().contains(x) by {
                lemma_with_new_members(had, own.deep_view(), x);
                assert(had.to_set().contains(x) == before.to_set().contains(x));
                assert(own.deep_view().to_set().contains(x) == added.to_set().contains(x));
                lemma_joined_members(before, added, x);
            }
        }
        i = i + 1;
    }
    assert(v.take(i as int) =~= v);
    let r = ascending_texts(&list);
    proof {
        lemma_ascending_of(r.deep_view(), touched_receipts(l, v));
    }
    r
}

proof fn lemma_joined_members<A>(a: Seq<A>, b: Seq<A>, x: A)
    ensures
        (a + b).contains(x) == (a.contains(x) || b.contains(x)),
{
    let c = a + b;
    if a.contains(x) {
        let i = choose|i: int| 0 <= i < a.len() && a[i] == x;
        assert(c[i] == x);
    }
    if b.contains(x) {
        let i = choose|i: int| 0 <= i < b.len() && b[i] == x;
        assert(c[a.len() + i] == x);
    }
    if c.contains(x) {
        let i = choose|i: int| 0 <= i < c.len() && c[i] == x;
        if i < a.len() {
            assert(a[i] == x);
        } else {
            assert(b[i - a.len()] == x);
        }
    }
}

fn list_stale(receipts: &Vec<String>) -> (r: Vec<IntentVerificationImpactV1>)
    ensures
        r.deep_view() == stale_receipts(receipts.deep_view()),
{
    let ghost all = stale_receipts(receipts.deep_view());
    let mut r: Vec<IntentVerificationImpactV1> = Vec::new();
    let mut i: usize = 0;
    while i < receipts.len()
        invariant
            i <= receipts.len(),
            all == stale_receipts(receipts.deep_view()),
            r.deep_view() =~= all.take(i as int),
        decreases receipts.len() - i,
    {
        let item = IntentVerificationImpactV1 {
            receipt_id: receipts[i].duplicate(),
            impact: IntentVerificationImpact::BecomesStale,
        };
        assert(all[i as int] == item.deep_view());
        let ghost had = r;
        r.push(item);
        proof {
            lemma_push_view(had, item, r);
        }
        i = i + 1;
    }
    assert(r.deep_view() =~= all);
    r
}

fn list_application_impacts(
    kind: IntentOperationKind,
    intent_ref: &IntentVersionRef,
    targets: &Vec<IntentVersionRef>,
) -> (r: Vec<IntentApplicationImpactV1>)
    ensures
        r.deep_view() == Seq::new(
            targets.deep_view().len(),
            |i: int| application_impact(kind, intent_ref.deep_view(), targets.deep_view()[i]),
        ),
{
    let ghost all = Seq::new(
        targets.deep_view().len(),
        |i: int| application_impact(kind, intent_ref.deep_view(), targets.deep_view()[i]),
    );
    let mut r: Vec<IntentApplicationImpactV1> = Vec::new();
    let mut i: usize = 0;
    while i < targets.len()
        invariant
            i <= targets.len(),
            all == Seq::new(
                targets.deep_view().len(),
                |i: int| application_impact(kind, intent_ref.deep_view(), targets.deep_view()[i]),
            ),
            r.deep_view() =~= all.take(i as int),
        decreases targets.len() - i,
    {
        assert(targets.deep_view()[i as int] == targets@[i as int].deep_view());
        let state = if kind == IntentOperationKind::ReplaceImpactPreview || targets[i].same(
            intent_ref,
        ) {
            IntentApplicationState::NeedsRebuild
        } else {
            IntentApplicationState::NeedsReview
        };
        let item = IntentApplicationImpactV1 {
            intent_ref: targets[i].duplicate(),
            application_state: state,
        };
        assert(all[i as int] == item.deep_view());
        let ghost had = r;
        r.push(item);
        proof {
            lemma_push_view(had, item, r);
        }
        i = i + 1;
    }
    assert(r.deep_view() =~= all);
    r
}

#[verifier::rlimit(40)]
fn preview_in_plan(
    plan: &IntentPlanV1,
    lineage: &IntentLineageProjectionV1,
    workspace_revision: u64,
    frontier: u64,
    intent_ref: &IntentVersionRef,
    kind: IntentOperationKind,
    proposal_digest: Option<&IntentDigest>,
) -> (r: IntentImpactPreviewV1)
    ensures
        r.deep_view() == impact_in_plan(
            plan.deep_view(),
            lineage.deep_view(),
            workspace_revision,
            frontier,
            intent_ref.deep_view(),
            kind,
            proposal_digest.deep_view(),
        ),
{
    let ids = dependency_closure(plan, &intent_ref.intent_id);
    let ghost touched = is_touched(plan.deep_view().intents, intent_ref.deep_view().intent_id);
    let ghost spared = is_spared(plan.deep_view().intents, intent_ref.deep_view().intent_id);
    let targets = select_refs(plan, &ids, true, Ghost(touched));
    let retained = select_refs(plan, &ids, false, Ghost(spared));
    let receipts = list_touched_receipts(lineage, &targets);
    let application_impacts = list_application_impacts(kind, intent_ref, &targets);
    let effects: Vec<IntentOperationFileSummaryV1> = Vec::new();
    let conflicts: Vec<IntentConflictV1> = Vec::new();
    assert(effects.deep_view() =~= Seq::empty());
    assert(conflicts.deep_view() =~= Seq::empty());
    let target_is_leaf = targets.len() == 1;
    let mut operation = IntentOperationPreviewV1 {
        schema_version: INTENT_CONTRACT_SCHEMA_VERSION,
        operation_id: make_impact_operation_id(
            &plan.plan_digest,
            intent_ref,
            kind,
            proposal_digest,
            workspace_revision,
            frontier,
        ),
        operation_kind: kind,
        stack_id: plan.stack_id.duplicate(),
        stack_version: plan.stack_version.duplicate(),
        target_intents: targets,
        target_is_leaf,
        workspace_revision,
        expires_at_ms: None,
        file_effects: effects,
        retained_intents: retained,
        verification_impacts: list_stale(&receipts),
        conflicts,
        preview_digest: IntentDigest::zero(),
    };
    let digest = operation.computed_digest();
    assert(digest is Ok);
    operation.preview_digest = digest.unwrap();
    IntentImpactPreviewV1 { operation, application_impacts }
}

fn preview_impact(
    session: &Session,
    workspace_id: &str,
    workspace_revision: Option<u64>,
    intent_ref: &IntentVersionRef,
    kind: IntentOperationKind,
    proposal_digest: Option<&IntentDigest>,
) -> (r: Result<IntentImpactPreviewV1, KernelError>)
    ensures
        outcome(r) == impact_preview(
            session.deep_view(),
            workspace_id@,
            workspace_revision,
            intent_ref.deep_view(),
            kind,
            proposal_digest.deep_view(),
        ),
{
    let records = match &session.durable_records {
        None => {
            return Err(KernelError::new("Intent impact requires a durable session"));
        },
        Some(records) => records,
    };
    let admission = IntentStackProjectionV1::from_records(records)?;
    let accepted = match admission.latest_accepted_plan() {
        None => {
            return Err(KernelError::new("Intent impact preview requires an accepted plan"));
        },
        Some(accepted) => accepted,
    };
    if !same_text(workspace_id, accepted.plan.workspace_id.as_str()) {
        return Err(KernelError::new("Intent impact preview workspace is out of scope"));
    }
    if !plan_holds(&accepted.plan, intent_ref) {
        return Err(KernelError::new("Intent impact preview target is stale or unknown"));
    }
    let lineage = IntentLineageProjectionV1::from_records(records, &admission, &session.tasks)?;
    let revision = match workspace_revision {
        None => {
            return Err(
                KernelError::new("Intent impact preview requires mutation workspace evidence"),
            );
        },
        Some(revision) => revision,
    };
    let preview = preview_in_plan(
        &accepted.plan,
        &lineage,
        revision,
        frontier_sequence(records),
        intent_ref,
        kind,
        proposal_digest,
    );
    match preview.validate_contract() {
        Ok(_) => Ok(preview),
        Err(e) => Err(e),
    }
}

/// The preview of a proposed revision.
pub open spec fn revision_preview(
    session: SessionView,
    workspace_id: Seq<char>,
    workspace_revision: Option<u64>,
    proposal: IntentRevisionProposalV1View,
) -> Result<IntentImpactPreviewV1View, Seq<char>> {
    match revision_verdict(proposal) {
        Err(m) => Err(m),
        Ok(_) => impact_preview(
            session,
            workspace_id,
            workspace_revision,
            proposal.target_intent_ref,
            IntentOperationKind::ReviseImpactPreview,
            Some(proposal.proposal_digest),
        ),
    }
}

/// Tells what a proposed revision would touch, without any change.
pub fn preview_intent_revision(
    session: &Session,
    workspace_id: &str,
    workspace_revision: Option<u64>,
    proposal: &IntentRevisionProposalV1,
) -> (r: Result<IntentImpactPreviewV1, KernelError>)
    ensures
        outcome(r) == revision_preview(
            session.deep_view(),
            workspace_id@,
            workspace_revision,
            proposal.deep_view(),
        ),
{
    proposal.validate_contract()?;
    preview_impact(
        session,
        workspace_id,
        workspace_revision,
        &proposal.target_intent_ref,
        IntentOperationKind::ReviseImpactPreview,
        Some(&proposal.proposal_digest),
    )
}

/// Tells what the replacement of an intent would touch, without any change.
pub fn preview_intent_replace(
    session: &Session,
    workspace_id: &str,
    workspace_revision: Option<u64>,
    intent_ref: &IntentVersionRef,
) -> (r: Result<IntentImpactPreviewV1, KernelError>)
    ensures
        outcome(r) == impact_preview(
            session.deep_view(),
            workspace_id@,
            workspace_revision,
            intent_ref.deep_view(),
            IntentOperationKind::ReplaceImpactPreview,
            None,
        ),
{
    preview_impact(
        session,
        workspace_id,
        workspace_revision,
        intent_ref,
        IntentOperationKind::ReplaceImpactPreview,
        None,
    )
}

// Laws.

/// A proposal that was made is valid.
pub proof fn law_made_revisions_are_valid(draft: IntentRevisionProposalV1View)
    requires
        revision_shape_verdict(draft) is Ok,
    ensures
        revision_verdict(sealed_revision(draft)) is Ok,
{
    lemma_revision_digest_is_left_out(draft, revision_digest_of(draft));
}

/// The closure of a target is the least set that holds it and, with whatever intent it holds, all that
/// depend on that intent.
pub proof fn law_closure_is_least(
    intents: Seq<IntentDefinitionV1View>,
    target: Seq<char>,
    ids: Seq<Seq<char>>,
)
    requires
        is_closed(intents, target, ids),
    ensures
        in_closure(intents, target, target),
        forall|i: int, k: int|
            0 <= i < intents.len() && 0 <= k < intents[i].depends_on.len() && in_closure(
                intents,
                target,
                #[trigger] intents[i].depends_on[k],
            ) ==> in_closure(intents, target, intents[i].intent_ref.intent_id),
        forall|id: Seq<char>| #[trigger] in_closure(intents, target, id) ==> ids.contains(id),
{
    assert(reaches(intents, target, target, 0));
    assert forall|i: int, k: int|
        0 <= i < intents.len() && 0 <= k < intents[i].depends_on.len() && in_closure(
            intents,
            target,
            #[trigger] intents[i].depends_on[k],
        ) implies in_closure(intents, target, intents[i].intent_ref.intent_id) by {
        lemma_reaches_further(intents, target, i, k);
    }
    assert forall|id: Seq<char>| #[trigger] in_closure(intents, target, id) implies ids.contains(
        id,
    ) by {
        let n = choose|n: nat| #[trigger] reaches(intents, target, id, n);
        lemma_closed_holds_all(intents, target, ids, id, n);
    }
}

/// A preview changes nothing and leaves nothing out: it has no effect on files, and every intent of the
/// plan is either touched or retained.
pub proof fn law_impacts_are_complete_and_without_effect(
    plan: IntentPlanV1View,
    lineage: IntentLineageProjectionV1View,
    workspace_revision: u64,
    frontier: u64,
    intent_ref: IntentVersionRefView,
    kind: IntentOperationKind,
    proposal_digest: Option<Seq<char>>,
    x: IntentVersionRefView,
)
    requires
        plan_refs(plan).contains(x),
    ensures
        ({
            let p = impact_in_plan(
                plan,
                lineage,
                workspace_revision,
                frontier,
                intent_ref,
                kind,
                proposal_digest,
            ).operation;
            &&& p.file_effects.len() == 0
            &&& p.target_intents.contains(x) == in_closure(
                plan.intents,
                intent_ref.intent_id,
                x.intent_id,
            )
            &&& p.retained_intents.contains(x) == !p.target_intents.contains(x)
        }),
{
    lemma_selected_members(
        plan_refs(plan),
        is_touched(plan.intents, intent_ref.intent_id),
        x,
    );
    lemma_selected_members(plan_refs(plan), is_spared(plan.intents, intent_ref.intent_id), x);
}

pub(crate) proof fn lemma_selected_members<A>(s: Seq<A>, p: spec_fn(A) -> bool, x: A)
    ensures
        selected(s, p).contains(x) == (s.contains(x) && p(x)),
    decreases s.len(),
{
    if s.len() > 0 {
        let rest = s.drop_last();
        lemma_selected_members(rest, p, x);
        assert(s =~= rest.push(s.last()));
        lemma_pushed_members(rest, s.last(), x);
        if p(s.last()) {
            lemma_pushed_members(selected(rest, p), s.last(), x);
        }
    }
}

pub(crate) proof fn lemma_pushed_members<A>(s: Seq<A>, y: A, x: A)
    ensures
        s.push(y).contains(x) == (s.contains(x) || x == y),
{
    let t = s.push(y);
    if s.contains(x) {
        let i = choose|i: int| 0 <= i < s.len() && s[i] == x;
        assert(t[i] == x);
    }
    if x == y {
        assert(t[s.len() as int] == x);
    }
    if t.contains(x) {
        let i = choose|i: int| 0 <= i < t.len() && t[i] == x;
        if i < s.len() {
            assert(s[i] == x);
        }
    }
}

} // verus!
