//! What a proposal, a plan, a layer, a preview and an event must be to be taken.

use vstd::prelude::*;

use crate::admission_laws::prints;
use crate::dag::acyclic;
use crate::intent::{
    BoundedIntentArtifactSubjectV1View, IntentArtifactBindingV1View, IntentArtifactKind,
    IntentArtifactManifestV1View, IntentArtifactOwnership, IntentConflictV1View,
    IntentCriterionEvidenceLevel, IntentCriterionEvidenceV1View, IntentDefinitionV1View,
    IntentDigestDomain, IntentEventV1View, IntentExecutionBindingV1View, IntentExecutionOriginV1View,
    IntentLayerCoreV1View, IntentLayerManifestV1View, IntentOperationPreviewV1View,
    IntentOperationResolution, IntentPlanKind, IntentPlanProposalV1View, IntentPlanV1View,
    IntentProposalUnitV1View, IntentSourceV1View, IntentVersionRefView, stable_identity_verdict,
};
use crate::intent_contract::{
    binding_verdict, bounded_identity_verdict, domain_name, bounded_text_verdict, criteria_verdicts,
    criterion_aliases, criterion_ids, definition_verdict, definition_verdicts, dependency_verdicts,
    optional_identity_verdict, origin_verdict, own_dependency_verdicts, plan_dependency_messages,
    plan_digest_of, plan_ids, plan_needs, plan_shape_verdict, plan_verdict, proposal_aliases,
    proposal_criteria_verdicts, proposal_dependency_messages, proposal_digest_of,
    proposal_intent_verdict, proposal_intent_verdicts, proposal_needs, proposal_shape_verdict,
    proposal_verdict, relative_path_verdict, source_verdict, DependencyMessages,
};
use crate::intent_event_contract::{
    changeset_id_verdicts, event_name, event_payload_verdict, event_schema, event_verdict, evidence_verdict,
    evidence_verdicts, resolution_verdict,
};
use crate::intent_layer_contract::{
    artifact_ids, artifact_manifest_digest_of, artifact_manifest_verdict, artifact_verdict,
    conflict_verdicts, core_digest_of, core_verdict, file_effect_verdicts, identity_list_verdicts,
    impact_verdicts, layer_manifest_digest_of, layer_manifest_verdict, manifest_artifact_verdicts,
    preview_digest_of, preview_shape_verdict, preview_verdict, retained_verdicts, target_verdicts,
};
use crate::text::{byte_len, is_white_space, split, trimmed};
use crate::value::{distinct, first_failure, lemma_all_pass, repeats};

verus! {

/// An identity: bounded, and with something in it.
pub open spec fn is_identity(value: Seq<char>) -> bool {
    let t = trimmed(value);
    &&& t.len() > 0
    &&& byte_len(t) <= 256
    &&& forall|i: int| 0 <= i < t.len() ==> prints(#[trigger] t[i])
}

/// A text of at most so many bytes, with something in it.
pub open spec fn is_text(value: Seq<char>, max: nat) -> bool {
    &&& exists|i: int| 0 <= i < value.len() && !is_white_space(#[trigger] value[i])
    &&& byte_len(value) <= max
    &&& forall|i: int|
        0 <= i < value.len() ==> prints(#[trigger] value[i]) || value[i] == '\n' || value[i] == '\r'
            || value[i] == '\t'
}

/// A name that stays the same: no longer than 128 bytes, of letters, digits and a few signs.
pub open spec fn is_name(value: Seq<char>) -> bool {
    &&& value.len() > 0
    &&& byte_len(value) <= 128
    &&& forall|i: int| 0 <= i < value.len() ==> is_sign(#[trigger] value[i])
}

/// A letter, a digit, or one of `-`, `_`, `.` and `:`.
pub open spec fn is_sign(c: char) -> bool {
    ('a' <= c && c <= 'z') || ('A' <= c && c <= 'Z') || ('0' <= c && c <= '9') || c == '-' || c
        == '_' || c == '.' || c == ':'
}

/// Identities are taken if and only if they are identities; texts and names likewise, whatever they
/// are called.
pub proof fn law_values_are_taken_for_what_they_are(label: Seq<char>, value: Seq<char>, max: nat)
    ensures
        bounded_identity_verdict(label, value) is Ok <==> is_identity(value),
        bounded_text_verdict(label, value, max) is Ok <==> is_text(value, max),
        stable_identity_verdict(label, value) is Ok <==> is_name(value),
        optional_identity_verdict(label, None) is Ok,
        optional_identity_verdict(label, Some(value)) is Ok <==> is_identity(value),
{
    let t = trimmed(value);
    assert forall|i: int| 0 <= i < t.len() implies prints(#[trigger] t[i]) == crate::text::in_class(
        crate::text::CharClass::Printable,
        t[i],
    ) by {}
    assert forall|i: int| 0 <= i < value.len() implies (prints(#[trigger] value[i]) || value[i]
        == '\n' || value[i] == '\r' || value[i] == '\t') == crate::text::in_class(
        crate::text::CharClass::Prose,
        value[i],
    ) by {}
    assert forall|i: int| 0 <= i < value.len() implies is_sign(#[trigger] value[i])
        == crate::text::in_class(crate::text::CharClass::ScopedName, value[i]) by {}
    if crate::text::is_blank(value) {
        assert forall|i: int| 0 <= i < value.len() implies is_white_space(#[trigger] value[i]) by {
            assert(crate::text::in_class(crate::text::CharClass::White, value[i]));
        }
    } else {
        let i = choose|i: int|
            0 <= i < value.len() && !crate::text::in_class(
                crate::text::CharClass::White,
                #[trigger] value[i],
            );
        assert(!is_white_space(value[i]));
    }
}

/// The path of an artifact is taken if and only if it is relative, is written with slashes, has no
/// part that is empty, `.` or `..`, and no control character.
pub proof fn law_paths_of_artifacts_are_exact(value: Seq<char>)
    ensures
        relative_path_verdict(value) is Ok <==> is_path(value),
{
    assert forall|i: int| 0 <= i < value.len() implies prints(#[trigger] value[i])
        == crate::text::in_class(crate::text::CharClass::Printable, value[i]) by {}
    if value.contains('\\') {
        let i = choose|i: int| 0 <= i < value.len() && value[i] == '\\';
        assert(!(value[i] != '\\'));
    }
}

/// The path of an artifact.
pub open spec fn is_path(value: Seq<char>) -> bool {
    &&& value.len() > 0
    &&& value[0] != '/'
    &&& forall|i: int| 0 <= i < value.len() ==> prints(#[trigger] value[i]) && value[i] != '\\'
    &&& forall|i: int|
        0 <= i < split(value, '/').len() ==> (#[trigger] split(value, '/')[i]).len() > 0 && split(
            value,
            '/',
        )[i] != "."@ && split(value, '/')[i] != ".."@
}

// Where an execution comes from.

/// The source of an execution: identities all through, a version that is not zero.
pub open spec fn is_origin(origin: IntentExecutionOriginV1View) -> bool {
    match origin {
        IntentExecutionOriginV1View::Task { task_id, task_plan_version, step_id, attempt_id } => {
            &&& is_identity(task_id)
            &&& task_plan_version > 0
            &&& is_identity(step_id)
            &&& attempt_id matches Some(a) ==> is_identity(a)
        },
        IntentExecutionOriginV1View::Chat { root_logical_run_id, source_turn_id, attempt_id } => {
            &&& is_identity(root_logical_run_id)
            &&& is_identity(source_turn_id)
            &&& attempt_id matches Some(a) ==> is_identity(a)
        },
    }
}

/// The origin of an execution tells its attempt.
pub open spec fn has_attempt(origin: IntentExecutionOriginV1View) -> bool {
    match origin {
        IntentExecutionOriginV1View::Task { attempt_id, .. } => attempt_id is Some,
        IntentExecutionOriginV1View::Chat { attempt_id, .. } => attempt_id is Some,
    }
}

/// An origin is taken if and only if it is one, and tells its attempt where it has to. A binding is
/// taken if and only if it is of a version, names its event, and its origin is taken; it need not
/// tell an attempt.
pub proof fn law_origins_of_executions_are_exact(
    origin: IntentExecutionOriginV1View,
    require_attempt: bool,
    binding: IntentExecutionBindingV1View,
)
    ensures
        origin_verdict(origin, require_attempt) is Ok <==> is_origin(origin) && (require_attempt
            ==> has_attempt(origin)),
        binding_verdict(binding) is Ok <==> binding.intent_ref.version > 0 && is_identity(
            binding.source_event_id,
        ) && is_origin(binding.origin),
{
    lemma_origin(origin);
    lemma_origin(binding.origin);
    law_values_are_taken_for_what_they_are(
        "intent execution source event id"@,
        binding.source_event_id,
        0,
    );
}

proof fn lemma_origin(origin: IntentExecutionOriginV1View)
    ensures
        origin_verdict(origin, false) is Ok <==> is_origin(origin),
        origin_verdict(origin, true) is Ok <==> is_origin(origin) && has_attempt(origin),
{
    match origin {
        IntentExecutionOriginV1View::Task { task_id, task_plan_version, step_id, attempt_id } => {
            law_values_are_taken_for_what_they_are("intent task id"@, task_id, 0);
            law_values_are_taken_for_what_they_are("intent task step id"@, step_id, 0);
            if let Some(a) = attempt_id {
                law_values_are_taken_for_what_they_are("intent task attempt id"@, a, 0);
            }
        },
        IntentExecutionOriginV1View::Chat { root_logical_run_id, source_turn_id, attempt_id } => {
            law_values_are_taken_for_what_they_are(
                "intent root logical run id"@,
                root_logical_run_id,
                0,
            );
            law_values_are_taken_for_what_they_are("intent chat source turn id"@, source_turn_id, 0);
            if let Some(a) = attempt_id {
                law_values_are_taken_for_what_they_are("intent chat attempt id"@, a, 0);
            }
        },
    }
}

/// The source of an intent is taken if and only if the turn or the text that it names is an
/// identity.
pub proof fn law_sources_of_intents_are_exact(source: IntentSourceV1View)
    ensures
        source_verdict(source) is Ok <==> is_source(source),
{
    match source {
        IntentSourceV1View::UserTurn { source_turn_id } => {
            law_values_are_taken_for_what_they_are("intent source turn id"@, source_turn_id, 0);
        },
        IntentSourceV1View::AcceptedSuggestion { source_turn_id, .. } => {
            law_values_are_taken_for_what_they_are("intent source turn id"@, source_turn_id, 0);
        },
        IntentSourceV1View::TrustedSource { source_ref, .. } => {
            law_values_are_taken_for_what_they_are("intent trusted spec source ref"@, source_ref, 0);
        },
    }
}

/// The source of an intent.
pub open spec fn is_source(source: IntentSourceV1View) -> bool {
    match source {
        IntentSourceV1View::UserTurn { source_turn_id } => is_identity(source_turn_id),
        IntentSourceV1View::AcceptedSuggestion { source_turn_id, .. } => is_identity(source_turn_id),
        IntentSourceV1View::TrustedSource { source_ref, .. } => is_identity(source_ref),
    }
}

// Proposals and plans.

proof fn lemma_distinct<A>(s: Seq<A>)
    ensures
        distinct(s) <==> (forall|i: int| 0 <= i < s.len() ==> !#[trigger] repeats(s, i)),
{
    if forall|i: int| 0 <= i < s.len() ==> !#[trigger] repeats(s, i) {
        assert forall|i: int, j: int| 0 <= i < j < s.len() implies #[trigger] s[i] != #[trigger] s[j] by {
            assert(!repeats(s, j));
        }
    }
    if distinct(s) {
        assert forall|i: int| 0 <= i < s.len() implies !#[trigger] repeats(s, i) by {}
    }
}

/// The item at `i` depends on other items alone, on none of them twice.
pub open spec fn depends_well(
    names: Seq<Seq<char>>,
    own: Seq<char>,
    needs: Seq<Seq<char>>,
) -> bool {
    &&& !needs.contains(own)
    &&& forall|k: int| 0 <= k < needs.len() ==> names.contains(#[trigger] needs[k])
    &&& distinct(needs)
}

proof fn lemma_depends_well(
    names: Seq<Seq<char>>,
    needs: Seq<Seq<Seq<char>>>,
    i: int,
    m: DependencyMessages,
)
    requires
        0 <= i < needs.len(),
    ensures
        first_failure(own_dependency_verdicts(names, needs, i, m)) is Ok <==> depends_well(
            names,
            names[i],
            needs[i],
        ),
{
    let all = own_dependency_verdicts(names, needs, i, m);
    let own = needs[i];
    lemma_all_pass(all);
    lemma_distinct(own);
    if forall|k: int| 0 <= k < all.len() ==> (#[trigger] all[k]) is Ok {
        if own.contains(names[i]) {
            let k = choose|k: int| 0 <= k < own.len() && own[k] == names[i];
            assert(all[k] is Ok);
        }
        assert forall|k: int| 0 <= k < own.len() implies names.contains(#[trigger] own[k]) by {
            assert(all[k] is Ok);
        }
        assert forall|k: int| 0 <= k < own.len() implies !#[trigger] repeats(own, k) by {
            assert(all[k] is Ok);
        }
    }
    if depends_well(names, names[i], own) {
        assert forall|k: int| 0 <= k < all.len() implies (#[trigger] all[k]) is Ok by {
            assert(own.contains(own[k]));
            assert(!repeats(own, k));
            assert(names.contains(own[k]));
        }
    }
}

proof fn lemma_dependencies(
    names: Seq<Seq<char>>,
    needs: Seq<Seq<Seq<char>>>,
    m: DependencyMessages,
)
    ensures
        first_failure(dependency_verdicts(names, needs, m)) is Ok <==> (forall|i: int|
            0 <= i < needs.len() ==> depends_well(names, names[i], #[trigger] needs[i])),
{
    let all = dependency_verdicts(names, needs, m);
    lemma_all_pass(all);
    assert forall|i: int| 0 <= i < needs.len() implies (all[i] is Ok) == depends_well(
        names,
        names[i],
        #[trigger] needs[i],
    ) by {
        lemma_depends_well(names, needs, i, m);
    }
    if forall|i: int| 0 <= i < all.len() ==> (#[trigger] all[i]) is Ok {
        assert forall|i: int| 0 <= i < needs.len() implies depends_well(
            names,
            names[i],
            #[trigger] needs[i],
        ) by {
            assert(all[i] is Ok);
        }
    }
    if forall|i: int| 0 <= i < needs.len() ==> depends_well(names, names[i], #[trigger] needs[i]) {
        assert forall|i: int| 0 <= i < all.len() implies (#[trigger] all[i]) is Ok by {
            assert(depends_well(names, names[i], needs[i]));
        }
    }
}

/// A proposed intent that can stand.
pub open spec fn is_proposed_intent(u: IntentProposalUnitV1View) -> bool {
    &&& is_name(u.intent_alias)
    &&& is_text(u.title, 256)
    &&& is_text(u.statement, 4096)
    &&& 0 < u.acceptance_criteria.len() <= 64
    &&& u.depends_on_aliases.len() <= 64
    &&& forall|k: int|
        0 <= k < u.acceptance_criteria.len() ==> is_name(
            (#[trigger] u.acceptance_criteria[k]).criterion_alias,
        ) && is_text(u.acceptance_criteria[k].statement, 4096)
    &&& distinct(criterion_aliases(u.acceptance_criteria))
}

proof fn lemma_proposed_intent(intents: Seq<IntentProposalUnitV1View>, i: int)
    requires
        0 <= i < intents.len(),
    ensures
        proposal_intent_verdict(intents, i) is Ok <==> is_proposed_intent(intents[i]) && !repeats(
            proposal_aliases(intents),
            i,
        ),
{
    let u = intents[i];
    law_values_are_taken_for_what_they_are("intent proposal alias"@, u.intent_alias, 0);
    law_values_are_taken_for_what_they_are("intent title"@, u.title, 256);
    law_values_are_taken_for_what_they_are("intent statement"@, u.statement, 4096);
    let c = u.acceptance_criteria;
    let all = proposal_criteria_verdicts(c);
    let aliases = criterion_aliases(c);
    lemma_all_pass(all);
    lemma_distinct(aliases);
    assert forall|k: int| 0 <= k < c.len() implies (all[k] is Ok) == (is_name(
        (#[trigger] c[k]).criterion_alias,
    ) && is_text(c[k].statement, 4096) && !repeats(aliases, k)) by {
        law_values_are_taken_for_what_they_are(
            "intent proposal criterion alias"@,
            c[k].criterion_alias,
            0,
        );
        law_values_are_taken_for_what_they_are("intent proposal criterion"@, c[k].statement, 4096);
    }
    if forall|k: int| 0 <= k < all.len() ==> (#[trigger] all[k]) is Ok {
        assert forall|k: int| 0 <= k < c.len() implies is_name((#[trigger] c[k]).criterion_alias)
            && is_text(c[k].statement, 4096) by {
            assert(all[k] is Ok);
        }
        assert forall|k: int| 0 <= k < aliases.len() implies !#[trigger] repeats(aliases, k) by {
            assert(all[k] is Ok);
            assert(c[k] == c[k]);
        }
    }
    if is_proposed_intent(u) {
        assert forall|k: int| 0 <= k < all.len() implies (#[trigger] all[k]) is Ok by {
            assert(is_name(c[k].criterion_alias));
            assert(!repeats(aliases, k));
        }
    }
}

/// A proposal is taken if and only if it is of this schema, names itself and its turn, has between
/// one intent and 64, each of which can stand, no alias twice, its intents depend on others of it
/// without going round, and it carries its digest.
pub proof fn law_proposals_are_exact(p: IntentPlanProposalV1View)
    ensures
        proposal_verdict(p) is Ok <==> {
            &&& p.schema_version == 1
            &&& is_identity(p.proposal_id)
            &&& is_identity(p.source_turn_id)
            &&& 0 < p.intents.len() <= 64
            &&& forall|i: int| 0 <= i < p.intents.len() ==> is_proposed_intent(#[trigger] p.intents[i])
            &&& distinct(proposal_aliases(p.intents))
            &&& forall|i: int|
                0 <= i < p.intents.len() ==> depends_well(
                    proposal_aliases(p.intents),
                    (#[trigger] p.intents[i]).intent_alias,
                    p.intents[i].depends_on_aliases,
                )
            &&& acyclic(proposal_aliases(p.intents), proposal_needs(p.intents))
            &&& p.proposal_digest == proposal_digest_of(p)
        },
{
    reveal(proposal_shape_verdict);
    law_values_are_taken_for_what_they_are("intent proposal id"@, p.proposal_id, 0);
    law_values_are_taken_for_what_they_are("intent proposal source turn id"@, p.source_turn_id, 0);
    let names = proposal_aliases(p.intents);
    let needs = proposal_needs(p.intents);
    let all = proposal_intent_verdicts(p.intents);
    lemma_dependencies(names, needs, proposal_dependency_messages());
    lemma_all_pass(all);
    lemma_distinct(names);
    assert forall|i: int| 0 <= i < p.intents.len() implies (all[i] is Ok) == (is_proposed_intent(
        #[trigger] p.intents[i],
    ) && !repeats(names, i)) by {
        lemma_proposed_intent(p.intents, i);
    }
    assert((first_failure(all) is Ok) == (distinct(names) && forall|i: int|
        0 <= i < p.intents.len() ==> is_proposed_intent(#[trigger] p.intents[i]))) by {
        if first_failure(all) is Ok {
            assert forall|i: int| 0 <= i < p.intents.len() implies is_proposed_intent(
                #[trigger] p.intents[i],
            ) by {
                assert(all[i] is Ok);
            }
            assert forall|i: int| 0 <= i < names.len() implies !#[trigger] repeats(names, i) by {
                assert(all[i] is Ok);
                assert(p.intents[i] == p.intents[i]);
            }
        } else {
            let i = choose|i: int| 0 <= i < all.len() && !((#[trigger] all[i]) is Ok);
            assert(!(is_proposed_intent(p.intents[i]) && !repeats(names, i)));
        }
    }
    assert((forall|i: int| 0 <= i < needs.len() ==> depends_well(names, names[i], #[trigger] needs[i]))
        == (forall|i: int|
        0 <= i < p.intents.len() ==> depends_well(
            names,
            (#[trigger] p.intents[i]).intent_alias,
            p.intents[i].depends_on_aliases,
        ))) by {
        if forall|i: int| 0 <= i < needs.len() ==> depends_well(names, names[i], #[trigger] needs[i]) {
            assert forall|i: int| 0 <= i < p.intents.len() implies depends_well(
                names,
                (#[trigger] p.intents[i]).intent_alias,
                p.intents[i].depends_on_aliases,
            ) by {
                assert(depends_well(names, names[i], needs[i]));
            }
        }
        if forall|i: int|
            0 <= i < p.intents.len() ==> depends_well(
                names,
                (#[trigger] p.intents[i]).intent_alias,
                p.intents[i].depends_on_aliases,
            ) {
            assert forall|i: int| 0 <= i < needs.len() implies depends_well(
                names,
                names[i],
                #[trigger] needs[i],
            ) by {
                assert(p.intents[i].intent_alias == names[i]);
            }
        }
    }
}

/// An intent that can stand in a plan.
pub open spec fn is_defined(d: IntentDefinitionV1View) -> bool {
    &&& d.intent_ref.version > 0
    &&& is_text(d.title, 256)
    &&& is_text(d.statement, 4096)
    &&& 0 < d.acceptance_criteria.len() <= 64
    &&& d.depends_on.len() <= 64
    &&& forall|k: int|
        0 <= k < d.acceptance_criteria.len() ==> is_text(
            (#[trigger] d.acceptance_criteria[k]).statement,
            4096,
        )
    &&& distinct(criterion_ids(d.acceptance_criteria))
    &&& is_source(d.source)
    &&& d.supersedes matches Some(s) ==> s.version > 0 && s.intent_id == d.intent_ref.intent_id
        && s.version < d.intent_ref.version
}

proof fn lemma_defined(intents: Seq<IntentDefinitionV1View>, i: int)
    requires
        0 <= i < intents.len(),
    ensures
        definition_verdict(intents, i) is Ok <==> is_defined(intents[i]) && !repeats(
            plan_ids(intents),
            i,
        ),
{
    let d = intents[i];
    law_values_are_taken_for_what_they_are("intent title"@, d.title, 256);
    law_values_are_taken_for_what_they_are("intent statement"@, d.statement, 4096);
    law_sources_of_intents_are_exact(d.source);
    let c = d.acceptance_criteria;
    let all = criteria_verdicts(c);
    let ids = criterion_ids(c);
    lemma_all_pass(all);
    lemma_distinct(ids);
    assert forall|k: int| 0 <= k < c.len() implies (all[k] is Ok) == (is_text(
        (#[trigger] c[k]).statement,
        4096,
    ) && !repeats(ids, k)) by {
        law_values_are_taken_for_what_they_are("intent acceptance criterion"@, c[k].statement, 4096);
    }
    if forall|k: int| 0 <= k < all.len() ==> (#[trigger] all[k]) is Ok {
        assert forall|k: int| 0 <= k < c.len() implies is_text((#[trigger] c[k]).statement, 4096) by {
            assert(all[k] is Ok);
        }
        assert forall|k: int| 0 <= k < ids.len() implies !#[trigger] repeats(ids, k) by {
            assert(all[k] is Ok);
            assert(c[k] == c[k]);
        }
    }
    if is_defined(d) {
        assert forall|k: int| 0 <= k < all.len() implies (#[trigger] all[k]) is Ok by {
            assert(is_text(c[k].statement, 4096));
            assert(!repeats(ids, k));
        }
    }
}

/// A plan is taken if and only if it is of this schema, names its workspace and its session, has
/// between one intent and 64, each of which can stand, no identity twice, its intents depend on
/// others of it without going round, its kind fits their sources, and it carries its digest.
pub proof fn law_plans_are_exact(p: IntentPlanV1View)
    ensures
        plan_verdict(p) is Ok <==> {
            &&& p.schema_version == 1
            &&& is_identity(p.workspace_id)
            &&& is_identity(p.source_session_id)
            &&& 0 < p.intents.len() <= 64
            &&& p.kind == IntentPlanKind::UserDeclaredRoot ==> p.intents.len() == 1
                && p.intents[0].source is UserTurn
            &&& p.kind == IntentPlanKind::SuggestedDecomposition ==> forall|i: int|
                0 <= i < p.intents.len() ==> !((#[trigger] p.intents[i]).source is UserTurn)
            &&& forall|i: int| 0 <= i < p.intents.len() ==> is_defined(#[trigger] p.intents[i])
            &&& distinct(plan_ids(p.intents))
            &&& forall|i: int|
                0 <= i < p.intents.len() ==> depends_well(
                    plan_ids(p.intents),
                    (#[trigger] p.intents[i]).intent_ref.intent_id,
                    p.intents[i].depends_on,
                )
            &&& acyclic(plan_ids(p.intents), plan_needs(p.intents))
            &&& p.plan_digest == plan_digest_of(p)
        },
{
    reveal(plan_shape_verdict);
    law_values_are_taken_for_what_they_are("intent workspace id"@, p.workspace_id, 0);
    law_values_are_taken_for_what_they_are("intent source session id"@, p.source_session_id, 0);
    let names = plan_ids(p.intents);
    let needs = plan_needs(p.intents);
    let all = definition_verdicts(p.intents);
    lemma_dependencies(names, needs, plan_dependency_messages());
    lemma_all_pass(all);
    lemma_distinct(names);
    assert forall|i: int| 0 <= i < p.intents.len() implies (all[i] is Ok) == (is_defined(
        #[trigger] p.intents[i],
    ) && !repeats(names, i)) by {
        lemma_defined(p.intents, i);
    }
    assert((first_failure(all) is Ok) == (distinct(names) && forall|i: int|
        0 <= i < p.intents.len() ==> is_defined(#[trigger] p.intents[i]))) by {
        if first_failure(all) is Ok {
            assert forall|i: int| 0 <= i < p.intents.len() implies is_defined(
                #[trigger] p.intents[i],
            ) by {
                assert(all[i] is Ok);
            }
            assert forall|i: int| 0 <= i < names.len() implies !#[trigger] repeats(names, i) by {
                assert(all[i] is Ok);
                assert(p.intents[i] == p.intents[i]);
            }
        } else {
            let i = choose|i: int| 0 <= i < all.len() && !((#[trigger] all[i]) is Ok);
            assert(!(is_defined(p.intents[i]) && !repeats(names, i)));
        }
    }
    assert((forall|i: int| 0 <= i < needs.len() ==> depends_well(names, names[i], #[trigger] needs[i]))
        == (forall|i: int|
        0 <= i < p.intents.len() ==> depends_well(
            names,
            (#[trigger] p.intents[i]).intent_ref.intent_id,
            p.intents[i].depends_on,
        ))) by {
        if forall|i: int| 0 <= i < needs.len() ==> depends_well(names, names[i], #[trigger] needs[i]) {
            assert forall|i: int| 0 <= i < p.intents.len() implies depends_well(
                names,
                (#[trigger] p.intents[i]).intent_ref.intent_id,
                p.intents[i].depends_on,
            ) by {
                assert(depends_well(names, names[i], needs[i]));
            }
        }
        if forall|i: int|
            0 <= i < p.intents.len() ==> depends_well(
                names,
                (#[trigger] p.intents[i]).intent_ref.intent_id,
                p.intents[i].depends_on,
            ) {
            assert forall|i: int| 0 <= i < needs.len() implies depends_well(
                names,
                names[i],
                #[trigger] needs[i],
            ) by {
                assert(p.intents[i].intent_ref.intent_id == names[i]);
            }
        }
    }
}

// Artifacts and layers.

/// An artifact that can stand: a hunk of a file has its lineage, a path, ranges that run forward
/// and the digests of its contents; evidence names what it refers to and is neither a hunk nor a
/// side effect; and a side effect is told, and is never owned by one intent alone.
pub open spec fn is_artifact(a: IntentArtifactBindingV1View) -> bool {
    &&& is_identity(a.provenance.source_event_id)
    &&& a.provenance.mutation_batch_id matches Some(x) ==> is_identity(x)
    &&& a.provenance.changeset_id matches Some(x) ==> is_identity(x)
    &&& a.provenance.verification_receipt_id matches Some(x) ==> is_identity(x)
    &&& match a.subject {
        BoundedIntentArtifactSubjectV1View::FileHunk {
            normalized_relative_path,
            old_range,
            new_range,
            old_content_digest,
            new_content_digest,
            ..
        } => {
            &&& a.artifact_kind == IntentArtifactKind::FileHunk
            &&& a.provenance.mutation_batch_id is Some
            &&& a.provenance.changeset_id is Some
            &&& is_path(normalized_relative_path)
            &&& old_range.start <= old_range.end
            &&& new_range.start <= new_range.end
            &&& a.before_digest == Some(old_content_digest)
            &&& a.after_digest == new_content_digest
        },
        BoundedIntentArtifactSubjectV1View::Evidence { reference_id } => {
            &&& is_identity(reference_id)
            &&& a.artifact_kind != IntentArtifactKind::FileHunk
            &&& a.artifact_kind != IntentArtifactKind::UnsupportedSideEffect
        },
        BoundedIntentArtifactSubjectV1View::UnsupportedSideEffect { effect_kind, safe_summary } => {
            &&& a.artifact_kind == IntentArtifactKind::UnsupportedSideEffect
            &&& is_identity(effect_kind)
            &&& is_text(safe_summary, 2048)
            &&& a.ownership != IntentArtifactOwnership::Exclusive
        },
    }
}

proof fn lemma_optional(label: Seq<char>, value: Option<Seq<char>>)
    ensures
        optional_identity_verdict(label, value) is Ok <==> (value matches Some(x) ==> is_identity(x)),
{
    if let Some(x) = value {
        law_values_are_taken_for_what_they_are(label, x, 0);
    }
}

/// An artifact is taken if and only if it can stand.
pub proof fn law_artifacts_are_exact(a: IntentArtifactBindingV1View)
    ensures
        artifact_verdict(a) is Ok <==> is_artifact(a),
{
    law_values_are_taken_for_what_they_are(
        "intent artifact source event id"@,
        a.provenance.source_event_id,
        0,
    );
    lemma_optional("intent artifact mutation batch id"@, a.provenance.mutation_batch_id);
    lemma_optional("intent artifact change set id"@, a.provenance.changeset_id);
    lemma_optional("intent artifact verification receipt id"@, a.provenance.verification_receipt_id);
    match a.subject {
        BoundedIntentArtifactSubjectV1View::FileHunk { normalized_relative_path, .. } => {
            law_paths_of_artifacts_are_exact(normalized_relative_path);
        },
        BoundedIntentArtifactSubjectV1View::Evidence { reference_id } => {
            law_values_are_taken_for_what_they_are(
                "intent artifact evidence reference"@,
                reference_id,
                0,
            );
        },
        BoundedIntentArtifactSubjectV1View::UnsupportedSideEffect { effect_kind, safe_summary } => {
            law_values_are_taken_for_what_they_are("unsupported side effect kind"@, effect_kind, 0);
            law_values_are_taken_for_what_they_are(
                "unsupported side effect summary"@,
                safe_summary,
                2048,
            );
        },
    }
}

/// Identities, none of them twice.
pub open spec fn are_identities(ids: Seq<Seq<char>>) -> bool {
    &&& distinct(ids)
    &&& forall|i: int| 0 <= i < ids.len() ==> is_identity(#[trigger] ids[i])
}

proof fn lemma_identities(label: Seq<char>, repeated: Seq<char>, ids: Seq<Seq<char>>)
    ensures
        first_failure(identity_list_verdicts(label, repeated, ids)) is Ok <==> are_identities(ids),
{
    let all = identity_list_verdicts(label, repeated, ids);
    lemma_all_pass(all);
    lemma_distinct(ids);
    assert forall|i: int| 0 <= i < ids.len() implies (all[i] is Ok) == (is_identity(#[trigger] ids[i])
        && !repeats(ids, i)) by {
        law_values_are_taken_for_what_they_are(label, ids[i], 0);
    }
    if first_failure(all) is Ok {
        assert forall|i: int| 0 <= i < ids.len() implies is_identity(#[trigger] ids[i]) by {
            assert(all[i] is Ok);
        }
        assert forall|i: int| 0 <= i < ids.len() implies !#[trigger] repeats(ids, i) by {
            assert(all[i] is Ok);
            assert(ids[i] == ids[i]);
        }
    } else {
        let i = choose|i: int| 0 <= i < all.len() && !((#[trigger] all[i]) is Ok);
        assert(!(is_identity(ids[i]) && !repeats(ids, i)));
    }
}

/// The core of a layer is taken if and only if it is of this schema and of a version, its origin
/// tells an attempt, its snapshots and its patches are identities, it has change sets, none of them
/// twice, and it carries its digest.
pub proof fn law_cores_of_layers_are_exact(c: IntentLayerCoreV1View)
    ensures
        core_verdict(c) is Ok <==> {
            &&& c.schema_version == 1
            &&& c.intent_ref.version > 0
            &&& is_origin(c.execution_origin)
            &&& has_attempt(c.execution_origin)
            &&& is_identity(c.base_snapshot_id)
            &&& is_identity(c.result_snapshot_id)
            &&& c.changeset_ids.len() > 0
            &&& are_identities(c.changeset_ids)
            &&& is_identity(c.forward_patch_artifact_id)
            &&& is_identity(c.reverse_patch_artifact_id)
            &&& c.core_digest == core_digest_of(c)
        },
{
    reveal(core_verdict);
    lemma_origin(c.execution_origin);
    law_values_are_taken_for_what_they_are("intent layer base snapshot id"@, c.base_snapshot_id, 0);
    law_values_are_taken_for_what_they_are(
        "intent layer result snapshot id"@,
        c.result_snapshot_id,
        0,
    );
    lemma_identities(
        "intent layer change set id"@,
        "intent layer contains duplicate change set ids"@,
        c.changeset_ids,
    );
    law_values_are_taken_for_what_they_are(
        "intent layer forward patch artifact id"@,
        c.forward_patch_artifact_id,
        0,
    );
    law_values_are_taken_for_what_they_are(
        "intent layer reverse patch artifact id"@,
        c.reverse_patch_artifact_id,
        0,
    );
}

/// A hunk of a file that is of another layer than the manifest.
pub open spec fn is_of_another_layer(a: IntentArtifactBindingV1View, core: Seq<char>) -> bool {
    a.subject matches BoundedIntentArtifactSubjectV1View::FileHunk { layer_core_digest, .. }
        && layer_core_digest != core
}

/// An artifact manifest is taken if and only if it is of this schema and of a version, has
/// artifacts that can stand, all of its execution, no identity twice and no hunk of another layer,
/// and carries its digest.
pub proof fn law_artifact_manifests_are_exact(m: IntentArtifactManifestV1View)
    ensures
        artifact_manifest_verdict(m) is Ok <==> {
            &&& m.schema_version == 1
            &&& m.intent_ref.version > 0
            &&& m.artifacts.len() > 0
            &&& distinct(artifact_ids(m.artifacts))
            &&& forall|i: int|
                0 <= i < m.artifacts.len() ==> is_artifact(#[trigger] m.artifacts[i])
                    && m.artifacts[i].provenance.execution_id == m.execution_id
                    && !is_of_another_layer(m.artifacts[i], m.layer_core_digest)
            &&& m.manifest_digest == artifact_manifest_digest_of(m)
        },
{
    reveal(artifact_manifest_verdict);
    let all = manifest_artifact_verdicts(m);
    let ids = artifact_ids(m.artifacts);
    lemma_all_pass(all);
    lemma_distinct(ids);
    assert forall|i: int| 0 <= i < m.artifacts.len() implies (all[i] is Ok) == (is_artifact(
        #[trigger] m.artifacts[i],
    ) && m.artifacts[i].provenance.execution_id == m.execution_id && !is_of_another_layer(
        m.artifacts[i],
        m.layer_core_digest,
    ) && !repeats(ids, i)) by {
        law_artifacts_are_exact(m.artifacts[i]);
    }
    if first_failure(all) is Ok {
        assert forall|i: int| 0 <= i < m.artifacts.len() implies is_artifact(
            #[trigger] m.artifacts[i],
        ) && m.artifacts[i].provenance.execution_id == m.execution_id && !is_of_another_layer(
            m.artifacts[i],
            m.layer_core_digest,
        ) by {
            assert(all[i] is Ok);
        }
        assert forall|i: int| 0 <= i < ids.len() implies !#[trigger] repeats(ids, i) by {
            assert(all[i] is Ok);
            assert(m.artifacts[i] == m.artifacts[i]);
        }
    } else {
        let i = choose|i: int| 0 <= i < all.len() && !((#[trigger] all[i]) is Ok);
        assert(is_artifact(m.artifacts[i]) && m.artifacts[i].provenance.execution_id
            == m.execution_id && !is_of_another_layer(m.artifacts[i], m.layer_core_digest)
            ==> repeats(ids, i));
    }
}

/// A layer manifest is taken if and only if it is of this schema, its core is taken, it names its
/// artifact manifest, and it carries its digest.
pub proof fn law_layer_manifests_are_exact(m: IntentLayerManifestV1View)
    ensures
        layer_manifest_verdict(m) is Ok <==> m.schema_version == 1 && core_verdict(m.core) is Ok
            && is_identity(m.artifact_manifest_id) && m.manifest_digest == layer_manifest_digest_of(m),
{
    law_values_are_taken_for_what_they_are(
        "intent artifact manifest id"@,
        m.artifact_manifest_id,
        0,
    );
}

// Previews and events.

/// A conflict that can stand: of a version where it names one, with a reason.
pub open spec fn is_conflict(c: IntentConflictV1View) -> bool {
    &&& c.intent_ref matches Some(r) ==> r.version > 0
    &&& is_text(c.safe_reason, 2048)
}

proof fn lemma_versions(targets: Seq<IntentVersionRefView>)
    ensures
        first_failure(target_verdicts(targets)) is Ok <==> are_versions(targets),
{
    let all = target_verdicts(targets);
    lemma_all_pass(all);
    lemma_distinct(targets);
    if first_failure(all) is Ok {
        assert forall|i: int| 0 <= i < targets.len() implies (#[trigger] targets[i]).version > 0 by {
            assert(all[i] is Ok);
        }
        assert forall|i: int| 0 <= i < targets.len() implies !#[trigger] repeats(targets, i) by {
            assert(all[i] is Ok);
        }
    } else {
        let i = choose|i: int| 0 <= i < all.len() && !((#[trigger] all[i]) is Ok);
        assert(targets[i].version > 0 ==> repeats(targets, i));
    }
}

/// Versions of intents, none of them twice.
pub open spec fn are_versions(refs: Seq<IntentVersionRefView>) -> bool {
    &&& distinct(refs)
    &&& forall|i: int| 0 <= i < refs.len() ==> (#[trigger] refs[i]).version > 0
}

proof fn lemma_retained(targets: Seq<IntentVersionRefView>, retained: Seq<IntentVersionRefView>)
    ensures
        first_failure(retained_verdicts(targets, retained)) is Ok <==> are_versions(retained) && (
        forall|i: int| 0 <= i < retained.len() ==> !targets.contains(#[trigger] retained[i])),
{
    let all = retained_verdicts(targets, retained);
    lemma_all_pass(all);
    lemma_distinct(retained);
    if first_failure(all) is Ok {
        assert forall|i: int| 0 <= i < retained.len() implies (#[trigger] retained[i]).version > 0
            && !targets.contains(retained[i]) by {
            assert(all[i] is Ok);
        }
        assert forall|i: int| 0 <= i < retained.len() implies !#[trigger] repeats(retained, i) by {
            assert(all[i] is Ok);
        }
    } else {
        let i = choose|i: int| 0 <= i < all.len() && !((#[trigger] all[i]) is Ok);
        assert(retained[i].version > 0 && !targets.contains(retained[i]) ==> repeats(retained, i));
    }
}

/// A preview of an operation is taken if and only if it is of this schema, has targets, does not
/// expire at once, keeps none of its targets, names no intent twice, its effects are on artifacts
/// of paths, the receipts that it speaks of are identities, its conflicts can stand, and it carries
/// its digest.
pub proof fn law_previews_are_exact(p: IntentOperationPreviewV1View)
    ensures
        preview_verdict(p) is Ok <==> {
            &&& p.schema_version == 1
            &&& p.target_intents.len() > 0
            &&& p.expires_at_ms != Some(0u64)
            &&& are_versions(p.target_intents)
            &&& are_versions(p.retained_intents)
            &&& forall|i: int|
                0 <= i < p.retained_intents.len() ==> !p.target_intents.contains(
                    #[trigger] p.retained_intents[i],
                )
            &&& forall|i: int|
                0 <= i < p.file_effects.len() ==> is_path(
                    (#[trigger] p.file_effects[i]).normalized_relative_path,
                ) && p.file_effects[i].artifact_ids.len() > 0
            &&& forall|i: int|
                0 <= i < p.verification_impacts.len() ==> is_identity(
                    (#[trigger] p.verification_impacts[i]).receipt_id,
                )
            &&& forall|i: int| 0 <= i < p.conflicts.len() ==> is_conflict(#[trigger] p.conflicts[i])
            &&& p.preview_digest == preview_digest_of(p)
        },
{
    reveal(preview_shape_verdict);
    lemma_versions(p.target_intents);
    lemma_retained(p.target_intents, p.retained_intents);
    let files = file_effect_verdicts(p.file_effects);
    let impacts = impact_verdicts(p.verification_impacts);
    let conflicts = conflict_verdicts(p.conflicts);
    lemma_all_pass(files);
    lemma_all_pass(impacts);
    lemma_all_pass(conflicts);
    assert forall|i: int| 0 <= i < p.file_effects.len() implies (files[i] is Ok) == (is_path(
        (#[trigger] p.file_effects[i]).normalized_relative_path,
    ) && p.file_effects[i].artifact_ids.len() > 0) by {
        law_paths_of_artifacts_are_exact(p.file_effects[i].normalized_relative_path);
    }
    assert forall|i: int| 0 <= i < p.verification_impacts.len() implies (impacts[i] is Ok)
        == is_identity((#[trigger] p.verification_impacts[i]).receipt_id) by {
        law_values_are_taken_for_what_they_are(
            "intent operation verification receipt id"@,
            p.verification_impacts[i].receipt_id,
            0,
        );
    }
    assert forall|i: int| 0 <= i < p.conflicts.len() implies (conflicts[i] is Ok) == is_conflict(
        #[trigger] p.conflicts[i],
    ) by {
        law_values_are_taken_for_what_they_are(
            "intent operation conflict reason"@,
            p.conflicts[i].safe_reason,
            2048,
        );
    }
    if first_failure(files) is Ok {
        assert forall|i: int| 0 <= i < p.file_effects.len() implies is_path(
            (#[trigger] p.file_effects[i]).normalized_relative_path,
        ) && p.file_effects[i].artifact_ids.len() > 0 by {
            assert(files[i] is Ok);
        }
    } else {
        let i = choose|i: int| 0 <= i < files.len() && !((#[trigger] files[i]) is Ok);
        assert(is_path(p.file_effects[i].normalized_relative_path)
            ==> p.file_effects[i].artifact_ids.len() == 0);
    }
    if first_failure(impacts) is Ok {
        assert forall|i: int| 0 <= i < p.verification_impacts.len() implies is_identity(
            (#[trigger] p.verification_impacts[i]).receipt_id,
        ) by {
            assert(impacts[i] is Ok);
        }
    } else {
        let i = choose|i: int| 0 <= i < impacts.len() && !((#[trigger] impacts[i]) is Ok);
        assert(!is_identity(p.verification_impacts[i].receipt_id));
    }
    if first_failure(conflicts) is Ok {
        assert forall|i: int| 0 <= i < p.conflicts.len() implies is_conflict(
            #[trigger] p.conflicts[i],
        ) by {
            assert(conflicts[i] is Ok);
        }
    } else {
        let i = choose|i: int| 0 <= i < conflicts.len() && !((#[trigger] conflicts[i]) is Ok);
        assert(!is_conflict(p.conflicts[i]));
    }
}

/// Evidence that can stand: of a version, its event, its receipt and its snapshot are identities,
/// so are its change sets, none twice, and evidence of the system has some.
pub open spec fn is_evidence(e: IntentCriterionEvidenceV1View) -> bool {
    &&& e.intent_ref.version > 0
    &&& is_identity(e.source_event_id)
    &&& is_identity(e.receipt_id)
    &&& is_identity(e.parent_snapshot_id)
    &&& e.level == IntentCriterionEvidenceLevel::SystemVerified ==> e.changeset_ids.len() > 0
    &&& are_identities(e.changeset_ids)
}

/// Evidence is taken if and only if it can stand.
pub proof fn law_evidence_is_exact(e: IntentCriterionEvidenceV1View)
    ensures
        evidence_verdict(e) is Ok <==> is_evidence(e),
{
    law_values_are_taken_for_what_they_are(
        "intent verification source event id"@,
        e.source_event_id,
        0,
    );
    law_values_are_taken_for_what_they_are("intent verification receipt id"@, e.receipt_id, 0);
    law_values_are_taken_for_what_they_are(
        "intent verification parent snapshot id"@,
        e.parent_snapshot_id,
        0,
    );
    lemma_identities(
        "intent verification change set id"@,
        "intent verification evidence repeats a change set"@,
        e.changeset_ids,
    );
}

/// How an operation may end: committed with a batch and a snapshot and no error; rejected or
/// cancelled without a snapshot; otherwise with an error.
pub proof fn law_ends_are_whole(
    resolution: IntentOperationResolution,
    batch: bool,
    snapshot: bool,
    error: bool,
)
    ensures
        resolution == IntentOperationResolution::Committed ==> (resolution_verdict(
            resolution,
            batch,
            snapshot,
            error,
        ) is Ok <==> batch && snapshot && !error),
        resolution == IntentOperationResolution::Rejected || resolution
            == IntentOperationResolution::Cancelled ==> (resolution_verdict(
            resolution,
            batch,
            snapshot,
            error,
        ) is Ok <==> !snapshot),
        resolution == IntentOperationResolution::Conflicted || resolution
            == IntentOperationResolution::PartiallyApplied || resolution
            == IntentOperationResolution::Interrupted ==> (resolution_verdict(
            resolution,
            batch,
            snapshot,
            error,
        ) is Ok <==> error),
{
}

proof fn lemma_change_sets(ids: Seq<Seq<char>>)
    ensures
        first_failure(changeset_id_verdicts(ids)) is Ok <==> (forall|i: int|
            0 <= i < ids.len() ==> is_identity(#[trigger] ids[i])),
{
    let all = changeset_id_verdicts(ids);
    lemma_all_pass(all);
    assert forall|i: int| 0 <= i < ids.len() implies (all[i] is Ok) == is_identity(#[trigger] ids[i]) by {
        law_values_are_taken_for_what_they_are("intent change set id"@, ids[i], 0);
    }
    if first_failure(all) is Ok {
        assert forall|i: int| 0 <= i < ids.len() implies is_identity(#[trigger] ids[i]) by {
            assert(all[i] is Ok);
        }
    } else {
        let i = choose|i: int| 0 <= i < all.len() && !((#[trigger] all[i]) is Ok);
        assert(!is_identity(ids[i]));
    }
}

proof fn lemma_evidence(items: Seq<IntentCriterionEvidenceV1View>)
    ensures
        first_failure(evidence_verdicts(items)) is Ok <==> (forall|i: int|
            0 <= i < items.len() ==> is_evidence(#[trigger] items[i])),
{
    let all = evidence_verdicts(items);
    lemma_all_pass(all);
    assert forall|i: int| 0 <= i < items.len() implies (all[i] is Ok) == is_evidence(
        #[trigger] items[i],
    ) by {
        law_evidence_is_exact(items[i]);
    }
    if first_failure(all) is Ok {
        assert forall|i: int| 0 <= i < items.len() implies is_evidence(#[trigger] items[i]) by {
            assert(all[i] is Ok);
        }
    } else {
        let i = choose|i: int| 0 <= i < all.len() && !((#[trigger] all[i]) is Ok);
        assert(!is_evidence(items[i]));
    }
}

/// What an event must hold.
pub open spec fn is_event(e: IntentEventV1View) -> bool {
    match e {
        IntentEventV1View::StackCreated { workspace_id, source_session_id, .. } => is_identity(
            workspace_id,
        ) && is_identity(source_session_id),
        IntentEventV1View::PlanRecorded { plan, .. } => plan_verdict(plan) is Ok,
        IntentEventV1View::PlanAccepted {
            source_turn_id,
            acceptance_authority_id,
            task_plan_binding,
            ..
        } => {
            &&& is_identity(source_turn_id)
            &&& is_identity(acceptance_authority_id)
            &&& task_plan_binding matches Some(b) ==> is_identity(b.task_id) && b.task_plan_version
                > 0
        },
        IntentEventV1View::ExecutionBound { binding, .. } => binding.intent_ref.version > 0
            && is_identity(binding.source_event_id) && is_origin(binding.origin),
        IntentEventV1View::ChangeSetBound { intent_ref, changeset_ids, .. } => {
            &&& intent_ref.version > 0
            &&& changeset_ids.len() > 0
            &&& forall|i: int| 0 <= i < changeset_ids.len() ==> is_identity(#[trigger] changeset_ids[i])
        },
        IntentEventV1View::LayerManifestRecorded { manifest, .. } => layer_manifest_verdict(
            manifest,
        ) is Ok,
        IntentEventV1View::ArtifactBindingsRecorded { manifest, .. } => artifact_manifest_verdict(
            manifest,
        ) is Ok,
        IntentEventV1View::VerificationLinked { evidence, .. } => {
            &&& evidence.len() > 0
            &&& forall|i: int| 0 <= i < evidence.len() ==> is_evidence(#[trigger] evidence[i])
        },
        IntentEventV1View::OperationRequested { preview, safe_reason, .. } => preview_verdict(
            preview,
        ) is Ok && is_text(safe_reason, 2048),
        IntentEventV1View::OperationPrepared {
            approval_authority_id,
            expires_at_ms,
            mutation_batch_id,
            ..
        } => is_identity(approval_authority_id) && expires_at_ms != Some(0u64) && is_identity(
            mutation_batch_id,
        ),
        IntentEventV1View::OperationResolved {
            resolution,
            mutation_batch_id,
            result_snapshot_id,
            error_code,
            ..
        } => match resolution {
            IntentOperationResolution::Committed => mutation_batch_id is Some
                && result_snapshot_id is Some && error_code is None,
            IntentOperationResolution::Rejected => result_snapshot_id is None,
            IntentOperationResolution::Cancelled => result_snapshot_id is None,
            _ => error_code is Some,
        },
        IntentEventV1View::ConflictRecorded { conflict, .. } => is_text(conflict.safe_reason, 2048),
        IntentEventV1View::VersionSuperseded { previous, replacement, safe_reason, .. } => {
            &&& 0 < previous.version < replacement.version
            &&& previous.intent_id == replacement.intent_id
            &&& is_text(safe_reason, 2048)
        },
    }
}

/// An event is taken if and only if it is of this schema and holds what it must.
pub proof fn law_events_are_exact(e: IntentEventV1View)
    ensures
        event_verdict(e) is Ok <==> event_schema(e) == 1 && is_event(e),
{
    reveal(event_payload_verdict);
    match e {
        IntentEventV1View::StackCreated { workspace_id, source_session_id, .. } => {
            law_values_are_taken_for_what_they_are("intent workspace id"@, workspace_id, 0);
            law_values_are_taken_for_what_they_are("intent source session id"@, source_session_id, 0);
        },
        IntentEventV1View::PlanAccepted {
            source_turn_id,
            acceptance_authority_id,
            task_plan_binding,
            ..
        } => {
            law_values_are_taken_for_what_they_are(
                "intent acceptance source turn id"@,
                source_turn_id,
                0,
            );
            law_values_are_taken_for_what_they_are(
                "intent acceptance authority id"@,
                acceptance_authority_id,
                0,
            );
            if let Some(b) = task_plan_binding {
                law_values_are_taken_for_what_they_are("intent acceptance task id"@, b.task_id, 0);
            }
        },
        IntentEventV1View::ExecutionBound { binding, .. } => {
            law_origins_of_executions_are_exact(binding.origin, false, binding);
        },
        IntentEventV1View::ChangeSetBound { changeset_ids, .. } => {
            lemma_change_sets(changeset_ids);
        },
        IntentEventV1View::VerificationLinked { evidence, .. } => {
            lemma_evidence(evidence);
        },
        IntentEventV1View::OperationRequested { safe_reason, .. } => {
            law_values_are_taken_for_what_they_are("intent operation reason"@, safe_reason, 2048);
        },
        IntentEventV1View::OperationPrepared { approval_authority_id, mutation_batch_id, .. } => {
            law_values_are_taken_for_what_they_are(
                "intent operation approval authority id"@,
                approval_authority_id,
                0,
            );
            law_values_are_taken_for_what_they_are(
                "intent operation mutation batch id"@,
                mutation_batch_id,
                0,
            );
        },
        IntentEventV1View::ConflictRecorded { conflict, .. } => {
            law_values_are_taken_for_what_they_are(
                "intent conflict reason"@,
                conflict.safe_reason,
                2048,
            );
        },
        IntentEventV1View::VersionSuperseded { safe_reason, .. } => {
            law_values_are_taken_for_what_they_are("intent supersede reason"@, safe_reason, 2048);
        },
        _ => {},
    }
}

/// Every event tells the schema that it carries, and has the name of its kind.
pub proof fn law_events_tell_their_schema_and_kind(e: IntentEventV1View)
    ensures
        e matches IntentEventV1View::StackCreated { schema_version, .. } ==> event_schema(e)
            == schema_version && event_name(e) == "intent_stack_created"@,
        e matches IntentEventV1View::PlanRecorded { schema_version, .. } ==> event_schema(e)
            == schema_version && event_name(e) == "intent_plan_recorded"@,
        e matches IntentEventV1View::PlanAccepted { schema_version, .. } ==> event_schema(e)
            == schema_version && event_name(e) == "intent_plan_accepted"@,
        e matches IntentEventV1View::ExecutionBound { schema_version, .. } ==> event_schema(e)
            == schema_version && event_name(e) == "intent_execution_bound"@,
        e matches IntentEventV1View::ChangeSetBound { schema_version, .. } ==> event_schema(e)
            == schema_version && event_name(e) == "intent_change_set_bound"@,
        e matches IntentEventV1View::LayerManifestRecorded { schema_version, .. } ==> event_schema(e)
            == schema_version && event_name(e) == "intent_layer_manifest_recorded"@,
        e matches IntentEventV1View::ArtifactBindingsRecorded { schema_version, .. } ==> event_schema(e)
            == schema_version && event_name(e) == "intent_artifact_bindings_recorded"@,
        e matches IntentEventV1View::VerificationLinked { schema_version, .. } ==> event_schema(e)
            == schema_version && event_name(e) == "intent_verification_linked"@,
        e matches IntentEventV1View::OperationRequested { schema_version, .. } ==> event_schema(e)
            == schema_version && event_name(e) == "intent_operation_requested"@,
        e matches IntentEventV1View::OperationPrepared { schema_version, .. } ==> event_schema(e)
            == schema_version && event_name(e) == "intent_operation_prepared"@,
        e matches IntentEventV1View::OperationResolved { schema_version, .. } ==> event_schema(e)
            == schema_version && event_name(e) == "intent_operation_resolved"@,
        e matches IntentEventV1View::ConflictRecorded { schema_version, .. } ==> event_schema(e)
            == schema_version && event_name(e) == "intent_conflict_recorded"@,
        e matches IntentEventV1View::VersionSuperseded { schema_version, .. } ==> event_schema(e)
            == schema_version && event_name(e) == "intent_version_superseded"@,
{
}

/// Every domain of digests has its name, and no two domains have the same.
pub proof fn law_digest_domains_are_apart(a: IntentDigestDomain, b: IntentDigestDomain)
    ensures
        domain_name(a) == domain_name(b) ==> a == b,
        domain_name(IntentDigestDomain::Plan) == "sigil.intent.plan.v1"@,
        domain_name(IntentDigestDomain::Proposal) == "sigil.intent.proposal.v1"@,
        domain_name(IntentDigestDomain::LayerCore) == "sigil.intent.layer_core.v1"@,
        domain_name(IntentDigestDomain::LayerManifest) == "sigil.intent.layer_manifest.v1"@,
        domain_name(IntentDigestDomain::ArtifactManifest) == "sigil.intent.artifact_manifest.v1"@,
        domain_name(IntentDigestDomain::OperationPreview) == "sigil.intent.operation_preview.v1"@,
{
    reveal_strlit("sigil.intent.plan.v1");
    reveal_strlit("sigil.intent.proposal.v1");
    reveal_strlit("sigil.intent.layer_core.v1");
    reveal_strlit("sigil.intent.layer_manifest.v1");
    reveal_strlit("sigil.intent.artifact_manifest.v1");
    reveal_strlit("sigil.intent.operation_preview.v1");
    assert(domain_name(IntentDigestDomain::Plan).len() == 20);
    assert(domain_name(IntentDigestDomain::Proposal).len() == 24);
    assert(domain_name(IntentDigestDomain::LayerCore).len() == 26);
    assert(domain_name(IntentDigestDomain::LayerManifest).len() == 30);
    assert(domain_name(IntentDigestDomain::ArtifactManifest).len() == 33);
    assert(domain_name(IntentDigestDomain::OperationPreview).len() == 33);
    assert(domain_name(IntentDigestDomain::ArtifactManifest)[13] != domain_name(
        IntentDigestDomain::OperationPreview,
    )[13]);
}

} // verus!
