//! What is said of the executions of intents: which execution counts, which evidence is current,
//! and what keeps an intent read-only.

use vstd::prelude::*;

use crate::intent::{
    IntentApplicationState, IntentCriterionEvidenceLevel, IntentCriterionEvidenceV1View,
    IntentVersionRefView,
};
use crate::intent_impact::lemma_pushed_members;
use crate::intent_lineage::{
    count_different, criteria_where, current_receipts, executes, is_advice, is_stale_proof,
    is_system_proof, latest_execution, lineage_summary, receipts_where,
    IntentLineageProjectionV1View,
};
use crate::intent_state::{IntentExecutionLineageV1View, IntentLineageReadOnlyReasonV1};
use crate::order::{lemma_insert_ordered, lemma_put_place, text_order};
use crate::search::{any_where, last_where, lemma_last_where};
use crate::text::{ascending_of, is_ascending_of, precedes};

verus! {

// Lists of texts.

proof fn lemma_has_ascending(s: Seq<Seq<char>>) -> (t: Seq<Seq<char>>)
    ensures
        is_ascending_of(t, s),
    decreases s.len(),
{
    if s.len() == 0 {
        assert(s.to_set() =~= Seq::<Seq<char>>::empty().to_set());
        Seq::empty()
    } else {
        let rest = s.drop_last();
        let x = s.last();
        let t = lemma_has_ascending(rest);
        assert forall|y: Seq<char>| #[trigger] s.contains(y) == (rest.contains(y) || y == x) by {
            assert(s =~= rest.push(x));
            lemma_pushed_members(rest, x, y);
        }
        assert forall|y: Seq<char>| #[trigger] t.contains(y) == rest.contains(y) by {
            assert(t.to_set().contains(y) == rest.to_set().contains(y));
        }
        if t.contains(x) {
            assert(t.to_set() =~= s.to_set());
            t
        } else {
            let k = lemma_put_place(t, x, text_order());
            assert forall|j: int| k <= j < t.len() implies precedes(x, #[trigger] t[j]) by {
                assert(text_order()(x, t[j]));
            }
            assert forall|j: int| 0 <= j < t.len() implies #[trigger] t[j] != x by {
                assert(t.contains(t[j]));
            }
            lemma_insert_ordered(t, k, x);
            let u = t.insert(k, x);
            assert forall|y: Seq<char>| #[trigger] u.contains(y) == (t.contains(y) || y == x) by {
                if t.contains(y) {
                    let j = choose|j: int| 0 <= j < t.len() && t[j] == y;
                    if j < k {
                        assert(u[j] == y);
                    } else {
                        assert(u[j + 1] == y);
                    }
                }
                assert(u[k] == x);
                if u.contains(y) {
                    let j = choose|j: int| 0 <= j < u.len() && u[j] == y;
                    if j < k {
                        assert(t[j] == y);
                    } else if j > k {
                        assert(t[j - 1] == y);
                    }
                }
            }
            assert(u.to_set() =~= s.to_set());
            u
        }
    }
}

/// The texts of a list in strictly ascending order are the texts of the list.
pub proof fn lemma_ascending_members(s: Seq<Seq<char>>)
    ensures
        is_ascending_of(ascending_of(s), s),
        forall|x: Seq<char>| #[trigger] ascending_of(s).contains(x) == s.contains(x),
{
    let t = lemma_has_ascending(s);
    assert(is_ascending_of(t, s));
    assert forall|x: Seq<char>| #[trigger] ascending_of(s).contains(x) == s.contains(x) by {
        assert(ascending_of(s).to_set().contains(x) == s.to_set().contains(x));
    }
}

// Evidence.

/// The execution is the last that was bound to an intent.
pub open spec fn is_last_execution(
    p: IntentLineageProjectionV1View,
    intent_ref: IntentVersionRefView,
    k: int,
) -> bool {
    &&& 0 <= k < p.executions.len()
    &&& p.executions[k].binding.intent_ref == intent_ref
    &&& forall|j: int|
        k < j < p.executions.len() ==> (#[trigger] p.executions[j]).binding.intent_ref != intent_ref
}

proof fn lemma_latest_execution(p: IntentLineageProjectionV1View, intent_ref: IntentVersionRefView)
    ensures
        match latest_execution(p, intent_ref) {
            Some(x) => exists|k: int|
                #[trigger] is_last_execution(p, intent_ref, k) && p.executions[k] == x,
            None => forall|k: int|
                0 <= k < p.executions.len() ==> (#[trigger] p.executions[k]).binding.intent_ref
                    != intent_ref,
        },
        forall|j: int, k: int| #[trigger]
            is_last_execution(p, intent_ref, j) && #[trigger] is_last_execution(p, intent_ref, k)
                ==> j == k,
{
    let q = executes(intent_ref);
    lemma_last_where(p.executions, q);
    match last_where(p.executions, q) {
        Some(k) => {
            assert forall|j: int| k < j < p.executions.len() implies (
            #[trigger] p.executions[j]).binding.intent_ref != intent_ref by {
                assert(!q(p.executions[j]));
            }
            assert(is_last_execution(p, intent_ref, k));
        },
        None => {
            assert forall|k: int| 0 <= k < p.executions.len() implies (
            #[trigger] p.executions[k]).binding.intent_ref != intent_ref by {
                assert(!q(p.executions[k]));
            }
        },
    }
}

/// A piece of evidence is of the system on an intent and current: it binds the snapshot that the
/// execution left and that the workspace still has, and the change sets of the execution, all of
/// them and no others.
pub open spec fn is_current_proof(
    p: IntentLineageProjectionV1View,
    x: IntentExecutionLineageV1View,
    intent_ref: IntentVersionRefView,
    e: IntentCriterionEvidenceV1View,
) -> bool {
    &&& e.intent_ref == intent_ref
    &&& e.level == IntentCriterionEvidenceLevel::SystemVerified
    &&& x.parent_snapshot_id == Some(e.parent_snapshot_id)
    &&& p.current_parent_snapshot_id == Some(e.parent_snapshot_id)
    &&& forall|id: Seq<char>| e.changeset_ids.contains(id) <==> x.changeset_ids.contains(id)
}

proof fn lemma_current_proof(
    p: IntentLineageProjectionV1View,
    x: IntentExecutionLineageV1View,
    intent_ref: IntentVersionRefView,
    e: IntentCriterionEvidenceV1View,
)
    ensures
        is_system_proof(p, x, intent_ref)(e) == is_current_proof(p, x, intent_ref, e),
        is_stale_proof(p, x, intent_ref)(e) == (e.intent_ref == intent_ref && e.level
            == IntentCriterionEvidenceLevel::SystemVerified && !is_current_proof(
            p,
            x,
            intent_ref,
            e,
        )),
{
    let a = e.changeset_ids;
    let b = x.changeset_ids;
    assert(crate::search::same_items(a, b) == (forall|id: Seq<char>|
        a.contains(id) <==> b.contains(id))) by {
        if crate::search::same_items(a, b) {
            assert forall|id: Seq<char>| a.contains(id) <==> b.contains(id) by {
                if a.contains(id) {
                    let i = choose|i: int| 0 <= i < a.len() && a[i] == id;
                    assert(b.contains(a[i]));
                }
                if b.contains(id) {
                    let i = choose|i: int| 0 <= i < b.len() && b[i] == id;
                    assert(a.contains(b[i]));
                }
            }
        }
        if forall|id: Seq<char>| a.contains(id) <==> b.contains(id) {
            assert forall|i: int| 0 <= i < a.len() implies b.contains(#[trigger] a[i]) by {
                assert(a.contains(a[i]));
            }
            assert forall|i: int| 0 <= i < b.len() implies a.contains(#[trigger] b[i]) by {
                assert(b.contains(b[i]));
            }
        }
    }
}

proof fn lemma_receipts_where(
    evidence: Seq<IntentCriterionEvidenceV1View>,
    f: spec_fn(IntentCriterionEvidenceV1View) -> bool,
    id: Seq<char>,
)
    ensures
        receipts_where(evidence, f).contains(id) == (exists|k: int|
            0 <= k < evidence.len() && f(#[trigger] evidence[k]) && evidence[k].receipt_id == id),
    decreases evidence.len(),
{
    if evidence.len() > 0 {
        let rest = evidence.drop_last();
        lemma_receipts_where(rest, f, id);
        lemma_pushed_members(receipts_where(rest, f), evidence.last().receipt_id, id);
        assert forall|k: int| 0 <= k < rest.len() implies rest[k] == #[trigger] evidence[k] by {}
        assert(evidence[evidence.len() - 1] == evidence.last());
        if exists|k: int| 0 <= k < rest.len() && f(#[trigger] rest[k]) && rest[k].receipt_id == id {
            let k = choose|k: int|
                0 <= k < rest.len() && f(#[trigger] rest[k]) && rest[k].receipt_id == id;
            assert(f(evidence[k]));
        }
    }
}

proof fn lemma_criteria_where(
    evidence: Seq<IntentCriterionEvidenceV1View>,
    f: spec_fn(IntentCriterionEvidenceV1View) -> bool,
    id: Seq<char>,
)
    ensures
        criteria_where(evidence, f).contains(id) == (exists|k: int|
            0 <= k < evidence.len() && f(#[trigger] evidence[k]) && evidence[k].criterion_id == id),
    decreases evidence.len(),
{
    if evidence.len() > 0 {
        let rest = evidence.drop_last();
        lemma_criteria_where(rest, f, id);
        lemma_pushed_members(criteria_where(rest, f), evidence.last().criterion_id, id);
        assert forall|k: int| 0 <= k < rest.len() implies rest[k] == #[trigger] evidence[k] by {}
        assert(evidence[evidence.len() - 1] == evidence.last());
        if exists|k: int| 0 <= k < rest.len() && f(#[trigger] rest[k]) && rest[k].criterion_id == id {
            let k = choose|k: int|
                0 <= k < rest.len() && f(#[trigger] rest[k]) && rest[k].criterion_id == id;
            assert(f(evidence[k]));
        }
    }
}

proof fn lemma_count_different<A>(s: Seq<A>)
    ensures
        s.to_set().finite(),
        count_different(s) == s.to_set().len(),
    decreases s.len(),
{
    if s.len() > 0 {
        let rest = s.drop_last();
        lemma_count_different(rest);
        assert forall|y: A| s.contains(y) == (rest.contains(y) || y == s.last()) by {
            assert(s =~= rest.push(s.last()));
            lemma_pushed_members(rest, s.last(), y);
        }
        assert(s.to_set() =~= rest.to_set().insert(s.last()));
    } else {
        assert(s.to_set() =~= Set::empty());
    }
}

/// The receipts that count for an intent are those of the current evidence of the system on it, by
/// its last execution: neither advice nor what is out of date, nor evidence on another intent.
pub proof fn law_current_receipts_are_exact(
    p: IntentLineageProjectionV1View,
    intent_ref: IntentVersionRefView,
    receipt: Seq<char>,
)
    ensures
        current_receipts(p, intent_ref).contains(receipt) <==> exists|k: int, j: int|
            #[trigger] is_last_execution(p, intent_ref, k) && 0 <= j < p.evidence.len()
                && is_current_proof(p, p.executions[k], intent_ref, #[trigger] p.evidence[j])
                && p.evidence[j].receipt_id == receipt,
{
    lemma_latest_execution(p, intent_ref);
    if let Some(x) = latest_execution(p, intent_ref) {
        let f = is_system_proof(p, x, intent_ref);
        lemma_receipts_where(p.evidence, f, receipt);
        assert forall|j: int| 0 <= j < p.evidence.len() implies f(#[trigger] p.evidence[j])
            == is_current_proof(p, x, intent_ref, p.evidence[j]) by {
            lemma_current_proof(p, x, intent_ref, p.evidence[j]);
        }
        let k = choose|k: int|
            #[trigger] is_last_execution(p, intent_ref, k) && p.executions[k] == x;
        if current_receipts(p, intent_ref).contains(receipt) {
            let j = choose|j: int|
                0 <= j < p.evidence.len() && f(#[trigger] p.evidence[j]) && p.evidence[j].receipt_id
                    == receipt;
            assert(is_current_proof(p, p.executions[k], intent_ref, p.evidence[j]));
        }
    }
}

/// How many things there are of a sort, as far as the number has room.
pub open spec fn counts<A>(n: u32, things: Set<A>) -> bool {
    things.finite() && n == (if things.len() <= u32::MAX {
        things.len() as int
    } else {
        u32::MAX as int
    })
}

/// An intent without an execution is not applied, and nothing is said of evidence on it.
pub proof fn law_intents_without_execution_are_unapplied(
    p: IntentLineageProjectionV1View,
    intent_ref: IntentVersionRefView,
)
    requires
        forall|k: int|
            0 <= k < p.executions.len() ==> (#[trigger] p.executions[k]).binding.intent_ref
                != intent_ref,
    ensures
        ({
            let s = lineage_summary(p, intent_ref);
            &&& s.application_state == Some(IntentApplicationState::Unapplied)
            &&& s.advisory_criterion_count == 0
            &&& s.system_verified_criterion_count == 0
            &&& s.read_only_reason is None
        }),
{
    lemma_latest_execution(p, intent_ref);
}

/// What is said of an intent with an execution is said of the last. It is read-only exactly if that
/// execution has no change sets, did not reach the parent workspace or is read-only itself, or if
/// evidence of the system on the intent is out of date, which is then the reason; else it is to be
/// reviewed. The criteria that are counted are those with advice, and those with current evidence
/// of the system.
pub proof fn law_lineage_summaries_are_exact(
    p: IntentLineageProjectionV1View,
    intent_ref: IntentVersionRefView,
    k: int,
)
    requires
        is_last_execution(p, intent_ref, k),
    ensures
        ({
            let s = lineage_summary(p, intent_ref);
            let x = p.executions[k];
            let stale = exists|j: int|
                0 <= j < p.evidence.len() && (#[trigger] p.evidence[j]).intent_ref == intent_ref
                    && p.evidence[j].level == IntentCriterionEvidenceLevel::SystemVerified
                    && !is_current_proof(p, x, intent_ref, p.evidence[j]);
            &&& s.application_state == Some(IntentApplicationState::ReadOnly) <==> stale
                || x.changeset_ids.len() == 0 || x.parent_mutation_event_id is None
                || x.read_only_reason is Some
            &&& s.application_state == Some(IntentApplicationState::ReadOnly) || s.application_state
                == Some(IntentApplicationState::NeedsReview)
            &&& s.read_only_reason == (if stale {
                Some(IntentLineageReadOnlyReasonV1::StaleParentSnapshot)
            } else {
                x.read_only_reason
            })
            &&& counts(
                s.advisory_criterion_count,
                Set::<Seq<char>>::new(
                    |c: Seq<char>|
                        exists|j: int|
                            0 <= j < p.evidence.len() && (#[trigger] p.evidence[j]).intent_ref
                                == intent_ref && p.evidence[j].level
                                == IntentCriterionEvidenceLevel::Advisory
                                && p.evidence[j].criterion_id == c,
                ),
            )
            &&& counts(
                s.system_verified_criterion_count,
                Set::<Seq<char>>::new(
                    |c: Seq<char>|
                        exists|j: int|
                            0 <= j < p.evidence.len() && is_current_proof(
                                p,
                                x,
                                intent_ref,
                                #[trigger] p.evidence[j],
                            ) && p.evidence[j].criterion_id == c,
                ),
            )
        }),
{
    lemma_latest_execution(p, intent_ref);
    let x = p.executions[k];
    assert(latest_execution(p, intent_ref) == Some(x));
    let advice = is_advice(intent_ref);
    let proof_of = is_system_proof(p, x, intent_ref);
    let stale_of = is_stale_proof(p, x, intent_ref);
    assert forall|j: int| 0 <= j < p.evidence.len() implies proof_of(#[trigger] p.evidence[j])
        == is_current_proof(p, x, intent_ref, p.evidence[j]) && stale_of(p.evidence[j]) == (
    p.evidence[j].intent_ref == intent_ref && p.evidence[j].level
        == IntentCriterionEvidenceLevel::SystemVerified && !is_current_proof(
        p,
        x,
        intent_ref,
        p.evidence[j],
    )) by {
        lemma_current_proof(p, x, intent_ref, p.evidence[j]);
    }
    let advised = Set::<Seq<char>>::new(
        |c: Seq<char>|
            exists|j: int|
                0 <= j < p.evidence.len() && (#[trigger] p.evidence[j]).intent_ref == intent_ref
                    && p.evidence[j].level == IntentCriterionEvidenceLevel::Advisory
                    && p.evidence[j].criterion_id == c,
    );
    let proved = Set::<Seq<char>>::new(
        |c: Seq<char>|
            exists|j: int|
                0 <= j < p.evidence.len() && is_current_proof(
                    p,
                    x,
                    intent_ref,
                    #[trigger] p.evidence[j],
                ) && p.evidence[j].criterion_id == c,
    );
    let a = criteria_where(p.evidence, advice);
    let b = criteria_where(p.evidence, proof_of);
    assert forall|c: Seq<char>| advised.contains(c) == a.to_set().contains(c) by {
        lemma_criteria_where(p.evidence, advice, c);
        if a.contains(c) {
            let j = choose|j: int|
                0 <= j < p.evidence.len() && advice(#[trigger] p.evidence[j])
                    && p.evidence[j].criterion_id == c;
            assert(p.evidence[j].intent_ref == intent_ref);
        }
        if advised.contains(c) {
            let j = choose|j: int|
                0 <= j < p.evidence.len() && (#[trigger] p.evidence[j]).intent_ref == intent_ref
                    && p.evidence[j].level == IntentCriterionEvidenceLevel::Advisory
                    && p.evidence[j].criterion_id == c;
            assert(advice(p.evidence[j]));
        }
    }
    assert forall|c: Seq<char>| proved.contains(c) == b.to_set().contains(c) by {
        lemma_criteria_where(p.evidence, proof_of, c);
        if b.contains(c) {
            let j = choose|j: int|
                0 <= j < p.evidence.len() && proof_of(#[trigger] p.evidence[j])
                    && p.evidence[j].criterion_id == c;
            assert(is_current_proof(p, x, intent_ref, p.evidence[j]));
        }
        if proved.contains(c) {
            let j = choose|j: int|
                0 <= j < p.evidence.len() && is_current_proof(
                    p,
                    x,
                    intent_ref,
                    #[trigger] p.evidence[j],
                ) && p.evidence[j].criterion_id == c;
            assert(proof_of(p.evidence[j]));
        }
    }
    assert(advised =~= a.to_set());
    assert(proved =~= b.to_set());
    lemma_count_different(a);
    lemma_count_different(b);
    if any_where(p.evidence, stale_of) {
        let j = choose|j: int| 0 <= j < p.evidence.len() && stale_of(#[trigger] p.evidence[j]);
        assert(p.evidence[j].intent_ref == intent_ref);
    }
    if exists|j: int|
        0 <= j < p.evidence.len() && (#[trigger] p.evidence[j]).intent_ref == intent_ref
            && p.evidence[j].level == IntentCriterionEvidenceLevel::SystemVerified
            && !is_current_proof(p, x, intent_ref, p.evidence[j]) {
        let j = choose|j: int|
            0 <= j < p.evidence.len() && (#[trigger] p.evidence[j]).intent_ref == intent_ref
                && p.evidence[j].level == IntentCriterionEvidenceLevel::SystemVerified
                && !is_current_proof(p, x, intent_ref, p.evidence[j]);
        assert(stale_of(p.evidence[j]));
    }
}

} // verus!
