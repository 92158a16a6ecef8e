//! What holds of all plans: they do not depend on the order of the proposals, and every proposal is in
//! one place of one lane.

use vstd::prelude::*;

use crate::integration::{
    IntegrationConflictEdgeView, IntegrationConflictReason, IntegrationEffect,
    IntegrationLaneSpecView, IntegrationPlanView, IntegrationProposalSpecView,
};
use crate::integration_plan::{
    are_lanes, change_set_ids, component, connected, edges, edges_of, first_open, heads, ids_at,
    is_head, is_lane, is_plan_of, is_ready, lane_order, law_conflicting_proposals_share_a_lane,
    law_every_proposal_has_one_lane, lemma_reach_symmetric, linked, next_place, overlap, reach,
    reasons,
};
use crate::text::{
    ascending, lemma_ascending_unique, lemma_precedes_irreflexive, lemma_precedes_transitive,
    precedes,
};
use crate::value::distinct;

verus! {

// The order of the proposals.

proof fn lemma_drop_from_multiset<A>(s: Seq<A>)
    requires
        s.len() > 0,
    ensures
        s.drop_last().to_multiset() == s.to_multiset().remove(s.last()),
{
    broadcast use vstd::seq_lib::group_to_multiset_ensures;

    assert(s =~= s.drop_last().push(s.last()));
    assert(s.to_multiset() =~= s.drop_last().to_multiset().insert(s.last()));
    assert(s.drop_last().to_multiset() =~= s.to_multiset().remove(s.last()));
}

/// Proposals have one order by their identities.
proof fn lemma_one_order(
    a: Seq<IntegrationProposalSpecView>,
    b: Seq<IntegrationProposalSpecView>,
)
    requires
        ascending(change_set_ids(a)),
        ascending(change_set_ids(b)),
        a.to_multiset() == b.to_multiset(),
        a.len() == b.len(),
    ensures
        a == b,
    decreases a.len(),
{
    if a.len() == 0 {
        assert(a =~= b);
    } else {
        let x = a.last();
        let y = b.last();
        let n = a.len() - 1;
        let ids = change_set_ids(a);
        let others = change_set_ids(b);
        assert(a.contains(a[n]) && b.contains(b[n]));
        vstd::seq_lib::to_multiset_contains(a, x);
        vstd::seq_lib::to_multiset_contains(b, x);
        vstd::seq_lib::to_multiset_contains(a, y);
        vstd::seq_lib::to_multiset_contains(b, y);
        let i = choose|i: int| 0 <= i < b.len() && b[i] == x;
        let j = choose|j: int| 0 <= j < a.len() && a[j] == y;
        assert(others[i] == x.change_set_id && others[n] == y.change_set_id);
        assert(ids[j] == y.change_set_id && ids[n] == x.change_set_id);
        if i < n && j < n {
            assert(precedes(others[i], others[n]));
            assert(precedes(ids[j], ids[n]));
            lemma_precedes_transitive(x.change_set_id, y.change_set_id, x.change_set_id);
            lemma_precedes_irreflexive(x.change_set_id);
        }
        assert(x == y);
        let c = a.drop_last();
        let d = b.drop_last();
        lemma_drop_from_multiset(a);
        lemma_drop_from_multiset(b);
        assert forall|k: int, m: int| 0 <= k < m < c.len() implies precedes(
            #[trigger] change_set_ids(c)[k],
            #[trigger] change_set_ids(c)[m],
        ) by {
            assert(change_set_ids(c)[k] == ids[k] && change_set_ids(c)[m] == ids[m]);
        }
        assert forall|k: int, m: int| 0 <= k < m < d.len() implies precedes(
            #[trigger] change_set_ids(d)[k],
            #[trigger] change_set_ids(d)[m],
        ) by {
            assert(change_set_ids(d)[k] == others[k] && change_set_ids(d)[m] == others[m]);
        }
        lemma_one_order(c, d);
        assert(a =~= c.push(x));
        assert(b =~= d.push(y));
    }
}

proof fn lemma_distinct_in_any_order(
    s: Seq<IntegrationProposalSpecView>,
    t: Seq<IntegrationProposalSpecView>,
)
    requires
        s.to_multiset() == t.to_multiset(),
        distinct(change_set_ids(s)),
    ensures
        distinct(change_set_ids(t)),
{
    let ids = change_set_ids(s);
    let others = change_set_ids(t);
    assert(s.no_duplicates()) by {
        assert forall|i: int, j: int| 0 <= i < s.len() && 0 <= j < s.len() && i != j implies s[i]
            != s[j] by {
            assert(ids[i] == s[i].change_set_id && ids[j] == s[j].change_set_id);
        }
    }
    s.lemma_multiset_has_no_duplicates();
    t.lemma_multiset_has_no_duplicates_conv();
    assert forall|i: int, j: int| 0 <= i < j < others.len() implies #[trigger] others[i]
        != #[trigger] others[j] by {
        assert(t.contains(t[i]) && t.contains(t[j]));
        vstd::seq_lib::to_multiset_contains(t, t[i]);
        vstd::seq_lib::to_multiset_contains(t, t[j]);
        vstd::seq_lib::to_multiset_contains(s, t[i]);
        vstd::seq_lib::to_multiset_contains(s, t[j]);
        let k = choose|k: int| 0 <= k < s.len() && s[k] == t[i];
        let m = choose|m: int| 0 <= m < s.len() && s[m] == t[j];
        assert(ids[k] == others[i] && ids[m] == others[j]);
        assert(t[i] != t[j]);
        assert(k != m);
    }
}

proof fn lemma_lanes_are_determined(
    o: Seq<IntegrationProposalSpecView>,
    a: Seq<IntegrationLaneSpecView>,
    b: Seq<IntegrationLaneSpecView>,
)
    requires
        are_lanes(o, o.len() as int, a),
        are_lanes(o, o.len() as int, b),
    ensures
        a == b,
{
    assert forall|k: int| 0 <= k < a.len() implies a[k] == b[k] by {
        let h = heads(o, o.len() as int)[k];
        assert(is_lane(o, h, k, a[k]));
        assert(is_lane(o, h, k, b[k]));
        lemma_ascending_unique(a[k].verification_scope_hashes, b[k].verification_scope_hashes);
    }
    assert(a =~= b);
}

/// The order in which proposals come does not matter: in any order they can be planned or cannot, and
/// there is one plan of them.
pub proof fn law_plans_ignore_the_order_of_proposals(
    plan_id: Seq<char>,
    task_id: Seq<char>,
    plan_version: u32,
    s: Seq<IntegrationProposalSpecView>,
    t: Seq<IntegrationProposalSpecView>,
)
    requires
        s.to_multiset() == t.to_multiset(),
    ensures
        s.len() == t.len(),
        distinct(change_set_ids(s)) == distinct(change_set_ids(t)),
        forall|a: IntegrationPlanView, b: IntegrationPlanView|
            #![trigger is_plan_of(a, plan_id, task_id, plan_version, s), is_plan_of(b, plan_id, task_id, plan_version, t)]
            is_plan_of(a, plan_id, task_id, plan_version, s) && is_plan_of(
                b,
                plan_id,
                task_id,
                plan_version,
                t,
            ) ==> a == b,
{
    broadcast use vstd::seq_lib::group_to_multiset_ensures;

    assert(s.to_multiset().len() == s.len());
    assert(t.to_multiset().len() == t.len());
    if distinct(change_set_ids(s)) {
        lemma_distinct_in_any_order(s, t);
    }
    if distinct(change_set_ids(t)) {
        lemma_distinct_in_any_order(t, s);
    }
    assert forall|a: IntegrationPlanView, b: IntegrationPlanView|
        #![trigger is_plan_of(a, plan_id, task_id, plan_version, s), is_plan_of(b, plan_id, task_id, plan_version, t)]
        is_plan_of(a, plan_id, task_id, plan_version, s) && is_plan_of(
            b,
            plan_id,
            task_id,
            plan_version,
            t,
        ) implies a == b by {
        lemma_one_order(a.proposals, b.proposals);
        lemma_lanes_are_determined(a.proposals, a.lanes, b.lanes);
    }
}

// The places of the proposals.

proof fn lemma_component(o: Seq<IntegrationProposalSpecView>, h: int, n: int)
    requires
        0 <= n,
    ensures
        component(o, h, n).no_duplicates(),
        forall|i: int| #[trigger]
            component(o, h, n).contains(i) == (0 <= i < n && connected(o, h, i)),
    decreases n,
{
    if n > 0 {
        lemma_component(o, h, n - 1);
        let a = component(o, h, n - 1);
        let b = component(o, h, n);
        assert forall|i: int| #[trigger] b.contains(i) == (0 <= i < n && connected(o, h, i)) by {
            assert(a.contains(i) == (0 <= i < n - 1 && connected(o, h, i)));
            if a.contains(i) {
                let k = choose|k: int| 0 <= k < a.len() && a[k] == i;
                assert(b[k] == i);
            }
            if connected(o, h, n - 1) {
                assert(b[a.len() as int] == n - 1);
                if b.contains(i) {
                    let k = choose|k: int| 0 <= k < b.len() && b[k] == i;
                    if k < a.len() {
                        assert(a[k] == i);
                    }
                }
            }
        }
        assert forall|i: int, j: int| 0 <= i < b.len() && 0 <= j < b.len() && i != j implies b[i]
            != b[j] by {
            if i < a.len() {
                assert(a[i] == b[i] && a.contains(a[i]));
            }
            if j < a.len() {
                assert(a[j] == b[j] && a.contains(a[j]));
            }
        }
    } else {
        assert forall|i: int| #[trigger] component(o, h, n).contains(i) == (0 <= i < n && connected(
            o,
            h,
            i,
        )) by {}
    }
}

proof fn lemma_first_open(
    o: Seq<IntegrationProposalSpecView>,
    lane: Seq<int>,
    done: Seq<int>,
    wait: bool,
    p: int,
)
    requires
        0 <= p,
    ensures
        first_open(o, lane, done, wait, p) matches Some(c) ==> lane.contains(c) && !done.contains(c),
        !wait && first_open(o, lane, done, wait, p) is None ==> forall|i: int|
            p <= i < lane.len() ==> done.contains(#[trigger] lane[i]),
    decreases lane.len() - p,
{
    if p < lane.len() {
        lemma_first_open(o, lane, done, wait, p + 1);
    }
}

/// A lane is put in order without losing or doubling a place.
proof fn lemma_lane_order(
    o: Seq<IntegrationProposalSpecView>,
    lane: Seq<int>,
    done: Seq<int>,
    steps: nat,
)
    requires
        lane.no_duplicates(),
        done.no_duplicates(),
        forall|i: int| 0 <= i < done.len() ==> lane.contains(#[trigger] done[i]),
        steps + done.len() == lane.len(),
    ensures
        lane_order(o, lane, done, steps).no_duplicates(),
        forall|c: int| #[trigger] lane_order(o, lane, done, steps).contains(c) == lane.contains(c),
    decreases steps,
{
    lemma_first_open(o, lane, done, true, 0);
    lemma_first_open(o, lane, done, false, 0);
    lane.unique_seq_to_set();
    done.unique_seq_to_set();
    assert forall|c: int| #[trigger] done.to_set().contains(c) implies lane.to_set().contains(c) by {
        let i = choose|i: int| 0 <= i < done.len() && done[i] == c;
        assert(lane.contains(done[i]));
    }
    assert(done.to_set().subset_of(lane.to_set()));
    if steps == 0 {
        vstd::set_lib::lemma_subset_equality(done.to_set(), lane.to_set());
        assert forall|c: int| #[trigger] done.contains(c) == lane.contains(c) by {
            assert(done.to_set().contains(c) == lane.to_set().contains(c));
        }
    } else {
        match next_place(o, lane, done) {
            Some(c) => {
                let next = done.push(c);
                assert forall|i: int| 0 <= i < next.len() implies lane.contains(
                    #[trigger] next[i],
                ) by {
                    if i < done.len() {
                        assert(next[i] == done[i]);
                    }
                }
                assert(next.no_duplicates()) by {
                    assert forall|i: int, j: int|
                        0 <= i < next.len() && 0 <= j < next.len() && i != j implies next[i]
                        != next[j] by {
                        if i < done.len() {
                            assert(done.contains(done[i]));
                        }
                        if j < done.len() {
                            assert(done.contains(done[j]));
                        }
                    }
                }
                lemma_lane_order(o, lane, next, (steps - 1) as nat);
            },
            None => {
                assert forall|c: int| #[trigger] lane.to_set().contains(c) implies done.to_set().contains(
                    c,
                ) by {
                    let i = choose|i: int| 0 <= i < lane.len() && lane[i] == c;
                    assert(done.contains(lane[i]));
                }
                assert(done.to_set() =~= lane.to_set());
            },
        }
    }
}

proof fn lemma_heads(o: Seq<IntegrationProposalSpecView>, n: int)
    requires
        0 <= n,
    ensures
        heads(o, n).no_duplicates(),
        forall|h: int| #[trigger] heads(o, n).contains(h) == (0 <= h < n && is_head(o, h)),
    decreases n,
{
    let b = heads(o, n);
    if n > 0 {
        lemma_heads(o, n - 1);
        let a = heads(o, n - 1);
        assert forall|h: int| #[trigger] b.contains(h) == (0 <= h < n && is_head(o, h)) by {
            assert(a.contains(h) == (0 <= h < n - 1 && is_head(o, h)));
            if a.contains(h) {
                let k = choose|k: int| 0 <= k < a.len() && a[k] == h;
                assert(b[k] == h);
            }
            if is_head(o, n - 1) {
                assert(b[a.len() as int] == n - 1);
                if b.contains(h) {
                    let k = choose|k: int| 0 <= k < b.len() && b[k] == h;
                    if k < a.len() {
                        assert(a[k] == h);
                    }
                }
            }
        }
        assert forall|i: int, j: int| 0 <= i < b.len() && 0 <= j < b.len() && i != j implies b[i]
            != b[j] by {
            if i < a.len() {
                assert(a[i] == b[i] && a.contains(a[i]));
            }
            if j < a.len() {
                assert(a[j] == b[j] && a.contains(a[j]));
            }
        }
    } else {
        assert forall|h: int| #[trigger] b.contains(h) == (0 <= h < n && is_head(o, h)) by {}
    }
}

/// The places that a lane of a plan holds, in its order.
pub open spec fn places_of_lane(o: Seq<IntegrationProposalSpecView>, k: int) -> Seq<int> {
    let members = component(o, heads(o, o.len() as int)[k], o.len() as int);
    lane_order(o, members, Seq::empty(), members.len())
}

proof fn lemma_places_of_lane(o: Seq<IntegrationProposalSpecView>, k: int)
    requires
        0 <= k < heads(o, o.len() as int).len(),
    ensures
        places_of_lane(o, k).no_duplicates(),
        forall|i: int| #[trigger]
            places_of_lane(o, k).contains(i) == (0 <= i < o.len() && connected(
                o,
                heads(o, o.len() as int)[k],
                i,
            )),
{
    let h = heads(o, o.len() as int)[k];
    let members = component(o, h, o.len() as int);
    lemma_component(o, h, o.len() as int);
    lemma_lane_order(o, members, Seq::empty(), members.len());
    assert forall|i: int| #[trigger] places_of_lane(o, k).contains(i) == (0 <= i < o.len() && connected(
        o,
        h,
        i,
    )) by {
        assert(lane_order(o, members, Seq::empty(), members.len()).contains(i) == members.contains(
            i,
        ));
        assert(members.contains(i) == (0 <= i < o.len() && connected(o, h, i)));
    }
}

/// The proposal with an identity stands at a place of a lane.
pub open spec fn stands_at(lanes: Seq<IntegrationLaneSpecView>, id: Seq<char>, k: int, p: int) -> bool {
    0 <= k < lanes.len() && 0 <= p < lanes[k].proposals.len() && lanes[k].proposals[p] == id
}

/// Every proposal of a plan stands in the lanes of the plan, at one place of one lane, and nothing else
/// stands there.
pub proof fn law_every_proposal_stands_once(
    plan: IntegrationPlanView,
    plan_id: Seq<char>,
    task_id: Seq<char>,
    plan_version: u32,
    proposals: Seq<IntegrationProposalSpecView>,
)
    requires
        is_plan_of(plan, plan_id, task_id, plan_version, proposals),
    ensures
        forall|i: int|
            0 <= i < plan.proposals.len() ==> exists|k: int, p: int|
                stands_at(plan.lanes, (#[trigger] plan.proposals[i]).change_set_id, k, p),
        forall|id: Seq<char>, k: int, p: int, m: int, q: int| #[trigger]
            stands_at(plan.lanes, id, k, p) && #[trigger] stands_at(plan.lanes, id, m, q) ==> k == m
                && p == q,
        forall|id: Seq<char>, k: int, p: int| #[trigger]
            stands_at(plan.lanes, id, k, p) ==> change_set_ids(plan.proposals).contains(id),
{
    let o = plan.proposals;
    let n = o.len() as int;
    let all = heads(o, n);
    let ids = change_set_ids(o);
    lemma_heads(o, n);
    assert forall|i: int| 0 <= i < o.len() implies exists|k: int, p: int|
        stands_at(plan.lanes, (#[trigger] o[i]).change_set_id, k, p) by {
        law_every_proposal_has_one_lane(o, i);
        let h = choose|h: int| 0 <= h <= i && is_head(o, h) && #[trigger] connected(o, h, i);
        assert(all.contains(h));
        let k = choose|k: int| 0 <= k < all.len() && all[k] == h;
        lemma_places_of_lane(o, k);
        assert(places_of_lane(o, k).contains(i));
        let p = choose|p: int| 0 <= p < places_of_lane(o, k).len() && places_of_lane(o, k)[p] == i;
        assert(is_lane(o, all[k], k, plan.lanes[k]));
        assert(plan.lanes[k].proposals == ids_at(o, places_of_lane(o, k)));
        assert(stands_at(plan.lanes, o[i].change_set_id, k, p));
    }
    assert forall|id: Seq<char>, k: int, p: int| #[trigger] stands_at(
        plan.lanes,
        id,
        k,
        p,
    ) implies ids.contains(id) by {
        lemma_stands(plan, id, k, p);
        assert(ids[places_of_lane(o, k)[p]] == id);
    }
    assert forall|id: Seq<char>, k: int, p: int, m: int, q: int| #[trigger] stands_at(
        plan.lanes,
        id,
        k,
        p,
    ) && #[trigger] stands_at(plan.lanes, id, m, q) implies k == m && p == q by {
        lemma_stands(plan, id, k, p);
        lemma_stands(plan, id, m, q);
        let i = places_of_lane(o, k)[p];
        let j = places_of_lane(o, m)[q];
        assert(ids[i] == id && ids[j] == id);
        if i < j {
            assert(precedes(ids[i], ids[j]));
            lemma_precedes_irreflexive(id);
        }
        if j < i {
            assert(precedes(ids[j], ids[i]));
            lemma_precedes_irreflexive(id);
        }
        law_every_proposal_has_one_lane(o, i);
        assert(all.contains(all[k]) && all.contains(all[m]));
        assert(all[k] == all[m]);
        assert(k == m);
        lemma_places_of_lane(o, k);
    }
}

proof fn lemma_stands(plan: IntegrationPlanView, id: Seq<char>, k: int, p: int)
    requires
        are_lanes(plan.proposals, plan.proposals.len() as int, plan.lanes),
        stands_at(plan.lanes, id, k, p),
    ensures
        ({
            let o = plan.proposals;
            let places = places_of_lane(o, k);
            &&& 0 <= p < places.len()
            &&& 0 <= places[p] < o.len()
            &&& o[places[p]].change_set_id == id
            &&& connected(o, heads(o, o.len() as int)[k], places[p])
        }),
{
    let o = plan.proposals;
    let places = places_of_lane(o, k);
    assert(is_lane(o, heads(o, o.len() as int)[k], k, plan.lanes[k]));
    assert(plan.lanes[k].proposals == ids_at(o, places));
    lemma_places_of_lane(o, k);
    assert(places.contains(places[p]));
}

// Conflicts.

/// The place of a reason among all reasons.
pub open spec fn reason_rank(x: IntegrationConflictReason) -> int {
    match x {
        IntegrationConflictReason::BaseSnapshotMismatch => 0,
        IntegrationConflictReason::ChangedPathOverlap => 1,
        IntegrationConflictReason::TaskDependency => 2,
        IntegrationConflictReason::GeneratedArtifactOverlap => 3,
        IntegrationConflictReason::GlobalEffect => 4,
    }
}

proof fn lemma_push_reason(
    s: Seq<IntegrationConflictReason>,
    x: IntegrationConflictReason,
    y: IntegrationConflictReason,
)
    ensures
        s.push(x).contains(y) == (s.contains(y) || x == y),
{
    let t = s.push(x);
    assert(t[s.len() as int] == x);
    if s.contains(y) {
        let i = choose|i: int| 0 <= i < s.len() && s[i] == y;
        assert(t[i] == y);
    }
    if t.contains(y) {
        let i = choose|i: int| 0 <= i < t.len() && t[i] == y;
        if i < s.len() {
            assert(s[i] == y);
        }
    }
}

proof fn lemma_overlap(a: Seq<Seq<char>>, b: Seq<Seq<char>>)
    ensures
        overlap(a, b) == (exists|x: Seq<char>| #[trigger] a.contains(x) && b.contains(x)),
{
    if overlap(a, b) {
        let i = choose|i: int| 0 <= i < b.len() && a.contains(#[trigger] b[i]);
        assert(a.contains(b[i]) && b.contains(b[i]));
    }
    if exists|x: Seq<char>| #[trigger] a.contains(x) && b.contains(x) {
        let x = choose|x: Seq<char>| #[trigger] a.contains(x) && b.contains(x);
        let i = choose|i: int| 0 <= i < b.len() && b[i] == x;
        assert(a.contains(b[i]));
    }
}

/// Two proposals have a changed path in common.
pub open spec fn share_a_path(
    p: IntegrationProposalSpecView,
    q: IntegrationProposalSpecView,
) -> bool {
    exists|path: Seq<char>| #[trigger]
        p.changed_paths.contains(path) && q.changed_paths.contains(path)
}

/// Two proposals have a generated artifact in common.
pub open spec fn share_an_artifact(
    p: IntegrationProposalSpecView,
    q: IntegrationProposalSpecView,
) -> bool {
    exists|path: Seq<char>| #[trigger]
        p.generated_artifacts.contains(path) && q.generated_artifacts.contains(path)
}

proof fn lemma_reasons(p: IntegrationProposalSpecView, q: IntegrationProposalSpecView)
    ensures
        ({
            let found = reasons(p, q);
            &&& found.contains(IntegrationConflictReason::BaseSnapshotMismatch) == (
            p.base_snapshot_id != q.base_snapshot_id)
            &&& found.contains(IntegrationConflictReason::ChangedPathOverlap) == share_a_path(p, q)
            &&& found.contains(IntegrationConflictReason::TaskDependency) == (
            p.depends_on.contains(q.change_set_id) || q.depends_on.contains(p.change_set_id))
            &&& found.contains(IntegrationConflictReason::GeneratedArtifactOverlap)
                == share_an_artifact(p, q)
            &&& found.contains(IntegrationConflictReason::GlobalEffect) == (p.effect
                == IntegrationEffect::Global || q.effect == IntegrationEffect::Global)
            &&& forall|a: int, b: int|
                0 <= a < b < found.len() ==> reason_rank(#[trigger] found[a]) < reason_rank(
                    #[trigger] found[b],
                )
        }),
{
    lemma_overlap(p.changed_paths, q.changed_paths);
    lemma_overlap(p.generated_artifacts, q.generated_artifacts);
    assert forall|s: Seq<IntegrationConflictReason>,
        x: IntegrationConflictReason,
        y: IntegrationConflictReason| #[trigger] s.push(x).contains(y) == (s.contains(y) || x
        == y) by {
        lemma_push_reason(s, x, y);
    }
    let e = Seq::<IntegrationConflictReason>::empty();
    assert forall|y: IntegrationConflictReason| !#[trigger] e.contains(y) by {}
}

proof fn lemma_edges_of(o: Seq<IntegrationProposalSpecView>, i: int, end: int)
    requires
        0 <= i < end <= o.len(),
    ensures
        forall|x: IntegrationConflictEdgeView| #[trigger]
            edges_of(o, i, end).contains(x) == (exists|j: int|
                i < j < end && is_edge_of(o, i, j, x)),
    decreases end - i,
{
    if end > i + 1 {
        lemma_edges_of(o, i, end - 1);
        let a = edges_of(o, i, end - 1);
        let b = edges_of(o, i, end);
        assert forall|x: IntegrationConflictEdgeView| #[trigger] b.contains(x) == (exists|j: int|
            i < j < end && is_edge_of(o, i, j, x)) by {
            assert(a.contains(x) == (exists|j: int| i < j < end - 1 && is_edge_of(o, i, j, x)));
            if a.contains(x) {
                let k = choose|k: int| 0 <= k < a.len() && a[k] == x;
                assert(b[k] == x);
            }
            if is_edge_of(o, i, end - 1, x) {
                assert(b[a.len() as int] == x);
            }
            if b.contains(x) && !a.contains(x) {
                let k = choose|k: int| 0 <= k < b.len() && b[k] == x;
                if k < a.len() {
                    assert(a[k] == x);
                }
                assert(is_edge_of(o, i, end - 1, x));
            }
        }
    } else {
        assert forall|x: IntegrationConflictEdgeView| #[trigger] edges_of(o, i, end).contains(x)
            == (exists|j: int| i < j < end && is_edge_of(o, i, j, x)) by {}
    }
}

spec fn is_edge_of(
    o: Seq<IntegrationProposalSpecView>,
    i: int,
    j: int,
    x: IntegrationConflictEdgeView,
) -> bool {
    &&& x.left == o[i].change_set_id
    &&& x.right == o[j].change_set_id
    &&& x.reasons == reasons(o[i], o[j])
    &&& x.reasons.len() > 0
}

proof fn lemma_edges(o: Seq<IntegrationProposalSpecView>, n: int)
    requires
        0 <= n <= o.len(),
    ensures
        forall|x: IntegrationConflictEdgeView| #[trigger]
            edges(o, n).contains(x) == (exists|i: int, j: int|
                0 <= i < n && i < j < o.len() && is_edge_of(o, i, j, x)),
    decreases n,
{
    if n > 0 {
        lemma_edges(o, n - 1);
        let m = n - 1;
        lemma_edges_of(o, m, o.len() as int);
        let a = edges(o, n - 1);
        let c = edges_of(o, n - 1, o.len() as int);
        let b = edges(o, n);
        assert forall|x: IntegrationConflictEdgeView| #[trigger] b.contains(x) == (exists|
            i: int,
            j: int,
        |
            0 <= i < n && i < j < o.len() && is_edge_of(o, i, j, x)) by {
            assert(a.contains(x) == (exists|i: int, j: int|
                0 <= i < n - 1 && i < j < o.len() && is_edge_of(o, i, j, x)));
            assert(c.contains(x) == (exists|j: int| m < j < o.len() && is_edge_of(o, m, j, x)));
            if a.contains(x) {
                let k = choose|k: int| 0 <= k < a.len() && a[k] == x;
                assert(b[k] == x);
            }
            if c.contains(x) {
                let k = choose|k: int| 0 <= k < c.len() && c[k] == x;
                assert(b[a.len() + k] == x);
            }
            if b.contains(x) {
                let k = choose|k: int| 0 <= k < b.len() && b[k] == x;
                if k < a.len() {
                    assert(a[k] == x);
                } else {
                    assert(c[k - a.len()] == x);
                }
            }
        }
    } else {
        assert forall|x: IntegrationConflictEdgeView| #[trigger] edges(o, n).contains(x) == (exists|
            i: int,
            j: int,
        |
            0 <= i < n && i < j < o.len() && is_edge_of(o, i, j, x)) by {}
    }
}

proof fn lemma_places_by_id(o: Seq<IntegrationProposalSpecView>, i: int, j: int)
    requires
        ascending(change_set_ids(o)),
        0 <= i < o.len(),
        0 <= j < o.len(),
    ensures
        (o[i].change_set_id == o[j].change_set_id) == (i == j),
        precedes(o[i].change_set_id, o[j].change_set_id) == (i < j),
{
    let ids = change_set_ids(o);
    assert(ids[i] == o[i].change_set_id && ids[j] == o[j].change_set_id);
    lemma_precedes_irreflexive(ids[i]);
    if i < j {
        assert(precedes(ids[i], ids[j]));
    }
    if j < i {
        assert(precedes(ids[j], ids[i]));
        if precedes(ids[i], ids[j]) {
            lemma_precedes_transitive(ids[i], ids[j], ids[i]);
        }
    }
}

/// A conflict of a plan between two proposals names a reason, whichever of the two it names first.
pub open spec fn conflicts_for(
    plan: IntegrationPlanView,
    a: Seq<char>,
    b: Seq<char>,
    x: IntegrationConflictReason,
) -> bool {
    exists|e: int|
        0 <= e < plan.conflicts.len() && (#[trigger] plan.conflicts[e]).reasons.contains(x) && ((
        plan.conflicts[e].left == a && plan.conflicts[e].right == b) || (plan.conflicts[e].left == b
            && plan.conflicts[e].right == a))
}

proof fn lemma_conflicts_for(
    plan: IntegrationPlanView,
    i: int,
    j: int,
    x: IntegrationConflictReason,
)
    requires
        ascending(change_set_ids(plan.proposals)),
        plan.conflicts == edges(plan.proposals, plan.proposals.len() as int),
        0 <= i < j < plan.proposals.len(),
    ensures
        conflicts_for(
            plan,
            plan.proposals[i].change_set_id,
            plan.proposals[j].change_set_id,
            x,
        ) == reasons(plan.proposals[i], plan.proposals[j]).contains(x),
        conflicts_for(
            plan,
            plan.proposals[j].change_set_id,
            plan.proposals[i].change_set_id,
            x,
        ) == reasons(plan.proposals[i], plan.proposals[j]).contains(x),
{
    let o = plan.proposals;
    let all = plan.conflicts;
    lemma_edges(o, o.len() as int);
    let a = o[i].change_set_id;
    let b = o[j].change_set_id;
    if reasons(o[i], o[j]).contains(x) {
        let own = IntegrationConflictEdgeView { left: a, right: b, reasons: reasons(o[i], o[j]) };
        assert(is_edge_of(o, i, j, own));
        assert(all.contains(own));
        let e = choose|e: int| 0 <= e < all.len() && all[e] == own;
        assert(all[e].reasons.contains(x));
    }
    if conflicts_for(plan, a, b, x) || conflicts_for(plan, b, a, x) {
        let e = choose|e: int|
            0 <= e < all.len() && (#[trigger] all[e]).reasons.contains(x) && ((all[e].left == a
                && all[e].right == b) || (all[e].left == b && all[e].right == a));
        assert(all.contains(all[e]));
        let (g, h) = choose|g: int, h: int|
            0 <= g < o.len() && g < h < o.len() && is_edge_of(o, g, h, all[e]);
        lemma_places_by_id(o, g, i);
        lemma_places_by_id(o, g, j);
        lemma_places_by_id(o, h, i);
        lemma_places_by_id(o, h, j);
    }
}

/// The conflicts of a plan are those of its proposals, and the same whichever of two is asked first: two
/// proposals conflict for their bases exactly if those differ, for changed paths or generated artifacts
/// exactly if they have one in common, for the task exactly if one depends on the other, and for their
/// effects exactly if one is global.
pub proof fn law_conflicts_are_exact(
    plan: IntegrationPlanView,
    plan_id: Seq<char>,
    task_id: Seq<char>,
    plan_version: u32,
    proposals: Seq<IntegrationProposalSpecView>,
    i: int,
    j: int,
)
    requires
        is_plan_of(plan, plan_id, task_id, plan_version, proposals),
        0 <= i < plan.proposals.len(),
        0 <= j < plan.proposals.len(),
        i != j,
    ensures
        ({
            let p = plan.proposals[i];
            let q = plan.proposals[j];
            let a = p.change_set_id;
            let b = q.change_set_id;
            &&& conflicts_for(plan, a, b, IntegrationConflictReason::BaseSnapshotMismatch) <==> (
            p.base_snapshot_id != q.base_snapshot_id)
            &&& conflicts_for(plan, a, b, IntegrationConflictReason::ChangedPathOverlap) <==> (
            exists|path: Seq<char>| #[trigger]
                p.changed_paths.contains(path) && q.changed_paths.contains(path))
            &&& conflicts_for(plan, a, b, IntegrationConflictReason::TaskDependency) <==> (
            p.depends_on.contains(b) || q.depends_on.contains(a))
            &&& conflicts_for(plan, a, b, IntegrationConflictReason::GeneratedArtifactOverlap) <==> (
            exists|path: Seq<char>| #[trigger]
                p.generated_artifacts.contains(path) && q.generated_artifacts.contains(path))
            &&& conflicts_for(plan, a, b, IntegrationConflictReason::GlobalEffect) <==> (p.effect
                == IntegrationEffect::Global || q.effect == IntegrationEffect::Global)
            &&& forall|x: IntegrationConflictReason| #[trigger]
                conflicts_for(plan, a, b, x) == conflicts_for(plan, b, a, x)
        }),
{
    let p = plan.proposals[i];
    let q = plan.proposals[j];
    let (g, h) = if i < j {
        (i, j)
    } else {
        (j, i)
    };
    lemma_reasons(plan.proposals[g], plan.proposals[h]);
    assert forall|x: IntegrationConflictReason| #[trigger]
        conflicts_for(plan, p.change_set_id, q.change_set_id, x) == reasons(
            plan.proposals[g],
            plan.proposals[h],
        ).contains(x) && conflicts_for(plan, p.change_set_id, q.change_set_id, x) == conflicts_for(
        plan,
        q.change_set_id,
        p.change_set_id,
        x,
    ) by {
        lemma_conflicts_for(plan, g, h, x);
    }
    assert(share_a_path(p, q) == share_a_path(q, p));
    assert(share_an_artifact(p, q) == share_an_artifact(q, p));
}

/// A conflict of a plan names two of its proposals, the one with the smaller identity first, and at least
/// one reason, each reason once and in the order of the reasons; and no other conflict names the two.
pub proof fn law_conflicts_name_two_proposals_once(
    plan: IntegrationPlanView,
    plan_id: Seq<char>,
    task_id: Seq<char>,
    plan_version: u32,
    proposals: Seq<IntegrationProposalSpecView>,
    e: int,
)
    requires
        is_plan_of(plan, plan_id, task_id, plan_version, proposals),
        0 <= e < plan.conflicts.len(),
    ensures
        ({
            let x = plan.conflicts[e];
            &&& change_set_ids(plan.proposals).contains(x.left)
            &&& change_set_ids(plan.proposals).contains(x.right)
            &&& precedes(x.left, x.right)
            &&& x.reasons.len() > 0
            &&& forall|a: int, b: int|
                0 <= a < b < x.reasons.len() ==> reason_rank(#[trigger] x.reasons[a]) < reason_rank(
                    #[trigger] x.reasons[b],
                )
        }),
        forall|f: int|
            0 <= f < plan.conflicts.len() && (#[trigger] plan.conflicts[f]).left
                == plan.conflicts[e].left && plan.conflicts[f].right == plan.conflicts[e].right
                ==> plan.conflicts[f] == plan.conflicts[e],
{
    let o = plan.proposals;
    let ids = change_set_ids(o);
    let all = plan.conflicts;
    lemma_edges(o, o.len() as int);
    assert(all.contains(all[e]));
    let (g, h) = choose|g: int, h: int|
        0 <= g < o.len() && g < h < o.len() && is_edge_of(o, g, h, all[e]);
    assert(ids[g] == all[e].left && ids[h] == all[e].right);
    lemma_reasons(o[g], o[h]);
    assert forall|f: int|
        0 <= f < all.len() && (#[trigger] all[f]).left == all[e].left && all[f].right
            == all[e].right implies all[f] == all[e] by {
        assert(all.contains(all[f]));
        let (c, d) = choose|c: int, d: int|
            0 <= c < o.len() && c < d < o.len() && is_edge_of(o, c, d, all[f]);
        lemma_places_by_id(o, c, g);
        lemma_places_by_id(o, d, h);
    }
}

// Lanes.

proof fn lemma_linked_is_told(plan: IntegrationPlanView, a: int, b: int)
    requires
        ascending(change_set_ids(plan.proposals)),
        plan.conflicts == edges(plan.proposals, plan.proposals.len() as int),
        0 <= a < plan.proposals.len(),
        0 <= b < plan.proposals.len(),
        linked(plan.proposals, a, b),
    ensures
        exists|e: int|
            0 <= e < plan.conflicts.len() && (((#[trigger] plan.conflicts[e]).left
                == plan.proposals[a].change_set_id && plan.conflicts[e].right
                == plan.proposals[b].change_set_id) || (plan.conflicts[e].left
                == plan.proposals[b].change_set_id && plan.conflicts[e].right
                == plan.proposals[a].change_set_id)),
{
    let o = plan.proposals;
    let (g, h) = if a < b {
        (a, b)
    } else {
        (b, a)
    };
    lemma_edges(o, o.len() as int);
    let own = IntegrationConflictEdgeView {
        left: o[g].change_set_id,
        right: o[h].change_set_id,
        reasons: reasons(o[g], o[h]),
    };
    assert(is_edge_of(o, g, h, own));
    assert(plan.conflicts.contains(own));
    let e = choose|e: int| 0 <= e < plan.conflicts.len() && plan.conflicts[e] == own;
    assert(plan.conflicts[e] == own);
}

proof fn lemma_chain_stays_inside(
    plan: IntegrationPlanView,
    inside: spec_fn(Seq<char>) -> bool,
    a: int,
    b: int,
    k: nat,
)
    requires
        ascending(change_set_ids(plan.proposals)),
        plan.conflicts == edges(plan.proposals, plan.proposals.len() as int),
        forall|e: int|
            0 <= e < plan.conflicts.len() ==> inside((#[trigger] plan.conflicts[e]).left) == inside(
                plan.conflicts[e].right,
            ),
        0 <= a < plan.proposals.len(),
        0 <= b < plan.proposals.len(),
        reach(plan.proposals, a, b, k),
    ensures
        inside(plan.proposals[a].change_set_id) == inside(plan.proposals[b].change_set_id),
    decreases k,
{
    let o = plan.proposals;
    if k > 0 {
        let c = choose|c: int|
            0 <= c < o.len() && reach(o, a, c, (k - 1) as nat) && #[trigger] linked(o, c, b);
        lemma_chain_stays_inside(plan, inside, a, c, (k - 1) as nat);
        lemma_linked_is_told(plan, c, b);
    }
}

/// Nothing stands in a lane together without a chain of conflicts between: whatever part of the proposals
/// no conflict leads out of, a lane lies wholly inside or wholly outside of it.
pub proof fn law_lanes_join_nothing_but_conflicts(
    plan: IntegrationPlanView,
    plan_id: Seq<char>,
    task_id: Seq<char>,
    plan_version: u32,
    proposals: Seq<IntegrationProposalSpecView>,
    inside: spec_fn(Seq<char>) -> bool,
    k: int,
    p: int,
    q: int,
)
    requires
        is_plan_of(plan, plan_id, task_id, plan_version, proposals),
        forall|e: int|
            0 <= e < plan.conflicts.len() ==> inside((#[trigger] plan.conflicts[e]).left) == inside(
                plan.conflicts[e].right,
            ),
        0 <= k < plan.lanes.len(),
        0 <= p < plan.lanes[k].proposals.len(),
        0 <= q < plan.lanes[k].proposals.len(),
    ensures
        inside(plan.lanes[k].proposals[p]) == inside(plan.lanes[k].proposals[q]),
{
    let o = plan.proposals;
    let a = plan.lanes[k].proposals[p];
    let b = plan.lanes[k].proposals[q];
    lemma_stands(plan, a, k, p);
    lemma_stands(plan, b, k, q);
    let h = heads(o, o.len() as int)[k];
    lemma_heads(o, o.len() as int);
    assert(heads(o, o.len() as int).contains(h));
    let x = places_of_lane(o, k)[p];
    let y = places_of_lane(o, k)[q];
    let m = choose|m: nat| #[trigger] reach(o, h, x, m);
    let n = choose|n: nat| #[trigger] reach(o, h, y, n);
    lemma_chain_stays_inside(plan, inside, h, x, m);
    lemma_chain_stays_inside(plan, inside, h, y, n);
}

proof fn lemma_linked_share_a_lane(plan: IntegrationPlanView, a: int, b: int)
    requires
        are_lanes(plan.proposals, plan.proposals.len() as int, plan.lanes),
        0 <= a < plan.proposals.len(),
        0 <= b < plan.proposals.len(),
        linked(plan.proposals, a, b),
    ensures
        exists|k: int, p: int, q: int| #[trigger]
            stands_at(plan.lanes, plan.proposals[a].change_set_id, k, p) && #[trigger] stands_at(
                plan.lanes,
                plan.proposals[b].change_set_id,
                k,
                q,
            ),
{
    let o = plan.proposals;
    let n = o.len() as int;
    let all = heads(o, n);
    lemma_heads(o, n);
    law_every_proposal_has_one_lane(o, a);
    let h = choose|h: int| 0 <= h <= a && is_head(o, h) && #[trigger] connected(o, h, a);
    law_conflicting_proposals_share_a_lane(o, h, a, b);
    assert(all.contains(h));
    let k = choose|k: int| 0 <= k < all.len() && all[k] == h;
    let places = places_of_lane(o, k);
    lemma_places_of_lane(o, k);
    assert(places.contains(a) && places.contains(b));
    let p = choose|p: int| 0 <= p < places.len() && places[p] == a;
    let q = choose|q: int| 0 <= q < places.len() && places[q] == b;
    assert(is_lane(o, all[k], k, plan.lanes[k]));
    assert(plan.lanes[k].proposals == ids_at(o, places));
    assert(stands_at(plan.lanes, o[a].change_set_id, k, p));
    assert(stands_at(plan.lanes, o[b].change_set_id, k, q));
}

/// Proposals that a conflict of the plan names stand in one lane.
pub proof fn law_conflicts_stand_in_one_lane(
    plan: IntegrationPlanView,
    plan_id: Seq<char>,
    task_id: Seq<char>,
    plan_version: u32,
    proposals: Seq<IntegrationProposalSpecView>,
    e: int,
)
    requires
        is_plan_of(plan, plan_id, task_id, plan_version, proposals),
        0 <= e < plan.conflicts.len(),
    ensures
        exists|k: int, p: int, q: int| #[trigger]
            stands_at(plan.lanes, plan.conflicts[e].left, k, p) && #[trigger] stands_at(
                plan.lanes,
                plan.conflicts[e].right,
                k,
                q,
            ),
{
    let o = plan.proposals;
    let all = plan.conflicts;
    lemma_edges(o, o.len() as int);
    assert(all.contains(all[e]));
    let (g, h) = choose|g: int, h: int|
        0 <= g < o.len() && g < h < o.len() && is_edge_of(o, g, h, all[e]);
    assert(linked(o, g, h));
    lemma_linked_share_a_lane(plan, g, h);
}

// The order in a lane.

proof fn lemma_order_steps(
    o: Seq<IntegrationProposalSpecView>,
    lane: Seq<int>,
    done: Seq<int>,
    steps: nat,
)
    ensures
        ({
            let all = lane_order(o, lane, done, steps);
            &&& done.len() <= all.len()
            &&& all.take(done.len() as int) == done
            &&& forall|p: int|
                done.len() <= p < all.len() ==> next_place(o, lane, #[trigger] all.take(p)) == Some(
                    all[p],
                )
        }),
    decreases steps,
{
    let all = lane_order(o, lane, done, steps);
    assert(done.take(done.len() as int) =~= done);
    if steps > 0 {
        if let Some(c) = next_place(o, lane, done) {
            let next = done.push(c);
            lemma_order_steps(o, lane, next, (steps - 1) as nat);
            assert(all.take(done.len() as int) =~= all.take(next.len() as int).take(
                done.len() as int,
            ));
            assert(next.take(done.len() as int) =~= done);
            assert(all[done.len() as int] == all.take(next.len() as int)[done.len() as int]);
            assert forall|p: int| done.len() <= p < all.len() implies next_place(
                o,
                lane,
                #[trigger] all.take(p),
            ) == Some(all[p]) by {
                if p == done.len() {
                    assert(all.take(p) == done);
                }
            }
        }
    }
}

proof fn lemma_first_ready(
    o: Seq<IntegrationProposalSpecView>,
    lane: Seq<int>,
    done: Seq<int>,
    wait: bool,
    p: int,
)
    requires
        0 <= p,
    ensures
        match first_open(o, lane, done, wait, p) {
            Some(c) => exists|q: int|
                p <= q < lane.len() && lane[q] == c && !done.contains(c) && (wait ==> is_ready(
                    o,
                    lane,
                    done,
                    c,
                )) && forall|i: int|
                    p <= i < q && !done.contains(#[trigger] lane[i]) ==> wait && !is_ready(
                        o,
                        lane,
                        done,
                        lane[i],
                    ),
            None => forall|i: int|
                p <= i < lane.len() && !done.contains(#[trigger] lane[i]) ==> wait && !is_ready(
                    o,
                    lane,
                    done,
                    lane[i],
                ),
        },
    decreases lane.len() - p,
{
    if p < lane.len() {
        if !done.contains(lane[p]) && (!wait || is_ready(o, lane, done, lane[p])) {
            assert(lane[p] == first_open(o, lane, done, wait, p)->0);
        } else {
            lemma_first_ready(o, lane, done, wait, p + 1);
        }
    }
}

proof fn lemma_component_ascends(o: Seq<IntegrationProposalSpecView>, h: int, n: int)
    requires
        0 <= n,
    ensures
        forall|i: int, j: int|
            0 <= i < j < component(o, h, n).len() ==> #[trigger] component(o, h, n)[i]
                < #[trigger] component(o, h, n)[j],
        forall|i: int|
            0 <= i < component(o, h, n).len() ==> 0 <= #[trigger] component(o, h, n)[i] < n,
    decreases n,
{
    if n > 0 {
        lemma_component_ascends(o, h, n - 1);
        let a = component(o, h, n - 1);
        let b = component(o, h, n);
        assert forall|i: int| 0 <= i < b.len() implies 0 <= #[trigger] b[i] < n by {
            if i < a.len() {
                assert(b[i] == a[i]);
            }
        }
        assert forall|i: int, j: int| 0 <= i < j < b.len() implies #[trigger] b[i]
            < #[trigger] b[j] by {
            assert(b[i] == a[i]);
            if j < a.len() {
                assert(b[j] == a[j]);
            }
        }
    }
}

/// Something that a proposal depends on stands in a lane at a place or behind it.
pub open spec fn still_waits(
    lane: Seq<Seq<char>>,
    p: int,
    x: IntegrationProposalSpecView,
) -> bool {
    exists|r: int| p <= r < lane.len() && x.depends_on.contains(#[trigger] lane[r])
}

proof fn lemma_ready_is_told(
    o: Seq<IntegrationProposalSpecView>,
    members: Seq<int>,
    order: Seq<int>,
    p: int,
    c: int,
)
    requires
        ascending(change_set_ids(o)),
        forall|i: int| #[trigger] order.contains(i) == members.contains(i),
        forall|i: int| #[trigger] members.contains(i) ==> 0 <= i < o.len(),
        order.no_duplicates(),
        0 <= p <= order.len(),
        0 <= c < o.len(),
    ensures
        is_ready(o, members, order.take(p), c) == !still_waits(ids_at(o, order), p, o[c]),
{
    let ids = ids_at(o, order);
    let done = order.take(p);
    if still_waits(ids, p, o[c]) {
        let r = choose|r: int| p <= r < ids.len() && o[c].depends_on.contains(#[trigger] ids[r]);
        let k = choose|k: int| 0 <= k < o[c].depends_on.len() && o[c].depends_on[k] == ids[r];
        assert(order.contains(order[r]));
        assert(members.contains(order[r]));
        let m = choose|m: int| 0 <= m < members.len() && members[m] == order[r];
        assert(ids_at(o, members)[m] == ids[r]);
        assert(ids_at(o, members).contains(o[c].depends_on[k]));
        if is_ready(o, members, done, c) {
            assert(ids_at(o, done).contains(o[c].depends_on[k]));
            let d = choose|d: int| 0 <= d < done.len() && ids_at(o, done)[d] == ids[r];
            assert(done[d] == order[d]);
            assert(order.contains(order[d]));
            lemma_places_by_id(o, order[d], order[r]);
            assert(false);
        }
    } else {
        assert forall|k: int|
            0 <= k < o[c].depends_on.len() && ids_at(o, members).contains(
                #[trigger] o[c].depends_on[k],
            ) implies ids_at(o, done).contains(o[c].depends_on[k]) by {
            let x = o[c].depends_on[k];
            let m = choose|m: int| 0 <= m < members.len() && ids_at(o, members)[m] == x;
            assert(members.contains(members[m]));
            assert(order.contains(members[m]));
            let r = choose|r: int| 0 <= r < order.len() && order[r] == members[m];
            assert(ids[r] == x);
            assert(o[c].depends_on.contains(ids[r]));
            assert(r < p);
            assert(done[r] == order[r]);
            assert(ids_at(o, done)[r] == x);
        }
    }
}

/// A lane is in the order of what depends on what, and otherwise in that of the identities. A proposal
/// comes before one with a smaller identity only where that one still waits for something of the lane;
/// and a proposal that still waits comes next only where all that are left do, which is a cycle.
pub proof fn law_lanes_are_ordered(
    plan: IntegrationPlanView,
    plan_id: Seq<char>,
    task_id: Seq<char>,
    plan_version: u32,
    proposals: Seq<IntegrationProposalSpecView>,
    k: int,
    p: int,
    q: int,
    i: int,
    j: int,
)
    requires
        is_plan_of(plan, plan_id, task_id, plan_version, proposals),
        0 <= i < plan.proposals.len(),
        0 <= j < plan.proposals.len(),
        stands_at(plan.lanes, plan.proposals[i].change_set_id, k, p),
        stands_at(plan.lanes, plan.proposals[j].change_set_id, k, q),
        p <= q,
    ensures
        p < q && precedes(plan.proposals[j].change_set_id, plan.proposals[i].change_set_id)
            ==> still_waits(plan.lanes[k].proposals, p, plan.proposals[j]),
        still_waits(plan.lanes[k].proposals, p, plan.proposals[i]) ==> still_waits(
            plan.lanes[k].proposals,
            p,
            plan.proposals[j],
        ),
{
    let o = plan.proposals;
    let n = o.len() as int;
    let a = o[i].change_set_id;
    let b = o[j].change_set_id;
    lemma_stands(plan, a, k, p);
    lemma_stands(plan, b, k, q);
    let h = heads(o, n)[k];
    let members = component(o, h, n);
    let order = places_of_lane(o, k);
    assert(is_lane(o, h, k, plan.lanes[k]));
    assert(plan.lanes[k].proposals == ids_at(o, order));
    lemma_places_of_lane(o, k);
    lemma_component(o, h, n);
    lemma_component_ascends(o, h, n);
    assert forall|c: int| #[trigger] order.contains(c) == members.contains(c) by {
        assert(members.contains(c) == (0 <= c < n && connected(o, h, c)));
    }
    lemma_order_steps(o, members, Seq::empty(), members.len());
    lemma_places_by_id(o, order[p], i);
    lemma_places_by_id(o, order[q], j);
    lemma_places_by_id(o, j, i);
    let done = order.take(p);
    assert(next_place(o, members, done) == Some(i));
    lemma_ready_is_told(o, members, order, p, i);
    lemma_ready_is_told(o, members, order, p, j);
    lemma_first_ready(o, members, done, true, 0);
    lemma_first_ready(o, members, done, false, 0);
    assert(!done.contains(j)) by {
        if done.contains(j) {
            let d = choose|d: int| 0 <= d < done.len() && done[d] == j;
            assert(order[d] == order[q]);
        }
    }
    assert(order.contains(order[q]));
    assert(members.contains(j));
    let y = choose|y: int| 0 <= y < members.len() && members[y] == j;
    assert(order.contains(order[p]));
    assert(members.contains(i));
    let x = choose|x: int| 0 <= x < members.len() && members[x] == i;
    assert(members[y] == j && members[x] == i);
    if p < q && j < i {
        assert(y < x) by {
            if x < y {
                assert(members[x] < members[y]);
            }
        }
    }
}

proof fn lemma_lowest(lane: Seq<Seq<char>>, rank: spec_fn(Seq<char>) -> nat, p: int, q: int) -> (r:
    int)
    requires
        0 <= p <= q < lane.len(),
    ensures
        p <= r < lane.len(),
        forall|t: int| p <= t < lane.len() ==> rank(lane[r]) <= rank(#[trigger] lane[t]),
    decreases rank(lane[q]),
{
    if exists|t: int| p <= t < lane.len() && rank(#[trigger] lane[t]) < rank(lane[q]) {
        let t = choose|t: int| p <= t < lane.len() && rank(#[trigger] lane[t]) < rank(lane[q]);
        lemma_lowest(lane, rank, p, t)
    } else {
        q
    }
}

/// What depends on a proposal of the plan stands in the lane of that proposal and, where the dependencies
/// of the plan have no cycle, behind it: there is no cycle exactly if the proposals can be ranked so that
/// each ranks above all that it depends on.
pub proof fn law_dependents_stand_behind(
    plan: IntegrationPlanView,
    plan_id: Seq<char>,
    task_id: Seq<char>,
    plan_version: u32,
    proposals: Seq<IntegrationProposalSpecView>,
    rank: spec_fn(Seq<char>) -> nat,
    i: int,
    j: int,
)
    requires
        is_plan_of(plan, plan_id, task_id, plan_version, proposals),
        0 <= i < plan.proposals.len(),
        0 <= j < plan.proposals.len(),
        i != j,
        plan.proposals[j].depends_on.contains(plan.proposals[i].change_set_id),
    ensures
        exists|k: int, p: int, q: int| #[trigger]
            stands_at(plan.lanes, plan.proposals[i].change_set_id, k, p) && #[trigger] stands_at(
                plan.lanes,
                plan.proposals[j].change_set_id,
                k,
                q,
            ) && ((forall|c: int, d: int|
                0 <= c < plan.proposals.len() && 0 <= d < plan.proposals.len() && (
                #[trigger] plan.proposals[d]).depends_on.contains(
                    (#[trigger] plan.proposals[c]).change_set_id,
                ) ==> rank(plan.proposals[c].change_set_id) < rank(plan.proposals[d].change_set_id))
                ==> p < q),
{
    let o = plan.proposals;
    let a = o[i].change_set_id;
    let b = o[j].change_set_id;
    let (g, h) = if i < j {
        (i, j)
    } else {
        (j, i)
    };
    lemma_reasons(o[g], o[h]);
    assert(reasons(o[g], o[h]).contains(IntegrationConflictReason::TaskDependency));
    assert(reasons(o[g], o[h]).len() > 0);
    assert(linked(o, i, j));
    lemma_linked_share_a_lane(plan, i, j);
    let (k, p, q) = choose|k: int, p: int, q: int| #[trigger]
        stands_at(plan.lanes, a, k, p) && #[trigger] stands_at(plan.lanes, b, k, q);
    lemma_places_by_id(o, i, j);
    let lane = plan.lanes[k].proposals;
    if (forall|c: int, d: int|
        0 <= c < o.len() && 0 <= d < o.len() && (#[trigger] o[d]).depends_on.contains(
            (#[trigger] o[c]).change_set_id,
        ) ==> rank(o[c].change_set_id) < rank(o[d].change_set_id)) && q < p {
        assert(o[j].depends_on.contains(lane[p]));
        assert(still_waits(lane, q, o[j]));
        let r = lemma_lowest(lane, rank, q, q);
        lemma_stands(plan, lane[r], k, r);
        let d = places_of_lane(o, k)[r];
        law_lanes_are_ordered(plan, plan_id, task_id, plan_version, proposals, k, q, r, j, d);
        let t = choose|t: int| q <= t < lane.len() && o[d].depends_on.contains(#[trigger] lane[t]);
        lemma_stands(plan, lane[t], k, t);
        let c = places_of_lane(o, k)[t];
        assert(o[d].depends_on.contains(o[c].change_set_id));
        assert(rank(lane[t]) < rank(lane[r]));
    }
}

proof fn lemma_heads_ascend(o: Seq<IntegrationProposalSpecView>, n: int)
    requires
        0 <= n,
    ensures
        forall|j: int, k: int|
            0 <= j < k < heads(o, n).len() ==> #[trigger] heads(o, n)[j] < #[trigger] heads(o, n)[k],
        forall|k: int| 0 <= k < heads(o, n).len() ==> 0 <= #[trigger] heads(o, n)[k] < n,
    decreases n,
{
    if n > 0 {
        lemma_heads_ascend(o, n - 1);
        let a = heads(o, n - 1);
        let b = heads(o, n);
        assert forall|i: int| 0 <= i < b.len() implies 0 <= #[trigger] b[i] < n by {
            if i < a.len() {
                assert(b[i] == a[i]);
            }
        }
        assert forall|i: int, j: int| 0 <= i < j < b.len() implies #[trigger] b[i]
            < #[trigger] b[j] by {
            assert(b[i] == a[i]);
            if j < a.len() {
                assert(b[j] == a[j]);
            }
        }
    }
}

/// Lanes come in the order of their smallest identities: a lane holds a proposal whose identity is smaller
/// than all of a later lane.
pub proof fn law_lanes_come_in_order(
    plan: IntegrationPlanView,
    plan_id: Seq<char>,
    task_id: Seq<char>,
    plan_version: u32,
    proposals: Seq<IntegrationProposalSpecView>,
    j: int,
    k: int,
)
    requires
        is_plan_of(plan, plan_id, task_id, plan_version, proposals),
        0 <= j < k < plan.lanes.len(),
    ensures
        exists|p: int|
            0 <= p < plan.lanes[j].proposals.len() && forall|q: int|
                0 <= q < plan.lanes[k].proposals.len() ==> precedes(
                    #[trigger] plan.lanes[j].proposals[p],
                    #[trigger] plan.lanes[k].proposals[q],
                ),
{
    let o = plan.proposals;
    let n = o.len() as int;
    let all = heads(o, n);
    lemma_heads(o, n);
    lemma_heads_ascend(o, n);
    let h = all[j];
    let g = all[k];
    assert(all.contains(g));
    assert(reach(o, h, h, 0));
    lemma_places_of_lane(o, j);
    assert(places_of_lane(o, j).contains(h));
    let p = choose|p: int| 0 <= p < places_of_lane(o, j).len() && places_of_lane(o, j)[p] == h;
    assert(is_lane(o, h, j, plan.lanes[j]));
    assert(plan.lanes[j].proposals == ids_at(o, places_of_lane(o, j)));
    assert(plan.lanes[j].proposals[p] == o[h].change_set_id);
    assert forall|q: int| 0 <= q < plan.lanes[k].proposals.len() implies precedes(
        plan.lanes[j].proposals[p],
        #[trigger] plan.lanes[k].proposals[q],
    ) by {
        let id = plan.lanes[k].proposals[q];
        lemma_stands(plan, id, k, q);
        let c = places_of_lane(o, k)[q];
        let m = choose|m: nat| #[trigger] reach(o, g, c, m);
        lemma_reach_symmetric(o, g, c, m);
        assert(connected(o, c, g));
        assert(c >= g);
        lemma_places_by_id(o, h, c);
    }
}

/// A lane is verified for what its proposals are verified for, and for nothing else: its scopes are those
/// of its proposals, each once and in ascending order.
pub proof fn law_lanes_have_the_scopes_of_their_proposals(
    plan: IntegrationPlanView,
    plan_id: Seq<char>,
    task_id: Seq<char>,
    plan_version: u32,
    proposals: Seq<IntegrationProposalSpecView>,
    k: int,
    hash: Seq<char>,
)
    requires
        is_plan_of(plan, plan_id, task_id, plan_version, proposals),
        0 <= k < plan.lanes.len(),
    ensures
        plan.lanes[k].verification_scope_hashes.contains(hash) == (exists|i: int|
            0 <= i < plan.proposals.len() && plan.lanes[k].proposals.contains(
                (#[trigger] plan.proposals[i]).change_set_id,
            ) && plan.proposals[i].verification_scope_hash == hash),
        ascending(plan.lanes[k].verification_scope_hashes),
{
    let o = plan.proposals;
    let h = heads(o, o.len() as int)[k];
    let order = places_of_lane(o, k);
    let lane = plan.lanes[k];
    assert(is_lane(o, h, k, lane));
    let all = order.map_values(|i: int| o[i].verification_scope_hash);
    assert(lane.proposals == ids_at(o, order));
    assert(lane.verification_scope_hashes.to_set().contains(hash) == all.to_set().contains(hash));
    if all.contains(hash) {
        let p = choose|p: int| 0 <= p < all.len() && all[p] == hash;
        lemma_stands(plan, lane.proposals[p], k, p);
        assert(lane.proposals.contains(o[order[p]].change_set_id));
    }
    if exists|i: int|
        0 <= i < o.len() && lane.proposals.contains((#[trigger] o[i]).change_set_id)
            && o[i].verification_scope_hash == hash {
        let i = choose|i: int|
            0 <= i < o.len() && lane.proposals.contains((#[trigger] o[i]).change_set_id)
                && o[i].verification_scope_hash == hash;
        let p = choose|p: int|
            0 <= p < lane.proposals.len() && lane.proposals[p] == o[i].change_set_id;
        lemma_stands(plan, lane.proposals[p], k, p);
        lemma_places_by_id(o, order[p], i);
        assert(all[p] == hash);
    }
}

} // verus!
