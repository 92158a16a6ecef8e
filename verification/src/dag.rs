//! Dependency graphs between named items.

use vstd::prelude::*;

use crate::value::Value;

verus! {

/// `rank` puts every item behind the items it depends on.
pub open spec fn respects(
    names: Seq<Seq<char>>,
    needs: Seq<Seq<Seq<char>>>,
    rank: Seq<nat>,
) -> bool {
    &&& rank.len() == names.len()
    &&& forall|i: int, k: int, j: int|
        #![trigger needs[i][k], names[j]]
        0 <= i < names.len() && 0 <= k < needs[i].len() && 0 <= j < names.len() && names[j]
            == needs[i][k] ==> rank[j] < rank[i]
}

/// The items can be ordered so that each stands behind everything it depends on: there is no cycle.
pub open spec fn acyclic(names: Seq<Seq<char>>, needs: Seq<Seq<Seq<char>>>) -> bool {
    exists|rank: Seq<nat>| respects(names, needs, rank)
}

/// Whatever item `i` depends on is among the items that are placed.
spec fn unblocked(
    names: Seq<Seq<char>>,
    needs: Seq<Seq<Seq<char>>>,
    placed: Seq<bool>,
    i: int,
) -> bool {
    forall|k: int, j: int|
        #![trigger needs[i][k], names[j]]
        0 <= k < needs[i].len() && 0 <= j < names.len() && names[j] == needs[i][k] ==> placed[j]
}

fn is_unblocked(names: &Vec<String>, needs: &Vec<Vec<String>>, placed: &Vec<bool>, i: usize) -> (r:
    bool)
    requires
        i < names.len(),
        names.len() == needs.len(),
        placed.len() == names.len(),
    ensures
        r == unblocked(names.deep_view(), needs.deep_view(), placed@, i as int),
{
    let ghost n = names.deep_view();
    let ghost d = needs.deep_view();
    let own = &needs[i];
    assert(d[i as int] == own.deep_view());
    let mut k: usize = 0;
    while k < own.len()
        invariant
            k <= own.len(),
            i < names.len(),
            names.len() == needs.len(),
            placed.len() == names.len(),
            n == names.deep_view(),
            d == needs.deep_view(),
            d[i as int] == own.deep_view(),
            forall|q: int, j: int|
                #![trigger d[i as int][q], n[j]]
                0 <= q < k && 0 <= j < n.len() && n[j] == d[i as int][q] ==> placed@[j],
        decreases own.len() - k,
    {
        let mut j: usize = 0;
        while j < names.len()
            invariant
                j <= names.len(),
                k < own.len(),
                i < names.len(),
                names.len() == needs.len(),
                placed.len() == names.len(),
                n == names.deep_view(),
                d == needs.deep_view(),
                d[i as int] == own.deep_view(),
                forall|p: int| 0 <= p < j && #[trigger] n[p] == d[i as int][k as int] ==> placed@[p],
            decreases names.len() - j,
        {
            if names[j].same(&own[k]) && !placed[j] {
                assert(n[j as int] == d[i as int][k as int]);
                return false;
            }
            j = j + 1;
        }
        k = k + 1;
    }
    true
}

/// With every unplaced item blocked by an unplaced item, a rank that respects the dependencies would
/// have to be larger than any bound.
proof fn lemma_stuck(
    names: Seq<Seq<char>>,
    needs: Seq<Seq<Seq<char>>>,
    placed: Seq<bool>,
    rank: Seq<nat>,
    bound: nat,
    i: int,
)
    requires
        respects(names, needs, rank),
        placed.len() == names.len(),
        forall|i: int|
            0 <= i < names.len() && !placed[i] ==> !#[trigger] unblocked(names, needs, placed, i),
        0 <= i < names.len(),
        !placed[i],
    ensures
        rank[i] >= bound,
    decreases bound,
{
    if bound > 0 {
        assert(!unblocked(names, needs, placed, i));
        let (k, j) = choose|k: int, j: int|
            #![trigger needs[i][k], names[j]]
            0 <= k < needs[i].len() && 0 <= j < names.len() && names[j] == needs[i][k]
                && !placed[j];
        lemma_stuck(names, needs, placed, rank, (bound - 1) as nat, j);
        assert(rank[j] < rank[i]);
    }
}

/// Tells whether the dependencies hold no cycle: it places items, each after what it depends on,
/// until none is left or every one that is left waits for another.
pub fn has_no_cycle(names: &Vec<String>, needs: &Vec<Vec<String>>) -> (r: bool)
    requires
        names.len() == needs.len(),
    ensures
        r == acyclic(names.deep_view(), needs.deep_view()),
{
    let ghost n = names.deep_view();
    let ghost d = needs.deep_view();
    let mut placed: Vec<bool> = Vec::new();
    while placed.len() < names.len()
        invariant
            placed.len() <= names.len(),
            forall|i: int| 0 <= i < placed.len() ==> !#[trigger] placed@[i],
        decreases names.len() - placed.len(),
    {
        placed.push(false);
    }
    let ghost mut rank: Seq<nat> = Seq::new(names.len() as nat, |i: int| 0nat);
    let mut count: usize = 0;
    proof {
        lemma_none_placed(placed@);
    }
    while count < names.len()
        invariant
            count <= names.len(),
            names.len() == needs.len(),
            placed.len() == names.len(),
            rank.len() == names.len(),
            n == names.deep_view(),
            d == needs.deep_view(),
            forall|i: int| 0 <= i < n.len() && #[trigger] placed@[i] ==> rank[i] < count,
            forall|i: int| 0 <= i < n.len() && !#[trigger] placed@[i] ==> rank[i] == 0,
            forall|i: int, k: int, j: int|
                #![trigger d[i][k], n[j]]
                0 <= i < n.len() && placed@[i] && 0 <= k < d[i].len() && 0 <= j < n.len() && n[j]
                    == d[i][k] ==> placed@[j] && rank[j] < rank[i],
            placed_count(placed@) == count,
        decreases names.len() - count,
    {
        let mut i: usize = 0;
        while i < names.len() && (placed[i] || !is_unblocked(names, needs, &placed, i))
            invariant
                i <= names.len(),
                names.len() == needs.len(),
                placed.len() == names.len(),
                n == names.deep_view(),
                d == needs.deep_view(),
                forall|p: int|
                    0 <= p < i && !placed@[p] ==> !#[trigger] unblocked(n, d, placed@, p),
            decreases names.len() - i,
        {
            i = i + 1;
        }
        if i == names.len() {
            proof {
                lemma_some_unplaced(placed@);
                let u = choose|u: int| 0 <= u < placed@.len() && !#[trigger] placed@[u];
                assert forall|rk: Seq<nat>| !respects(n, d, rk) by {
                    if respects(n, d, rk) {
                        lemma_stuck(n, d, placed@, rk, rk[u] + 1, u);
                    }
                }
            }
            return false;
        }
        let ghost before = placed@;
        assert(unblocked(n, d, before, i as int));
        placed.set(i, true);
        proof {
            lemma_place_one(before, i as int);
            rank = rank.update(i as int, count as nat);
            assert forall|p: int, k: int, j: int|
                #![trigger d[p][k], n[j]]
                0 <= p < n.len() && placed@[p] && 0 <= k < d[p].len() && 0 <= j < n.len() && n[j]
                    == d[p][k] implies placed@[j] && rank[j] < rank[p] by {
                if p == i as int {
                    assert(before[j]);
                } else {
                    assert(before[p]);
                    assert(before[j]);
                }
            }
        }
        count = count + 1;
    }
    proof {
        lemma_all_placed(placed@);
        assert(respects(n, d, rank));
    }
    true
}

/// How many flags of a row are set.
pub open spec fn placed_count(placed: Seq<bool>) -> nat
    decreases placed.len(),
{
    if placed.len() == 0 {
        0
    } else {
        placed_count(placed.drop_last()) + if placed.last() {
            1nat
        } else {
            0nat
        }
    }
}

proof fn lemma_none_placed(placed: Seq<bool>)
    requires
        forall|i: int| 0 <= i < placed.len() ==> !#[trigger] placed[i],
    ensures
        placed_count(placed) == 0,
    decreases placed.len(),
{
    if placed.len() > 0 {
        let rest = placed.drop_last();
        assert forall|i: int| 0 <= i < rest.len() implies !#[trigger] rest[i] by {
            assert(rest[i] == placed[i]);
        }
        lemma_none_placed(rest);
    }
}

/// No more flags are set than there are.
pub proof fn lemma_count_bound(placed: Seq<bool>)
    ensures
        placed_count(placed) <= placed.len(),
    decreases placed.len(),
{
    if placed.len() > 0 {
        lemma_count_bound(placed.drop_last());
    }
}

proof fn lemma_some_unplaced(placed: Seq<bool>)
    requires
        placed_count(placed) < placed.len(),
    ensures
        exists|u: int| 0 <= u < placed.len() && !#[trigger] placed[u],
    decreases placed.len(),
{
    if placed.last() {
        lemma_some_unplaced(placed.drop_last());
        let u = choose|u: int|
            0 <= u < placed.drop_last().len() && !#[trigger] placed.drop_last()[u];
        assert(!placed[u]);
    } else {
        assert(!placed[placed.len() - 1]);
    }
}

proof fn lemma_all_placed(placed: Seq<bool>)
    requires
        placed_count(placed) == placed.len(),
    ensures
        forall|u: int| 0 <= u < placed.len() ==> #[trigger] placed[u],
    decreases placed.len(),
{
    if placed.len() > 0 {
        let rest = placed.drop_last();
        lemma_count_bound(rest);
        lemma_all_placed(rest);
        assert forall|u: int| 0 <= u < placed.len() implies #[trigger] placed[u] by {
            if u < rest.len() {
                assert(rest[u] == placed[u]);
            }
        }
    }
}

/// Setting one more flag adds one to the count.
pub proof fn lemma_place_one(placed: Seq<bool>, i: int)
    requires
        0 <= i < placed.len(),
        !placed[i],
    ensures
        placed_count(placed.update(i, true)) == placed_count(placed) + 1,
    decreases placed.len(),
{
    let after = placed.update(i, true);
    if i == placed.len() - 1 {
        assert(after.drop_last() =~= placed.drop_last());
    } else {
        assert(after.drop_last() =~= placed.drop_last().update(i, true));
        lemma_place_one(placed.drop_last(), i);
    }
}

} // verus!
