//! Lists in order.

use vstd::prelude::*;
use vstd::relations::{sorted_by, total_ordering};

use crate::text::{
    ascending, lemma_precedes_irreflexive, lemma_precedes_total, lemma_precedes_transitive, precedes,
    text_precedes,
};
use crate::value::Value;

verus! {

/// A list with one more item: it stands before all items at the end that it is to stand before.
pub open spec fn put<A>(s: Seq<A>, x: A, before: spec_fn(A, A) -> bool) -> Seq<A>
    decreases s.len(),
{
    if s.len() > 0 && before(x, s.last()) {
        put(s.drop_last(), x, before).push(s.last())
    } else {
        s.push(x)
    }
}

/// The items of a list in order. Items of which neither is to stand before the other keep their places.
pub open spec fn items_in_order<A>(s: Seq<A>, before: spec_fn(A, A) -> bool) -> Seq<A>
    decreases s.len(),
{
    if s.len() == 0 {
        s
    } else {
        put(items_in_order(s.drop_last(), before), s.last(), before)
    }
}

/// One item may stand in front of another: the other is not to stand before it.
pub open spec fn may_lead<A>(before: spec_fn(A, A) -> bool) -> spec_fn(A, A) -> bool {
    |a: A, b: A| !before(b, a)
}

/// Where an item is put.
proof fn lemma_put<A>(s: Seq<A>, x: A, before: spec_fn(A, A) -> bool, k: int)
    requires
        0 <= k <= s.len(),
        forall|j: int| k <= j < s.len() ==> before(x, #[trigger] s[j]),
        k > 0 ==> !before(x, s[k - 1]),
    ensures
        put(s, x, before) == s.insert(k, x),
    decreases s.len(),
{
    if k < s.len() {
        assert(before(x, s[s.len() - 1]));
        lemma_put(s.drop_last(), x, before, k);
        assert(put(s, x, before) =~= s.insert(k, x));
    } else {
        assert(put(s, x, before) =~= s.insert(k, x));
    }
}

/// Where an item comes to stand.
pub proof fn lemma_put_place<A>(s: Seq<A>, x: A, before: spec_fn(A, A) -> bool) -> (k: int)
    ensures
        0 <= k <= s.len(),
        forall|j: int| k <= j < s.len() ==> before(x, #[trigger] s[j]),
        k > 0 ==> !before(x, s[k - 1]),
        put(s, x, before) == s.insert(k, x),
    decreases s.len(),
{
    if s.len() > 0 && before(x, s.last()) {
        let k = lemma_put_place(s.drop_last(), x, before);
        assert forall|j: int| k <= j < s.len() implies before(x, #[trigger] s[j]) by {
            if j < s.len() - 1 {
                assert(s.drop_last()[j] == s[j]);
            }
        }
        lemma_put(s, x, before, k);
        k
    } else {
        lemma_put(s, x, before, s.len() as int);
        s.len() as int
    }
}

/// Puts one more item into a list.
pub(crate) fn put_item<T: Value, F: Fn(&T, &T) -> bool>(
    r: &mut Vec<T>,
    x: T,
    before: &F,
    Ghost(p): Ghost<spec_fn(T::V, T::V) -> bool>,
)
    requires
        forall|a: &T, b: &T| #[trigger] before.requires((a, b)),
        forall|a: &T, b: &T, o: bool| #[trigger]
            before.ensures((a, b), o) ==> o == p(a.deep_view(), b.deep_view()),
    ensures
        final(r).deep_view() == put(old(r).deep_view(), x.deep_view(), p),
        final(r).len() == old(r).len() + 1,
{
    let ghost rv = r.deep_view();
    let mut k: usize = r.len();
    let mut placed = false;
    while k > 0 && !placed
        invariant
            k <= r.len(),
            r == old(r),
            rv == r.deep_view(),
            forall|a: &T, b: &T| #[trigger] before.requires((a, b)),
            forall|a: &T, b: &T, o: bool| #[trigger]
                before.ensures((a, b), o) ==> o == p(a.deep_view(), b.deep_view()),
            forall|j: int| k <= j < rv.len() ==> p(x.deep_view(), #[trigger] rv[j]),
            placed ==> k > 0 && !p(x.deep_view(), rv[k - 1]),
        decreases
            k,
            if placed {
                0int
            } else {
                1int
            },
    {
        assert(rv[k - 1] == r@[k - 1].deep_view());
        if before(&x, &r[k - 1]) {
            k = k - 1;
        } else {
            placed = true;
        }
    }
    proof {
        lemma_put(rv, x.deep_view(), p, k as int);
    }
    let ghost view = x.deep_view();
    r.insert(k, x);
    assert(r.deep_view() =~= rv.insert(k as int, view));
}

/// Puts the items of a list in order.
pub(crate) fn sort_items<T: Value, F: Fn(&T, &T) -> bool>(
    items: &Vec<T>,
    before: F,
    Ghost(p): Ghost<spec_fn(T::V, T::V) -> bool>,
) -> (r: Vec<T>)
    requires
        forall|a: &T, b: &T| #[trigger] before.requires((a, b)),
        forall|a: &T, b: &T, o: bool| #[trigger]
            before.ensures((a, b), o) ==> o == p(a.deep_view(), b.deep_view()),
    ensures
        r.deep_view() == items_in_order(items.deep_view(), p),
{
    let ghost v = items.deep_view();
    let mut r: Vec<T> = Vec::new();
    let mut i: usize = 0;
    assert(v.take(0) =~= Seq::empty());
    assert(r.deep_view() =~= Seq::empty());
    while i < items.len()
        invariant
            i <= items.len(),
            v == items.deep_view(),
            forall|a: &T, b: &T| #[trigger] before.requires((a, b)),
            forall|a: &T, b: &T, o: bool| #[trigger]
                before.ensures((a, b), o) ==> o == p(a.deep_view(), b.deep_view()),
            r.len() == i,
            r.deep_view() == items_in_order(v.take(i as int), p),
        decreases items.len() - i,
    {
        let x = items[i].duplicate();
        proof {
            assert(v.take(i + 1).drop_last() =~= v.take(i as int));
            assert(v.take(i + 1).last() == v[i as int]);
        }
        put_item(&mut r, x, &before, Ghost(p));
        i = i + 1;
    }
    assert(v.take(i as int) =~= v);
    r
}

proof fn lemma_put_holds<A>(s: Seq<A>, x: A, before: spec_fn(A, A) -> bool)
    ensures
        put(s, x, before).to_multiset() == s.to_multiset().insert(x),
        put(s, x, before).len() == s.len() + 1,
    decreases s.len(),
{
    broadcast use vstd::seq_lib::group_to_multiset_ensures;

    if s.len() > 0 && before(x, s.last()) {
        lemma_put_holds(s.drop_last(), x, before);
        assert(s =~= s.drop_last().push(s.last()));
        assert(put(s, x, before).to_multiset() =~= s.to_multiset().insert(x));
    }
}

proof fn lemma_put_sorts<A>(s: Seq<A>, x: A, before: spec_fn(A, A) -> bool)
    requires
        total_ordering(may_lead(before)),
        sorted_by(s, may_lead(before)),
    ensures
        sorted_by(put(s, x, before), may_lead(before)),
        forall|i: int|
            0 <= i < put(s, x, before).len() ==> s.contains(#[trigger] put(s, x, before)[i]) || put(
                s,
                x,
                before,
            )[i] == x,
    decreases s.len(),
{
    let leq = may_lead(before);
    let t = put(s, x, before);
    if s.len() > 0 && before(x, s.last()) {
        let rest = s.drop_last();
        assert forall|i: int, j: int| 0 <= i < j < rest.len() implies #[trigger] leq(
            rest[i],
            rest[j],
        ) by {
            assert(leq(s[i], s[j]));
        }
        lemma_put_sorts(rest, x, before);
        lemma_put_holds(rest, x, before);
        let u = put(rest, x, before);
        assert forall|i: int| 0 <= i < u.len() implies #[trigger] leq(u[i], s.last()) && (s.contains(
            u[i],
        ) || u[i] == x) by {
            if u[i] != x {
                assert(rest.contains(u[i]));
                let k = choose|k: int| 0 <= k < rest.len() && rest[k] == u[i];
                assert(s[k] == u[i]);
                assert(leq(s[k], s[s.len() - 1]));
            } else {
                assert(leq(x, s.last()) || leq(s.last(), x));
            }
        }
        assert forall|i: int, j: int| 0 <= i < j < t.len() implies #[trigger] leq(t[i], t[j]) by {
            if j < u.len() {
                assert(leq(u[i], u[j]));
            } else {
                assert(leq(u[i], s.last()));
            }
        }
        assert forall|i: int| 0 <= i < t.len() implies s.contains(#[trigger] t[i]) || t[i] == x by {
            if i < u.len() {
                assert(leq(u[i], s.last()));
            } else {
                assert(s.contains(s[s.len() - 1]));
            }
        }
    } else {
        assert forall|i: int, j: int| 0 <= i < j < t.len() implies #[trigger] leq(t[i], t[j]) by {
            if j < s.len() {
                assert(leq(s[i], s[j]));
            } else if i < s.len() - 1 {
                assert(leq(s[i], s[s.len() - 1]));
                assert(leq(s.last(), x));
            } else {
                assert(leq(s.last(), x));
            }
        }
        assert forall|i: int| 0 <= i < t.len() implies s.contains(#[trigger] t[i]) || t[i] == x by {
            if i < s.len() {
                assert(s.contains(s[i]));
            }
        }
    }
}

/// In order a list holds the same items as before, and under a total order none stands behind one
/// that it is to stand before.
pub proof fn lemma_in_order<A>(s: Seq<A>, before: spec_fn(A, A) -> bool)
    ensures
        items_in_order(s, before).to_multiset() == s.to_multiset(),
        items_in_order(s, before).len() == s.len(),
        total_ordering(may_lead(before)) ==> sorted_by(items_in_order(s, before), may_lead(before)),
    decreases s.len(),
{
    broadcast use vstd::seq_lib::group_to_multiset_ensures;

    if s.len() > 0 {
        let rest = s.drop_last();
        lemma_in_order(rest, before);
        lemma_put_holds(items_in_order(rest, before), s.last(), before);
        assert(s =~= rest.push(s.last()));
        if total_ordering(may_lead(before)) {
            lemma_put_sorts(items_in_order(rest, before), s.last(), before);
        }
    }
}

/// A list in its order has the items of the list.
pub proof fn lemma_ordered_items<A>(s: Seq<A>, before: spec_fn(A, A) -> bool)
    ensures
        forall|x: A| #[trigger] items_in_order(s, before).contains(x) == s.contains(x),
        items_in_order(s, before).len() == s.len(),
        s.no_duplicates() ==> items_in_order(s, before).no_duplicates(),
{
    let t = items_in_order(s, before);
    lemma_in_order(s, before);
    assert forall|x: A| #[trigger] t.contains(x) == s.contains(x) by {
        vstd::seq_lib::to_multiset_contains(s, x);
        vstd::seq_lib::to_multiset_contains(t, x);
    }
    if s.no_duplicates() {
        s.lemma_multiset_has_no_duplicates();
        t.lemma_multiset_has_no_duplicates_conv();
    }
}

/// Under a total order, two lists with the same items are the same list in order.
pub proof fn lemma_order_is_canonical<A>(s: Seq<A>, t: Seq<A>, before: spec_fn(A, A) -> bool)
    requires
        s.to_multiset() == t.to_multiset(),
        total_ordering(may_lead(before)),
    ensures
        items_in_order(s, before) == items_in_order(t, before),
{
    lemma_in_order(s, before);
    lemma_in_order(t, before);
    vstd::seq_lib::lemma_sorted_unique(
        items_in_order(s, before),
        items_in_order(t, before),
        may_lead(before),
    );
}

/// The order of texts.
pub open spec fn text_order() -> spec_fn(Seq<char>, Seq<char>) -> bool {
    |a: Seq<char>, b: Seq<char>| precedes(a, b)
}

/// The order of texts is total.
pub proof fn lemma_text_order_is_total()
    ensures
        total_ordering(may_lead(text_order())),
{
    let leq = may_lead(text_order());
    assert forall|a: Seq<char>| #[trigger] leq(a, a) by {
        lemma_precedes_irreflexive(a);
    }
    assert forall|a: Seq<char>, b: Seq<char>| #[trigger] leq(a, b) && #[trigger] leq(
        b,
        a,
    ) implies a == b by {
        lemma_precedes_total(a, b);
    }
    assert forall|a: Seq<char>, b: Seq<char>, c: Seq<char>| #[trigger] leq(a, b) && #[trigger] leq(
        b,
        c,
    ) implies leq(a, c) by {
        if precedes(c, a) {
            lemma_precedes_total(a, b);
            lemma_precedes_total(b, c);
            if a != b && b != c {
                lemma_precedes_transitive(a, b, c);
                lemma_precedes_transitive(a, c, a);
                lemma_precedes_irreflexive(a);
            }
        }
    }
    assert forall|a: Seq<char>, b: Seq<char>| #[trigger] leq(a, b) || #[trigger] leq(b, a) by {
        if precedes(a, b) && precedes(b, a) {
            lemma_precedes_transitive(a, b, a);
            lemma_precedes_irreflexive(a);
        }
    }
}

/// Puts texts in order.
pub(crate) fn sorted_texts(items: &Vec<String>) -> (r: Vec<String>)
    ensures
        r.deep_view() == items_in_order(items.deep_view(), text_order()),
{
    let ghost p = text_order();
    sort_items(
        items,
        |a: &String, b: &String| -> (o: bool)
            ensures
                o == p(a.deep_view(), b.deep_view())
            { text_precedes(a.as_str(), b.as_str()) },
        Ghost(p),
    )
}

/// The text of the characters that have the numbers of some bytes.
pub open spec fn byte_text(bytes: Seq<u8>) -> Seq<char> {
    Seq::new(bytes.len(), |i: int| bytes[i] as char)
}

/// Different bytes make different texts.
pub proof fn lemma_byte_text_is_exact(a: Seq<u8>, b: Seq<u8>)
    ensures
        (byte_text(a) == byte_text(b)) == (a == b),
{
    if byte_text(a) == byte_text(b) {
        assert(byte_text(a).len() == a.len());
        assert(byte_text(b).len() == b.len());
        assert forall|i: int| 0 <= i < a.len() implies a[i] == b[i] by {
            assert(byte_text(a)[i] == a[i] as char);
            assert(byte_text(b)[i] == b[i] as char);
        }
        assert(a =~= b);
    }
}

/// Writes the text of the characters that have the numbers of some bytes.
pub fn text_of_bytes(bytes: &[u8]) -> (r: String)
    ensures
        r@ == byte_text(bytes@),
{
    let mut r = String::new();
    let mut i: usize = 0;
    while i < bytes.len()
        invariant
            i <= bytes.len(),
            r@ =~= byte_text(bytes@).take(i as int),
        decreases bytes.len() - i,
    {
        r.push(bytes[i] as char);
        i = i + 1;
    }
    assert(r@ =~= byte_text(bytes@));
    r
}

/// A text put between those that precede it and those that it precedes keeps the order.
pub proof fn lemma_insert_ascending(s: Seq<Seq<char>>, at: int, x: Seq<char>)
    requires
        ascending(s),
        0 <= at <= s.len(),
        forall|j: int| 0 <= j < at ==> precedes(#[trigger] s[j], x),
        at < s.len() ==> precedes(x, s[at]),
    ensures
        ascending(s.insert(at, x)),
{
    let t = s.insert(at, x);
    assert forall|i: int, j: int| 0 <= i < j < t.len() implies precedes(
        #[trigger] t[i],
        #[trigger] t[j],
    ) by {
        if i == at {
            assert(t[j] == s[j - 1]);
            if j - 1 > at {
                assert(precedes(s[at], s[j - 1]));
                lemma_precedes_transitive(x, s[at], s[j - 1]);
            }
        } else if j == at {
            assert(t[i] == s[i]);
        } else {
            let p = if i < at { i } else { i - 1 };
            let q = if j < at { j } else { j - 1 };
            assert(t[i] == s[p] && t[j] == s[q]);
        }
    }
}

/// A text that is put in front of all texts at the end that it precedes keeps the order.
pub proof fn lemma_insert_ordered(ids: Seq<Seq<char>>, k: int, id: Seq<char>)
    requires
        ascending(ids),
        0 <= k <= ids.len(),
        forall|j: int| 0 <= j < ids.len() ==> #[trigger] ids[j] != id,
        forall|j: int| k <= j < ids.len() ==> precedes(id, #[trigger] ids[j]),
        k > 0 ==> !precedes(id, ids[k - 1]),
    ensures
        ascending(ids.insert(k, id)),
{
    assert forall|j: int| 0 <= j < k implies precedes(#[trigger] ids[j], id) by {
        lemma_precedes_total(ids[k - 1], id);
        if j < k - 1 {
            lemma_precedes_transitive(ids[j], ids[k - 1], id);
        }
    }
    lemma_insert_ascending(ids, k, id);
}

} // verus!
