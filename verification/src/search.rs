//! Searching a list for items of a sort, and checking all items of a list.

use vstd::prelude::*;

use crate::value::{
    first_failure, lemma_failures_begin, lemma_failures_end, lemma_failures_step, verdict,
    KernelError, Verdict,
};

verus! {

/// Where the first item of a sort stands.
pub open spec fn first_where<A>(s: Seq<A>, p: spec_fn(A) -> bool) -> Option<int>
    decreases s.len(),
{
    if s.len() == 0 {
        None
    } else {
        match first_where(s.drop_last(), p) {
            Some(i) => Some(i),
            None => if p(s.last()) {
                Some(s.len() - 1)
            } else {
                None
            },
        }
    }
}

/// Where the last item of a sort stands.
pub open spec fn last_where<A>(s: Seq<A>, p: spec_fn(A) -> bool) -> Option<int>
    decreases s.len(),
{
    if s.len() == 0 {
        None
    } else if p(s.last()) {
        Some(s.len() - 1)
    } else {
        last_where(s.drop_last(), p)
    }
}

/// Some item is of a sort.
pub open spec fn any_where<A>(s: Seq<A>, p: spec_fn(A) -> bool) -> bool {
    exists|i: int| 0 <= i < s.len() && p(#[trigger] s[i])
}

/// Every item is of a sort.
pub open spec fn all_where<A>(s: Seq<A>, p: spec_fn(A) -> bool) -> bool {
    forall|i: int| 0 <= i < s.len() ==> p(#[trigger] s[i])
}

/// What the place of the first item of a sort tells.
pub proof fn lemma_first_where<A>(s: Seq<A>, p: spec_fn(A) -> bool)
    ensures
        match first_where(s, p) {
            Some(i) => 0 <= i < s.len() && p(s[i]) && forall|j: int|
                0 <= j < i ==> !p(#[trigger] s[j]),
            None => forall|j: int| 0 <= j < s.len() ==> !p(#[trigger] s[j]),
        },
    decreases s.len(),
{
    if s.len() > 0 {
        let rest = s.drop_last();
        lemma_first_where(rest, p);
        assert forall|j: int| 0 <= j < rest.len() implies rest[j] == #[trigger] s[j] by {}
    }
}

/// What the place of the last item of a sort tells.
pub proof fn lemma_last_where<A>(s: Seq<A>, p: spec_fn(A) -> bool)
    ensures
        match last_where(s, p) {
            Some(i) => 0 <= i < s.len() && p(s[i]) && forall|j: int|
                i < j < s.len() ==> !p(#[trigger] s[j]),
            None => forall|j: int| 0 <= j < s.len() ==> !p(#[trigger] s[j]),
        },
    decreases s.len(),
{
    if s.len() > 0 {
        let rest = s.drop_last();
        lemma_last_where(rest, p);
        assert forall|j: int| 0 <= j < rest.len() implies rest[j] == #[trigger] s[j] by {}
    }
}

/// Finds the first item of a sort.
pub(crate) fn find_first<T: DeepView, F: Fn(&T) -> bool>(
    items: &Vec<T>,
    test: F,
    Ghost(p): Ghost<spec_fn(T::V) -> bool>,
) -> (r: Option<usize>)
    requires
        forall|x: &T| #[trigger] test.requires((x,)),
        forall|x: &T, b: bool| #[trigger] test.ensures((x,), b) ==> b == p(x.deep_view()),
    ensures
        match r {
            Some(i) => i < items.len() && first_where(items.deep_view(), p) == Some(i as int) && p(
                items@[i as int].deep_view(),
            ),
            None => first_where(items.deep_view(), p) is None,
        },
{
    let ghost v = items.deep_view();
    let mut i: usize = 0;
    assert(v.take(0) =~= Seq::empty());
    while i < items.len()
        invariant
            i <= items.len(),
            v == items.deep_view(),
            forall|x: &T| #[trigger] test.requires((x,)),
            forall|x: &T, b: bool| #[trigger] test.ensures((x,), b) ==> b == p(x.deep_view()),
            forall|j: int| 0 <= j < i ==> !p(#[trigger] v[j]),
        decreases items.len() - i,
    {
        assert(v[i as int] == items@[i as int].deep_view());
        if test(&items[i]) {
            proof {
                lemma_first_where(v, p);
            }
            return Some(i);
        }
        i = i + 1;
    }
    proof {
        lemma_first_where(v, p);
    }
    None
}

/// Finds the last item of a sort.
pub(crate) fn find_last<T: DeepView, F: Fn(&T) -> bool>(
    items: &Vec<T>,
    test: F,
    Ghost(p): Ghost<spec_fn(T::V) -> bool>,
) -> (r: Option<usize>)
    requires
        forall|x: &T| #[trigger] test.requires((x,)),
        forall|x: &T, b: bool| #[trigger] test.ensures((x,), b) ==> b == p(x.deep_view()),
    ensures
        match r {
            Some(i) => i < items.len() && last_where(items.deep_view(), p) == Some(i as int) && p(
                items@[i as int].deep_view(),
            ),
            None => last_where(items.deep_view(), p) is None,
        },
{
    let ghost v = items.deep_view();
    let mut n: usize = items.len();
    while n > 0
        invariant
            n <= items.len(),
            v == items.deep_view(),
            forall|x: &T| #[trigger] test.requires((x,)),
            forall|x: &T, b: bool| #[trigger] test.ensures((x,), b) ==> b == p(x.deep_view()),
            forall|j: int| n <= j < v.len() ==> !p(#[trigger] v[j]),
        decreases n,
    {
        assert(v[n - 1] == items@[n - 1].deep_view());
        if test(&items[n - 1]) {
            proof {
                lemma_last_where(v, p);
            }
            return Some(n - 1);
        }
        n = n - 1;
    }
    proof {
        lemma_last_where(v, p);
    }
    None
}

/// Tells whether some item is of a sort.
pub(crate) fn has_any<T: DeepView, F: Fn(&T) -> bool>(
    items: &Vec<T>,
    test: F,
    Ghost(p): Ghost<spec_fn(T::V) -> bool>,
) -> (r: bool)
    requires
        forall|x: &T| #[trigger] test.requires((x,)),
        forall|x: &T, b: bool| #[trigger] test.ensures((x,), b) ==> b == p(x.deep_view()),
    ensures
        r == any_where(items.deep_view(), p),
{
    let found = find_first(items, test, Ghost(p));
    proof {
        lemma_first_where(items.deep_view(), p);
        if let Some(i) = found {
            assert(items.deep_view()[i as int] == items@[i as int].deep_view());
        }
    }
    found.is_some()
}

/// Tells whether every item is of a sort.
pub(crate) fn has_all<T: DeepView, F: Fn(&T) -> bool>(
    items: &Vec<T>,
    test: F,
    Ghost(p): Ghost<spec_fn(T::V) -> bool>,
) -> (r: bool)
    requires
        forall|x: &T| #[trigger] test.requires((x,)),
        forall|x: &T, b: bool| #[trigger] test.ensures((x,), b) ==> b == p(x.deep_view()),
    ensures
        r == all_where(items.deep_view(), p),
{
    let ghost v = items.deep_view();
    let mut i: usize = 0;
    while i < items.len()
        invariant
            i <= items.len(),
            v == items.deep_view(),
            forall|x: &T| #[trigger] test.requires((x,)),
            forall|x: &T, b: bool| #[trigger] test.ensures((x,), b) ==> b == p(x.deep_view()),
            forall|j: int| 0 <= j < i ==> p(#[trigger] v[j]),
        decreases items.len() - i,
    {
        assert(v[i as int] == items@[i as int].deep_view());
        if !test(&items[i]) {
            return false;
        }
        i = i + 1;
    }
    true
}

/// The checks of all items of a list.
pub open spec fn check_each<A>(s: Seq<A>, v: spec_fn(A) -> Verdict) -> Verdict {
    first_failure(s.map_values(v))
}

/// Checks all items of a list, one after the other.
pub(crate) fn validate_each<T: DeepView, F: Fn(&T) -> Result<(), KernelError>>(
    items: &Vec<T>,
    validate: F,
    Ghost(v): Ghost<spec_fn(T::V) -> Verdict>,
) -> (r: Result<(), KernelError>)
    requires
        forall|x: &T| #[trigger] validate.requires((x,)),
        forall|x: &T, o: Result<(), KernelError>| #[trigger]
            validate.ensures((x,), o) ==> verdict(o) == v(x.deep_view()),
    ensures
        verdict(r) == check_each(items.deep_view(), v),
{
    let ghost all = items.deep_view().map_values(v);
    let mut i: usize = 0;
    proof {
        lemma_failures_begin(all);
    }
    while i < items.len()
        invariant
            i <= items.len(),
            all == items.deep_view().map_values(v),
            first_failure(all) == first_failure(all.skip(i as int)),
            forall|x: &T| #[trigger] validate.requires((x,)),
            forall|x: &T, o: Result<(), KernelError>| #[trigger]
                validate.ensures((x,), o) ==> verdict(o) == v(x.deep_view()),
        decreases items.len() - i,
    {
        proof {
            lemma_failures_step(all, i as int);
        }
        assert(items.deep_view()[i as int] == items@[i as int].deep_view());
        assert(all[i as int] == v(items@[i as int].deep_view()));
        validate(&items[i])?;
        i = i + 1;
    }
    proof {
        lemma_failures_end(all);
    }
    Ok(())
}

/// Both lists hold the same items, in whatever order and however often.
pub open spec fn same_items<A>(a: Seq<A>, b: Seq<A>) -> bool {
    &&& forall|i: int| 0 <= i < a.len() ==> b.contains(#[trigger] a[i])
    &&& forall|i: int| 0 <= i < b.len() ==> a.contains(#[trigger] b[i])
}

/// The items of a sort, in their order.
pub open spec fn selected<A>(s: Seq<A>, p: spec_fn(A) -> bool) -> Seq<A>
    decreases s.len(),
{
    if s.len() == 0 {
        s
    } else if p(s.last()) {
        selected(s.drop_last(), p).push(s.last())
    } else {
        selected(s.drop_last(), p)
    }
}

/// Only items of the sort are selected, and all of them.
pub proof fn lemma_selected<A>(s: Seq<A>, p: spec_fn(A) -> bool)
    ensures
        forall|i: int|
            0 <= i < selected(s, p).len() ==> p(#[trigger] selected(s, p)[i]) && s.contains(
                selected(s, p)[i],
            ),
        (selected(s, p).len() > 0) == any_where(s, p),
        selected(s, p).len() <= s.len(),
    decreases s.len(),
{
    if s.len() > 0 {
        let rest = s.drop_last();
        lemma_selected(rest, p);
        let a = selected(rest, p);
        let b = selected(s, p);
        assert forall|i: int| 0 <= i < b.len() implies p(#[trigger] b[i]) && s.contains(b[i]) by {
            if i < a.len() {
                assert(b[i] == a[i]);
                let k = choose|k: int| 0 <= k < rest.len() && rest[k] == a[i];
                assert(s[k] == a[i]);
            } else {
                assert(s[s.len() - 1] == b[i]);
            }
        }
        if any_where(rest, p) {
            let k = choose|k: int| 0 <= k < rest.len() && p(#[trigger] rest[k]);
            assert(p(s[k]));
        }
        if p(s.last()) {
            assert(p(s[s.len() - 1]));
        }
        if any_where(s, p) && !p(s.last()) {
            let k = choose|k: int| 0 <= k < s.len() && p(#[trigger] s[k]);
            assert(p(rest[k]));
        }
    }
}

/// Selects the items of a sort.
pub(crate) fn select<'a, T: DeepView, F: Fn(&T) -> bool>(
    items: &'a Vec<T>,
    test: F,
    Ghost(p): Ghost<spec_fn(T::V) -> bool>,
) -> (r: Vec<&'a T>)
    requires
        forall|x: &T| #[trigger] test.requires((x,)),
        forall|x: &T, b: bool| #[trigger] test.ensures((x,), b) ==> b == p(x.deep_view()),
    ensures
        r.deep_view() == selected(items.deep_view(), p),
{
    let ghost v = items.deep_view();
    let mut r: Vec<&'a T> = Vec::new();
    let mut i: usize = 0;
    assert(v.take(0) =~= Seq::empty());
    assert(r.deep_view() =~= Seq::empty());
    while i < items.len()
        invariant
            i <= items.len(),
            v == items.deep_view(),
            forall|x: &T| #[trigger] test.requires((x,)),
            forall|x: &T, b: bool| #[trigger] test.ensures((x,), b) ==> b == p(x.deep_view()),
            r.deep_view() == selected(v.take(i as int), p),
        decreases items.len() - i,
    {
        proof {
            assert(v.take(i + 1).drop_last() =~= v.take(i as int));
            assert(v.take(i + 1).last() == items@[i as int].deep_view());
        }
        if test(&items[i]) {
            let ghost had = r.deep_view();
            r.push(&items[i]);
            assert(r.deep_view() =~= had.push(items@[i as int].deep_view()));
        }
        i = i + 1;
    }
    assert(v.take(i as int) =~= v);
    r
}

} // verus!
