//! Values that are compared and duplicated by what they hold.

use vstd::prelude::*;

use crate::text::same_text;

verus! {

/// A value whose whole meaning is its deep view: two values with one deep view are the same value.
pub trait Value: DeepView + Sized {
    /// Tells whether both values hold the same contents.
    fn same(&self, other: &Self) -> (r: bool)
        ensures
            r == (self.deep_view() == other.deep_view()),
    ;

    /// Makes a second value with the same contents.
    fn duplicate(&self) -> (r: Self)
        ensures
            r.deep_view() == self.deep_view(),
    ;
}

impl Value for String {
    fn same(&self, other: &Self) -> (r: bool) {
        *self == *other
    }

    fn duplicate(&self) -> (r: Self) {
        self.clone()
    }
}

impl Value for bool {
    fn same(&self, other: &Self) -> (r: bool) {
        *self == *other
    }

    fn duplicate(&self) -> (r: Self) {
        *self
    }
}

impl Value for u8 {
    fn same(&self, other: &Self) -> (r: bool) {
        *self == *other
    }

    fn duplicate(&self) -> (r: Self) {
        *self
    }
}

impl Value for u16 {
    fn same(&self, other: &Self) -> (r: bool) {
        *self == *other
    }

    fn duplicate(&self) -> (r: Self) {
        *self
    }
}

impl Value for u32 {
    fn same(&self, other: &Self) -> (r: bool) {
        *self == *other
    }

    fn duplicate(&self) -> (r: Self) {
        *self
    }
}

impl Value for u64 {
    fn same(&self, other: &Self) -> (r: bool) {
        *self == *other
    }

    fn duplicate(&self) -> (r: Self) {
        *self
    }
}

impl Value for usize {
    fn same(&self, other: &Self) -> (r: bool) {
        *self == *other
    }

    fn duplicate(&self) -> (r: Self) {
        *self
    }
}

impl Value for i32 {
    fn same(&self, other: &Self) -> (r: bool) {
        *self == *other
    }

    fn duplicate(&self) -> (r: Self) {
        *self
    }
}

impl Value for &'static str {
    fn same(&self, other: &Self) -> (r: bool) {
        same_text(*self, *other)
    }

    fn duplicate(&self) -> (r: Self) {
        *self
    }
}

impl<T: Value> Value for Option<T> {
    fn same(&self, other: &Self) -> (r: bool) {
        match (self, other) {
            (None, None) => true,
            (Some(a), Some(b)) => a.same(b),
            _ => false,
        }
    }

    fn duplicate(&self) -> (r: Self) {
        match self {
            None => None,
            Some(a) => Some(a.duplicate()),
        }
    }
}

impl<T: Value> Value for Vec<T> {
    fn same(&self, other: &Self) -> (r: bool) {
        if self.len() != other.len() {
            assert(self.deep_view().len() != other.deep_view().len());
            return false;
        }
        let mut i: usize = 0;
        while i < self.len()
            invariant
                i <= self.len(),
                self.len() == other.len(),
                forall|j: int| 0 <= j < i ==> self.deep_view()[j] == other.deep_view()[j],
            decreases self.len() - i,
        {
            if !self[i].same(&other[i]) {
                assert(self.deep_view()[i as int] != other.deep_view()[i as int]);
                return false;
            }
            i = i + 1;
        }
        assert(self.deep_view() =~= other.deep_view());
        true
    }

    fn duplicate(&self) -> (r: Self) {
        let mut out: Vec<T> = Vec::new();
        let mut i: usize = 0;
        while i < self.len()
            invariant
                i <= self.len(),
                out.len() == i,
                forall|j: int| 0 <= j < i ==> out.deep_view()[j] == self.deep_view()[j],
            decreases self.len() - i,
        {
            let copy = self[i].duplicate();
            let ghost before = out.deep_view();
            out.push(copy);
            assert(out.deep_view() =~= before.push(copy.deep_view()));
            i = i + 1;
        }
        assert(out.deep_view() =~= self.deep_view());
        out
    }
}

/// Tells whether `items` holds a value with the contents of `wanted`.
pub fn holds<T: Value>(items: &Vec<T>, wanted: &T) -> (r: bool)
    ensures
        r == items.deep_view().contains(wanted.deep_view()),
{
    let mut i: usize = 0;
    while i < items.len()
        invariant
            i <= items.len(),
            forall|j: int| 0 <= j < i ==> items.deep_view()[j] != wanted.deep_view(),
        decreases items.len() - i,
    {
        if items[i].same(wanted) {
            assert(items.deep_view()[i as int] == wanted.deep_view());
            return true;
        }
        i = i + 1;
    }
    false
}

/// Adding one value to a vector adds its view at the end of the vector's deep view.
pub proof fn lemma_push_view<T: DeepView>(before: Vec<T>, item: T, after: Vec<T>)
    requires
        after@ == before@.push(item),
    ensures
        after.deep_view() == before.deep_view().push(item.deep_view()),
{
    assert(after.deep_view() =~= before.deep_view().push(item.deep_view()));
}

/// The failure of an operation: one message for the person who reads it.
#[derive(Debug, Clone, PartialEq, Eq)]
pub struct KernelError {
    /// What went wrong.
    pub message: String,
}

impl DeepView for KernelError {
    type V = Seq<char>;

    open spec fn deep_view(&self) -> Seq<char> {
        self.message@
    }
}

impl KernelError {
    /// A failure with a fixed message.
    pub fn new(message: &str) -> (r: Self)
        ensures
            r.deep_view() == message@,
    {
        KernelError { message: message.to_owned() }
    }
}

/// What a checked operation came to: its value, or its failure's message.
pub open spec fn outcome<T: DeepView>(r: Result<T, KernelError>) -> Result<T::V, Seq<char>> {
    match r {
        Ok(v) => Ok(v.deep_view()),
        Err(e) => Err(e.deep_view()),
    }
}

/// What a check came to: nothing, or its failure's message.
pub open spec fn verdict(r: Result<(), KernelError>) -> Result<(), Seq<char>> {
    match r {
        Ok(_) => Ok(()),
        Err(e) => Err(e.deep_view()),
    }
}

/// Ends a check with a failure.
pub fn reject(message: &str) -> (r: Result<(), KernelError>)
    ensures
        verdict(r) == Err::<(), Seq<char>>(message@),
{
    Err(KernelError::new(message))
}

/// The result of a check: nothing, or the message of what failed.
pub type Verdict = Result<(), Seq<char>>;

/// One check after the other: the second counts only where the first passes.
pub open spec fn chain(a: Verdict, b: Verdict) -> Verdict {
    match a {
        Ok(_) => b,
        Err(e) => Err(e),
    }
}

/// A check of one condition.
pub open spec fn check(holds: bool, message: Seq<char>) -> Verdict {
    if holds {
        Ok(())
    } else {
        Err(message)
    }
}

/// The first failure of a row of checks.
pub open spec fn first_failure(all: Seq<Verdict>) -> Verdict
    decreases all.len(),
{
    if all.len() == 0 {
        Ok(())
    } else {
        chain(all[0], first_failure(all.drop_first()))
    }
}

/// Nothing has been checked yet.
pub proof fn lemma_failures_begin(all: Seq<Verdict>)
    ensures
        first_failure(all.skip(0)) == first_failure(all),
{
    assert(all.skip(0) =~= all);
}

/// The check at `i` decides unless it passes.
pub proof fn lemma_failures_step(all: Seq<Verdict>, i: int)
    requires
        0 <= i < all.len(),
    ensures
        first_failure(all.skip(i)) == chain(all[i], first_failure(all.skip(i + 1))),
{
    assert(all.skip(i).drop_first() =~= all.skip(i + 1));
}

/// Everything has been checked.
pub proof fn lemma_failures_end(all: Seq<Verdict>)
    ensures
        first_failure(all.skip(all.len() as int)) == Ok::<(), Seq<char>>(()),
{
}

/// A row of checks passes exactly if each of them passes.
pub proof fn lemma_all_pass(all: Seq<Verdict>)
    ensures
        (first_failure(all) is Ok) == (forall|i: int| 0 <= i < all.len() ==> (#[trigger] all[i]) is Ok),
    decreases all.len(),
{
    if all.len() > 0 {
        let rest = all.drop_first();
        lemma_all_pass(rest);
        if first_failure(all) is Ok {
            assert forall|i: int| 0 <= i < all.len() implies (#[trigger] all[i]) is Ok by {
                if i > 0 {
                    assert(all[i] == rest[i - 1]);
                }
            }
        }
        if forall|i: int| 0 <= i < all.len() ==> (#[trigger] all[i]) is Ok {
            assert(all[0] is Ok);
            assert forall|i: int| 0 <= i < rest.len() implies (#[trigger] rest[i]) is Ok by {
                assert(rest[i] == all[i + 1]);
            }
        }
    }
}

/// The item at `i` occurs before `i` already.
pub open spec fn repeats<A>(s: Seq<A>, i: int) -> bool {
    exists|j: int| 0 <= j < i && #[trigger] s[j] == s[i]
}

/// No item occurs twice.
pub open spec fn distinct<A>(s: Seq<A>) -> bool {
    forall|i: int, j: int| 0 <= i < j < s.len() ==> #[trigger] s[i] != #[trigger] s[j]
}

/// Tells whether the item at `i` occurs before `i` already.
pub fn repeated_at<T: Value>(items: &Vec<T>, i: usize) -> (r: bool)
    requires
        i < items.len(),
    ensures
        r == repeats(items.deep_view(), i as int),
{
    let mut j: usize = 0;
    while j < i
        invariant
            j <= i < items.len(),
            forall|k: int| 0 <= k < j ==> items.deep_view()[k] != items.deep_view()[i as int],
        decreases i - j,
    {
        if items[j].same(&items[i]) {
            assert(items.deep_view()[j as int] == items.deep_view()[i as int]);
            return true;
        }
        j = j + 1;
    }
    false
}

/// Tells whether no item occurs twice.
pub fn all_distinct<T: Value>(items: &Vec<T>) -> (r: bool)
    ensures
        r == distinct(items.deep_view()),
{
    let mut i: usize = 0;
    while i < items.len()
        invariant
            i <= items.len(),
            forall|j: int, k: int|
                0 <= j < k < i ==> #[trigger] items.deep_view()[j] != #[trigger] items.deep_view()[k],
        decreases items.len() - i,
    {
        if repeated_at(items, i) {
            return false;
        }
        i = i + 1;
    }
    true
}

/// A value that is found by a text.
pub trait Keyed: Value {
    /// The text that finds a value.
    spec fn key(v: Self::V) -> Seq<char>;

    /// The text that finds this value.
    fn key_text(&self) -> (r: &str)
        ensures
            r@ == Self::key(self.deep_view()),
    ;
}

/// Where the first value with a key stands.
pub open spec fn find_key<T: Keyed>(items: Seq<T::V>, key: Seq<char>) -> Option<int>
    decreases items.len(),
{
    if items.len() == 0 {
        None
    } else {
        match find_key::<T>(items.drop_last(), key) {
            Some(i) => Some(i),
            None => if T::key(items.last()) == key {
                Some(items.len() - 1)
            } else {
                None
            },
        }
    }
}

/// What the place of the first value with a key tells.
pub proof fn lemma_find_key<T: Keyed>(items: Seq<T::V>, key: Seq<char>)
    ensures
        match find_key::<T>(items, key) {
            Some(i) => 0 <= i < items.len() && T::key(items[i]) == key && forall|j: int|
                0 <= j < i ==> T::key(#[trigger] items[j]) != key,
            None => forall|j: int| 0 <= j < items.len() ==> T::key(#[trigger] items[j]) != key,
        },
    decreases items.len(),
{
    if items.len() > 0 {
        let rest = items.drop_last();
        lemma_find_key::<T>(rest, key);
        assert forall|j: int| 0 <= j < rest.len() implies rest[j] == #[trigger] items[j] by {}
    }
}

/// Two places that a key is found at are the same place.
pub proof fn lemma_find_key_is<T: Keyed>(items: Seq<T::V>, key: Seq<char>, i: int)
    requires
        0 <= i < items.len(),
        T::key(items[i]) == key,
        forall|j: int| 0 <= j < i ==> T::key(#[trigger] items[j]) != key,
    ensures
        find_key::<T>(items, key) == Some(i),
{
    lemma_find_key::<T>(items, key);
}

/// Finds the first value with a key.
pub fn position_by_key<T: Keyed>(items: &Vec<T>, key: &str) -> (r: Option<usize>)
    ensures
        match r {
            Some(i) => i < items.len() && find_key::<T>(items.deep_view(), key@) == Some(i as int)
                && T::key(items@[i as int].deep_view()) == key@,
            None => find_key::<T>(items.deep_view(), key@) is None,
        },
{
    let mut i: usize = 0;
    while i < items.len()
        invariant
            i <= items.len(),
            forall|j: int| 0 <= j < i ==> T::key(#[trigger] items.deep_view()[j]) != key@,
        decreases items.len() - i,
    {
        assert(items.deep_view()[i as int] == items@[i as int].deep_view());
        let own = items[i].key_text().to_owned();
        let wanted = key.to_owned();
        if own == wanted {
            proof {
                lemma_find_key_is::<T>(items.deep_view(), key@, i as int);
            }
            return Some(i);
        }
        i = i + 1;
    }
    proof {
        lemma_find_key::<T>(items.deep_view(), key@);
    }
    None
}

/// Replacing one value of a vector replaces its view in the vector's deep view.
pub proof fn lemma_update_view<T: DeepView>(before: Vec<T>, i: int, item: T, after: Vec<T>)
    requires
        0 <= i < before@.len(),
        after@ == before@.update(i, item),
    ensures
        after.deep_view() == before.deep_view().update(i, item.deep_view()),
{
    assert(after.deep_view() =~= before.deep_view().update(i, item.deep_view()));
}

/// A value that a check lets pass, or the message of the check.
pub open spec fn yields<T>(v: Verdict, value: T) -> Result<T, Seq<char>> {
    match v {
        Ok(_) => Ok(value),
        Err(e) => Err(e),
    }
}

/// The next number, or the same where there is none.
pub open spec fn next_number(n: u64) -> u64 {
    if n == u64::MAX {
        n
    } else {
        (n + 1) as u64
    }
}

/// The number after `n`, or `n` where there is none.
pub fn following(n: u64) -> (r: u64)
    ensures
        r == next_number(n),
{
    if n == u64::MAX {
        n
    } else {
        n + 1
    }
}

/// Where the first item equal to `x` stands.
pub open spec fn find_item<A>(s: Seq<A>, x: A) -> Option<int>
    decreases s.len(),
{
    if s.len() == 0 {
        None
    } else {
        match find_item(s.drop_last(), x) {
            Some(i) => Some(i),
            None => if s.last() == x {
                Some(s.len() - 1)
            } else {
                None
            },
        }
    }
}

/// What the place of the first item tells.
pub proof fn lemma_find_item<A>(s: Seq<A>, x: A)
    ensures
        match find_item(s, x) {
            Some(i) => 0 <= i < s.len() && s[i] == x && forall|j: int|
                0 <= j < i ==> #[trigger] s[j] != x,
            None => forall|j: int| 0 <= j < s.len() ==> #[trigger] s[j] != x,
        },
    decreases s.len(),
{
    if s.len() > 0 {
        let rest = s.drop_last();
        lemma_find_item(rest, x);
        assert forall|j: int| 0 <= j < rest.len() implies rest[j] == #[trigger] s[j] by {}
    }
}

} // verus!
