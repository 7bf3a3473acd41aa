//! Copies and comparisons of values by what they hold.
//!
//! The contents of a value are its view. A copy has the same view, and two
//! values are the same when their views are equal.

use vstd::prelude::*;

verus! {

/// What the items of a list hold.
pub open spec fn views<T: View>(v: Seq<T>) -> Seq<T::V> {
    Seq::new(v.len(), |i: int| v[i]@)
}

/// What an optional value holds.
pub open spec fn opt_view<T: View>(o: Option<T>) -> Option<T::V> {
    match o {
        Some(t) => Some(t@),
        None => None,
    }
}

/// A value that can be copied.
pub trait Duplicate: View + Sized {
    /// A value that holds the same.
    fn duplicate(&self) -> (r: Self)
        ensures
            r@ == self@,
    ;
}

/// A value that can be compared.
pub trait Same: View + Sized {
    /// Whether two values hold the same.
    fn same_as(&self, other: &Self) -> (r: bool)
        ensures
            r == (self@ == other@),
    ;
}

impl Duplicate for String {
    fn duplicate(&self) -> (r: Self) {
        self.clone()
    }
}

impl Same for String {
    fn same_as(&self, other: &Self) -> (r: bool) {
        crate::text::same(self.as_str(), other.as_str())
    }
}

/// A copy of a list.
pub fn copy_list<T: Duplicate>(v: &Vec<T>) -> (r: Vec<T>)
    ensures
        views(r@) == views(v@),
{
    let mut out: Vec<T> = Vec::new();
    let mut i: usize = 0;
    while i < v.len()
        invariant
            i <= v@.len(),
            out@.len() == i,
            forall|k: int| 0 <= k < i ==> (#[trigger] out@[k])@ == v@[k]@,
        decreases v@.len() - i,
    {
        out.push(v[i].duplicate());
        i = i + 1;
    }
    proof {
        assert(views(out@) =~= views(v@));
    }
    out
}

/// A copy of an optional value.
pub fn copy_opt<T: Duplicate>(o: &Option<T>) -> (r: Option<T>)
    ensures
        opt_view(r) == opt_view(*o),
{
    match o {
        Some(t) => Some(t.duplicate()),
        None => None,
    }
}

/// Whether two lists hold the same.
pub fn same_list<T: Same>(a: &Vec<T>, b: &Vec<T>) -> (r: bool)
    ensures
        r == (views(a@) == views(b@)),
{
    if a.len() != b.len() {
        proof {
            assert(views(a@).len() != views(b@).len());
        }
        return false;
    }
    let mut i: usize = 0;
    while i < a.len()
        invariant
            i <= a@.len(),
            a@.len() == b@.len(),
            forall|k: int| 0 <= k < i ==> (#[trigger] a@[k])@ == b@[k]@,
        decreases a@.len() - i,
    {
        if !a[i].same_as(&b[i]) {
            proof {
                assert(views(a@)[i as int] != views(b@)[i as int]);
            }
            return false;
        }
        i = i + 1;
    }
    proof {
        assert(views(a@) =~= views(b@));
    }
    true
}

/// Whether two optional values hold the same.
pub fn same_opt<T: Same>(a: &Option<T>, b: &Option<T>) -> (r: bool)
    ensures
        r == (opt_view(*a) == opt_view(*b)),
{
    match (a, b) {
        (Some(a), Some(b)) => a.same_as(b),
        (None, None) => true,
        _ => false,
    }
}

/// Replaces an item by its view in the list of views.
pub proof fn lemma_views_push<T: View>(v: Seq<T>, t: T)
    ensures
        views(v.push(t)) == views(v).push(t@),
{
    assert(views(v.push(t)) =~= views(v).push(t@));
}

/// The items of `v` that `f` turns into something, turned.
pub open spec fn keep_map<A, B>(v: Seq<A>, f: spec_fn(A) -> Option<B>) -> Seq<B>
    decreases v.len(),
{
    if v.len() == 0 {
        Seq::empty()
    } else {
        match f(v.last()) {
            Some(b) => keep_map(v.drop_last(), f).push(b),
            None => keep_map(v.drop_last(), f),
        }
    }
}

/// One more item, turned.
pub proof fn lemma_keep_map_step<A, B>(v: Seq<A>, f: spec_fn(A) -> Option<B>, i: int)
    requires
        0 <= i < v.len(),
    ensures
        keep_map(v.take(i + 1), f) == match f(v[i]) {
            Some(b) => keep_map(v.take(i), f).push(b),
            None => keep_map(v.take(i), f),
        },
{
    assert(v.take(i + 1).drop_last() =~= v.take(i));
}

/// How many items of `v` `f` holds of.
pub open spec fn count_of<A>(v: Seq<A>, f: spec_fn(A) -> bool) -> nat
    decreases v.len(),
{
    if v.len() == 0 {
        0
    } else {
        count_of(v.drop_last(), f) + if f(v.last()) {
            1nat
        } else {
            0nat
        }
    }
}

/// One more item, counted.
pub proof fn lemma_count_step<A>(v: Seq<A>, f: spec_fn(A) -> bool, i: int)
    requires
        0 <= i < v.len(),
    ensures
        count_of(v.take(i + 1), f) == count_of(v.take(i), f) + if f(v[i]) {
            1nat
        } else {
            0nat
        },
{
    assert(v.take(i + 1).drop_last() =~= v.take(i));
}

/// The first item of `v` that `f` holds of.
pub open spec fn find_first<A>(v: Seq<A>, f: spec_fn(A) -> bool) -> Option<A>
    decreases v.len(),
{
    if v.len() == 0 {
        None
    } else if f(v[0]) {
        Some(v[0])
    } else {
        find_first(v.drop_first(), f)
    }
}

/// Passing over an item that `f` does not hold of.
pub proof fn lemma_find_step<A>(v: Seq<A>, f: spec_fn(A) -> bool, i: int)
    requires
        0 <= i < v.len(),
    ensures
        find_first(v.skip(i), f) == if f(v[i]) {
            Some(v[i])
        } else {
            find_first(v.skip(i + 1), f)
        },
{
    assert(v.skip(i)[0] == v[i]);
    assert(v.skip(i).drop_first() =~= v.skip(i + 1));
}

/// One more item, kept or not.
pub proof fn lemma_filter_step<A>(v: Seq<A>, f: spec_fn(A) -> bool, i: int)
    requires
        0 <= i < v.len(),
    ensures
        v.take(i + 1).filter(f) == if f(v[i]) {
            v.take(i).filter(f).push(v[i])
        } else {
            v.take(i).filter(f)
        },
{
    reveal(Seq::filter);
    assert(v.take(i + 1).drop_last() =~= v.take(i));
}

/// Nothing is kept of nothing.
pub proof fn lemma_filter_none<A>(v: Seq<A>, f: spec_fn(A) -> bool)
    ensures
        v.take(0).filter(f) == Seq::<A>::empty(),
{
    reveal(Seq::filter);
    assert(v.take(0) =~= Seq::<A>::empty());
}

} // verus!
