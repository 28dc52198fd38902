//! Searching and thinning lists.
use crate::copying::views;
use vstd::prelude::*;

verus! {

broadcast use crate::copying::group_views;

/// The index of the first entry with the property, or the length where there is
/// none.
pub open spec fn first<T>(s: Seq<T>, p: spec_fn(T) -> bool) -> int
    decreases s.len(),
{
    if s.len() == 0 || p(s[0]) {
        0
    } else {
        1 + first(s.drop_first(), p)
    }
}

/// The first entry with the property.
pub open spec fn found<T>(s: Seq<T>, p: spec_fn(T) -> bool) -> Option<T> {
    if first(s, p) < s.len() {
        Some(s[first(s, p)])
    } else {
        None
    }
}

/// Whether an entry has the property.
pub open spec fn some<T>(s: Seq<T>, p: spec_fn(T) -> bool) -> bool {
    exists|i: int| 0 <= i < s.len() && p(#[trigger] s[i])
}

pub proof fn lemma_first<T>(s: Seq<T>, p: spec_fn(T) -> bool)
    ensures
        0 <= first(s, p) <= s.len(),
        first(s, p) < s.len() ==> p(s[first(s, p)]),
        forall|i: int| 0 <= i < first(s, p) ==> !p(#[trigger] s[i]),
        first(s, p) < s.len() <==> some(s, p),
    decreases s.len(),
{
    if s.len() > 0 && !p(s[0]) {
        let rest = s.drop_first();
        lemma_first(rest, p);
        assert forall|i: int| 0 <= i < first(s, p) implies !p(#[trigger] s[i]) by {
            if i > 0 {
                assert(rest[i - 1] == s[i]);
            }
        }
        if first(s, p) < s.len() {
            assert(p(s[first(s, p)]));
        }
    } else if s.len() > 0 {
        assert(p(s[0]));
    }
}

/// The first entry with the property is the only one with the property and none in
/// front of it.
pub proof fn lemma_first_is<T>(s: Seq<T>, p: spec_fn(T) -> bool, at: int)
    requires
        0 <= at <= s.len(),
        at < s.len() ==> p(s[at]),
        forall|i: int| 0 <= i < at ==> !p(#[trigger] s[i]),
    ensures
        first(s, p) == at,
{
    lemma_first(s, p);
    let f = first(s, p);
    if f < at {
        assert(!p(s[f]));
    }
    if at < f {
        assert(!p(s[at]));
    }
}

/// Searching goes through views.
pub proof fn lemma_first_views<T: View>(
    s: Seq<T>,
    p: spec_fn(T) -> bool,
    q: spec_fn(T::V) -> bool,
)
    requires
        forall|x: T| #[trigger] p(x) == q(x@),
    ensures
        first(views(s), q) == first(s, p),
        some(views(s), q) == some(s, p),
{
    lemma_first(s, p);
    lemma_first(views(s), q);
    lemma_first_is(views(s), q, first(s, p));
}

/// Thinning goes through views.
pub proof fn lemma_filter_views<T: View>(
    s: Seq<T>,
    p: spec_fn(T) -> bool,
    q: spec_fn(T::V) -> bool,
)
    requires
        forall|x: T| #[trigger] p(x) == q(x@),
    ensures
        views(s.filter(p)) == views(s).filter(q),
    decreases s.len(),
{
    reveal(Seq::filter);
    if s.len() > 0 {
        lemma_filter_views(s.drop_last(), p, q);
        assert(views(s).drop_last() =~= views(s.drop_last()));
        assert(views(s).last() == s.last()@);
        assert(p(s.last()) == q(s.last()@));
        assert(views(s.filter(p)) =~= views(s).filter(q));
    } else {
        assert(views(s.filter(p)) =~= views(s).filter(q));
    }
}

/// The index of the first entry that `test` accepts, or the length.
pub fn position_by<T, F: Fn(&T) -> bool>(
    list: &Vec<T>,
    test: F,
    Ghost(p): Ghost<spec_fn(T) -> bool>,
) -> (at: usize)
    requires
        forall|x: &T| #[trigger] call_requires(test, (x,)),
        forall|x: &T, yes: bool| #[trigger] call_ensures(test, (x,), yes) ==> yes == p(*x),
    ensures
        at == first(list@, p),
        at <= list.len(),
        at < list.len() ==> p(list@[at as int]),
{
    let mut i: usize = 0;
    while i < list.len()
        invariant
            i <= list.len(),
            forall|x: &T| #[trigger] call_requires(test, (x,)),
            forall|x: &T, yes: bool| #[trigger] call_ensures(test, (x,), yes) ==> yes == p(*x),
            forall|j: int| 0 <= j < i ==> !p(#[trigger] list@[j]),
        decreases list.len() - i,
    {
        if test(&list[i]) {
            proof {
                lemma_first_is(list@, p, i as int);
            }
            return i;
        }
        i = i + 1;
    }
    proof {
        lemma_first_is(list@, p, i as int);
    }
    i
}

/// Keeps the entries that `keep` accepts.
pub fn retain_by<T, F: Fn(&T) -> bool>(
    list: &mut Vec<T>,
    keep: F,
    Ghost(p): Ghost<spec_fn(T) -> bool>,
)
    requires
        forall|x: &T| #[trigger] call_requires(keep, (x,)),
        forall|x: &T, yes: bool| #[trigger] call_ensures(keep, (x,), yes) ==> yes == p(*x),
    ensures
        final(list)@ == old(list)@.filter(p),
        final(list).len() <= old(list).len(),
{
    let mut rest: Vec<T> = Vec::new();
    std::mem::swap(list, &mut rest);
    let ghost all = rest@;
    assert(all.take(0).filter(p) =~= Seq::<T>::empty()) by {
        reveal(Seq::filter);
    }
    while rest.len() > 0
        invariant
            rest@ == all.skip(all.len() - rest@.len()),
            rest@.len() <= all.len(),
            list@ == all.take(all.len() - rest@.len()).filter(p),
            list@.len() + rest@.len() <= all.len(),
            forall|x: &T| #[trigger] call_requires(keep, (x,)),
            forall|x: &T, yes: bool| #[trigger] call_ensures(keep, (x,), yes) ==> yes == p(*x),
        decreases rest.len(),
    {
        let ghost done = all.len() - rest@.len();
        let x = rest.remove(0);
        let stays = keep(&x);
        proof {
            reveal(Seq::filter);
            assert(all.take(done + 1).drop_last() =~= all.take(done));
            assert(all.take(done + 1).last() == x);
            assert(rest@ =~= all.skip(done + 1));
        }
        if stays {
            list.push(x);
        }
    }
    assert(all.take(all.len() as int) =~= all);
}

/// Whether the list holds the number.
pub fn holds(list: &Vec<u64>, id: u64) -> (yes: bool)
    ensures
        yes == list@.contains(id),
{
    let mut i: usize = 0;
    while i < list.len()
        invariant
            i <= list.len(),
            forall|j: int| 0 <= j < i ==> list@[j] != id,
        decreases list.len() - i,
    {
        if list[i] == id {
            assert(list@[i as int] == id);
            return true;
        }
        i = i + 1;
    }
    false
}

/// The last number of the list.
pub fn last_of(list: &Vec<u64>) -> (id: Option<u64>)
    ensures
        id == last_id(list@),
{
    if list.len() == 0 {
        None
    } else {
        Some(list[list.len() - 1])
    }
}

/// The last number of the list.
pub open spec fn last_id(list: Seq<u64>) -> Option<u64> {
    if list.len() == 0 {
        None
    } else {
        Some(list.last())
    }
}

} // verus!
