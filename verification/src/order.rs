//! Lists ordered by time.
use crate::copying::views;
use crate::time::Duration;
use vstd::prelude::*;

verus! {

/// Something that has a place in time.
pub trait Timed: Sized {
    /// Its place in nanoseconds.
    spec fn at(&self) -> int;

    /// Its place.
    fn time(&self) -> (t: Duration)
        ensures
            t@ == self.at(),
    ;
}

/// Whether the times never go back.
pub open spec fn in_order<T>(s: Seq<T>, key: spec_fn(T) -> int) -> bool {
    forall|i: int, j: int| 0 <= i <= j < s.len() ==> key(#[trigger] s[i]) <= key(#[trigger] s[j])
}

/// How many entries at the front of an ordered list are not after time `t`: the
/// place where a new entry at `t` goes, behind those at the same time.
pub open spec fn rank<T>(s: Seq<T>, t: int, key: spec_fn(T) -> int) -> int
    decreases s.len(),
{
    if s.len() == 0 {
        0
    } else if key(s.last()) <= t {
        s.len() as int
    } else {
        rank(s.drop_last(), t, key)
    }
}

/// `s` put in order by time; entries at the same time keep their order.
pub open spec fn ordered<T>(s: Seq<T>, key: spec_fn(T) -> int) -> Seq<T>
    decreases s.len(),
{
    if s.len() == 0 {
        s
    } else {
        let front = ordered(s.drop_last(), key);
        front.insert(rank(front, key(s.last()), key), s.last())
    }
}

pub proof fn lemma_rank<T>(s: Seq<T>, t: int, key: spec_fn(T) -> int)
    ensures
        0 <= rank(s, t, key) <= s.len(),
        forall|i: int| rank(s, t, key) <= i < s.len() ==> key(#[trigger] s[i]) > t,
        rank(s, t, key) > 0 ==> key(s[rank(s, t, key) - 1]) <= t,
    decreases s.len(),
{
    if s.len() > 0 && key(s.last()) > t {
        let front = s.drop_last();
        lemma_rank(front, t, key);
        assert forall|i: int| rank(s, t, key) <= i < s.len() implies key(#[trigger] s[i]) > t by {
            if i < front.len() {
                assert(front[i] == s[i]);
            }
        }
    }
}

/// The rank is the only place with entries at or before `t` in front of it and
/// later ones behind.
pub proof fn lemma_rank_unique<T>(s: Seq<T>, t: int, key: spec_fn(T) -> int, at: int)
    requires
        0 <= at <= s.len(),
        forall|i: int| at <= i < s.len() ==> key(#[trigger] s[i]) > t,
        at > 0 ==> key(s[at - 1]) <= t,
    ensures
        rank(s, t, key) == at,
{
    lemma_rank(s, t, key);
    let r = rank(s, t, key);
    if r < at {
        assert(key(s[at - 1]) > t);
    }
    if at < r {
        assert(key(s[r - 1]) > t);
    }
}

/// Putting a list in order gives an ordered list with the same entries.
pub proof fn ordered_is_sorted_permutation<T>(s: Seq<T>, key: spec_fn(T) -> int)
    ensures
        in_order(ordered(s, key), key),
        ordered(s, key).len() == s.len(),
        ordered(s, key).to_multiset() == s.to_multiset(),
    decreases s.len(),
{
    broadcast use vstd::seq_lib::group_to_multiset_ensures;

    if s.len() > 0 {
        let front = ordered(s.drop_last(), key);
        let x = s.last();
        ordered_is_sorted_permutation(s.drop_last(), key);
        lemma_rank(front, key(x), key);
        let r = rank(front, key(x), key);
        vstd::seq_lib::to_multiset_insert(front, r, x);
        assert(s.drop_last().push(x) =~= s);
        vstd::seq_lib::to_multiset_build(s.drop_last(), x);
        let out = front.insert(r, x);
        assert forall|i: int, j: int| 0 <= i <= j < out.len() implies key(#[trigger] out[i]) <= key(
            #[trigger] out[j],
        ) by {
            if i < r {
                assert(key(front[i]) <= key(front[r - 1]));
            }
        }
    }
}

/// A list that is in order is left as it is.
pub proof fn ordered_keeps_order<T>(s: Seq<T>, key: spec_fn(T) -> int)
    requires
        in_order(s, key),
    ensures
        ordered(s, key) == s,
    decreases s.len(),
{
    if s.len() > 0 {
        ordered_keeps_order(s.drop_last(), key);
        let front = s.drop_last();
        lemma_rank_unique(front, key(s.last()), key, front.len() as int);
        assert(front.insert(front.len() as int, s.last()) =~= s);
    }
}

/// Putting in order goes through any map that keeps the times.
pub proof fn lemma_ordered_map<T, U>(
    s: Seq<T>,
    key: spec_fn(T) -> int,
    f: spec_fn(T) -> U,
    image_key: spec_fn(U) -> int,
)
    requires
        forall|x: T| #[trigger] image_key(f(x)) == key(x),
    ensures
        ordered(s.map_values(f), image_key) == ordered(s, key).map_values(f),
    decreases s.len(),
{
    if s.len() > 0 {
        lemma_ordered_map(s.drop_last(), key, f, image_key);
        let front = ordered(s.drop_last(), key);
        let mapped = front.map_values(f);
        assert(s.map_values(f).drop_last() =~= s.drop_last().map_values(f));
        assert(s.map_values(f).last() == f(s.last()));
        lemma_rank(front, key(s.last()), key);
        let r = rank(front, key(s.last()), key);
        lemma_rank_unique(mapped, key(s.last()), image_key, r);
        assert(front.insert(r, s.last()).map_values(f) =~= mapped.insert(r, f(s.last())));
    } else {
        assert(s.map_values(f) =~= Seq::<U>::empty());
        assert(ordered(s, key).map_values(f) =~= Seq::<U>::empty());
    }
}

/// Putting in order goes through views.
pub proof fn lemma_ordered_views<T: View>(
    s: Seq<T>,
    key: spec_fn(T) -> int,
    image_key: spec_fn(T::V) -> int,
)
    requires
        forall|x: T| #[trigger] image_key(x@) == key(x),
    ensures
        ordered(views(s), image_key) == views(ordered(s, key)),
{
    reveal(views);
    let f = |x: T| x@;
    assert(forall|x: T| #[trigger] image_key(f(x)) == key(x)) by {
        assert(forall|x: T| f(x) == x@);
    }
    lemma_ordered_map(s, key, f, image_key);
}

/// Puts the entries in order by time; those at the same time keep their order.
pub fn sort_by_time<T: Timed>(list: &mut Vec<T>)
    ensures
        final(list)@ == ordered(old(list)@, |x: T| x.at()),
{
    let ghost key = |x: T| x.at();
    let mut rest: Vec<T> = Vec::new();
    std::mem::swap(list, &mut rest);
    let ghost all = rest@;
    assert(all.take(0) =~= Seq::<T>::empty());
    while rest.len() > 0
        invariant
            rest@ == all.skip(all.len() - rest@.len()),
            rest@.len() <= all.len(),
            key == (|x: T| x.at()),
            list@ == ordered(all.take(all.len() - rest@.len()), key),
        decreases rest.len(),
    {
        let ghost done = all.len() - rest@.len();
        let x = rest.remove(0);
        let t = x.time();
        let mut at: usize = list.len();
        while at > 0 && list[at - 1].time().nanos > t.nanos
            invariant
                at <= list.len(),
                t@ == x.at(),
                forall|i: int| at <= i < list.len() ==> (#[trigger] list@[i]).at() > t@,
            decreases at,
        {
            at = at - 1;
        }
        proof {
            lemma_rank_unique(list@, t@, key, at as int);
            assert(all.take(done + 1).drop_last() =~= all.take(done));
            assert(all.take(done + 1).last() == x);
            assert(rest@ =~= all.skip(done + 1));
        }
        list.insert(at, x);
    }
    assert(all.take(all.len() as int) =~= all);
}

} // verus!
