//! Copies of lists and of optional values, and what they hold.
use vstd::prelude::*;

verus! {

/// Something of which a copy holds the same.
pub trait Duplicate: View + Sized {
    /// A copy.
    fn duplicate(&self) -> (copy: Self)
        ensures
            copy@ == self@,
    ;
}

/// What the entries of a list hold.
#[verifier::opaque]
pub open spec fn views<T: View>(list: Seq<T>) -> Seq<T::V> {
    list.map_values(|x: T| x@)
}

pub broadcast proof fn lemma_views_len<T: View>(list: Seq<T>)
    ensures
        (#[trigger] views(list)).len() == list.len(),
{
    reveal(views);
}

pub broadcast proof fn lemma_views_index<T: View>(list: Seq<T>, i: int)
    requires
        0 <= i < list.len(),
    ensures
        #[trigger] views(list)[i] == list[i]@,
{
    reveal(views);
}

pub broadcast proof fn lemma_views_push<T: View>(list: Seq<T>, x: T)
    ensures
        #[trigger] views(list.push(x)) == views(list).push(x@),
{
    broadcast use {lemma_views_len, lemma_views_index};

    assert(views(list.push(x)) =~= views(list).push(x@));
}

pub broadcast proof fn lemma_views_update<T: View>(list: Seq<T>, i: int, x: T)
    requires
        0 <= i < list.len(),
    ensures
        #[trigger] views(list.update(i, x)) == views(list).update(i, x@),
{
    broadcast use {lemma_views_len, lemma_views_index};

    assert(views(list.update(i, x)) =~= views(list).update(i, x@));
}

pub broadcast proof fn lemma_views_remove<T: View>(list: Seq<T>, i: int)
    requires
        0 <= i < list.len(),
    ensures
        #[trigger] views(list.remove(i)) == views(list).remove(i),
{
    broadcast use {lemma_views_len, lemma_views_index};

    assert(views(list.remove(i)) =~= views(list).remove(i));
}

pub broadcast proof fn lemma_views_insert<T: View>(list: Seq<T>, i: int, x: T)
    requires
        0 <= i <= list.len(),
    ensures
        #[trigger] views(list.insert(i, x)) == views(list).insert(i, x@),
{
    broadcast use {lemma_views_len, lemma_views_index};

    assert(views(list.insert(i, x)) =~= views(list).insert(i, x@));
}

pub broadcast proof fn lemma_views_subrange<T: View>(list: Seq<T>, i: int, j: int)
    requires
        0 <= i <= j <= list.len(),
    ensures
        #[trigger] views(list.subrange(i, j)) == views(list).subrange(i, j),
{
    broadcast use {lemma_views_len, lemma_views_index};

    assert(views(list.subrange(i, j)) =~= views(list).subrange(i, j));
}

pub broadcast proof fn lemma_views_empty<T: View>()
    ensures
        #[trigger] views(Seq::<T>::empty()) == Seq::<T::V>::empty(),
{
    broadcast use {lemma_views_len, lemma_views_index};

    assert(views(Seq::<T>::empty()) =~= Seq::<T::V>::empty());
}

pub broadcast group group_views {
    lemma_views_len,
    lemma_views_index,
    lemma_views_push,
    lemma_views_update,
    lemma_views_remove,
    lemma_views_insert,
    lemma_views_subrange,
    lemma_views_empty,
}

/// What an optional value holds.
pub open spec fn optional<T: View>(value: Option<T>) -> Option<T::V> {
    match value {
        Some(x) => Some(x@),
        None => None,
    }
}

/// A copy of a list of plain values.
pub fn copy_list<T: Copy>(list: &Vec<T>) -> (copy: Vec<T>)
    ensures
        copy@ == list@,
{
    let mut copy: Vec<T> = Vec::new();
    let mut i: usize = 0;
    while i < list.len()
        invariant
            i <= list.len(),
            copy@ == list@.take(i as int),
        decreases list.len() - i,
    {
        assert(list@.take(i as int).push(list@[i as int]) =~= list@.take(i + 1));
        copy.push(list[i]);
        i = i + 1;
    }
    assert(list@.take(i as int) =~= list@);
    copy
}

/// A copy of a list.
pub fn copy_all<T: Duplicate>(list: &Vec<T>) -> (copy: Vec<T>)
    ensures
        views(copy@) == views(list@),
{
    let mut copy: Vec<T> = Vec::new();
    let mut i: usize = 0;
    while i < list.len()
        invariant
            i <= list.len(),
            copy.len() == i,
            forall|j: int| 0 <= j < i ==> (#[trigger] copy@[j])@ == list@[j]@,
        decreases list.len() - i,
    {
        copy.push(list[i].duplicate());
        i = i + 1;
    }
    proof {
        broadcast use group_views;

        assert(views(copy@) =~= views(list@));
    }
    copy
}

/// A copy of an optional value.
pub fn copy_optional<T: Duplicate>(value: &Option<T>) -> (copy: Option<T>)
    ensures
        optional(copy) == optional(*value),
{
    match value {
        Some(x) => Some(x.duplicate()),
        None => None,
    }
}

/// A copy of an optional text.
pub fn copy_text(value: &Option<String>) -> (copy: Option<String>)
    ensures
        optional(copy) == optional(*value),
{
    match value {
        Some(x) => Some(x.clone()),
        None => None,
    }
}

} // verus!
